use vstd::prelude::*;

use crate::headers::{parse_custom_headers, headers_of, HeaderMap};
use crate::json::Json;
use crate::message::{Message, ModelConfig, ProviderError, Tool};
use crate::openai::{create_request, request_payload};

verus! {

pub const SAMBANOVA_DEFAULT_MODEL: &'static str = "Meta-Llama-3.1-405B-Instruct";

pub const SAMBANOVA_KNOWN_MODELS: [&'static str; 2] = [
    "Meta-Llama-3.1-405B-Instruct",
    "Meta-Llama-3.3-70B-Instruct",
];

pub const SAMBANOVA_DOC_URL: &'static str = "https://api.sambanova.ai";

/// The host requests go to when none is configured.
pub const SAMBANOVA_DEFAULT_HOST: &'static str = "https://api.sambanova.ai";

/// The path, under the host, that requests go to when none is configured.
pub const SAMBANOVA_DEFAULT_BASE_PATH: &'static str = "v1";

/// The request timeout, in seconds, when none is configured.
pub const SAMBANOVA_DEFAULT_TIMEOUT_SECS: u64 = 600;

pub const SAMBANOVA_API_KEY: &'static str = "SAMBANOVA_API_KEY";

pub const SAMBANOVA_HOST: &'static str = "SAMBANOVA_HOST";

pub const SAMBANOVA_BASE_PATH: &'static str = "SAMBANOVA_BASE_PATH";

pub const SAMBANOVA_CUSTOM_HEADERS: &'static str = "SAMBANOVA_CUSTOM_HEADERS";

pub const SAMBANOVA_TIMEOUT: &'static str = "SAMBANOVA_TIMEOUT";

/// A configuration key that the provider reads, with whether it must be set,
/// whether it is a secret, and the value used when it is not set.
#[derive(Clone, Debug)]
pub struct ConfigKey {
    pub name: String,
    pub required: bool,
    pub secret: bool,
    pub default: Option<String>,
}

impl ConfigKey {
    pub fn new(name: &str, required: bool, secret: bool, default: Option<&str>) -> (r: ConfigKey)
        ensures
            r.describes(name@, required, secret, opt_view(default)),
    {
        let default = match default {
            Some(d) => Some(d.to_owned()),
            None => None,
        };
        ConfigKey { name: name.to_owned(), required, secret, default }
    }

    pub open spec fn describes(
        &self,
        name: Seq<char>,
        required: bool,
        secret: bool,
        default: Option<Seq<char>>,
    ) -> bool {
        &&& self.name@ == name
        &&& self.required == required
        &&& self.secret == secret
        &&& match self.default {
            Some(d) => default == Some(d@),
            None => default is None,
        }
    }
}

pub open spec fn opt_view(s: Option<&str>) -> Option<Seq<char>> {
    match s {
        Some(t) => Some(t@),
        None => None,
    }
}

/// What a registry shows of a provider without building it.
#[derive(Clone, Debug)]
pub struct ProviderMetadata {
    pub name: String,
    pub display_name: String,
    pub description: String,
    pub default_model: String,
    pub known_models: Vec<String>,
    pub model_doc_link: String,
    pub config_keys: Vec<ConfigKey>,
}

/// The configured values that the provider reads; `None` where a key is not
/// set.
#[derive(Clone, Debug)]
pub struct ConfigValues {
    pub api_key: Option<String>,
    pub host: Option<String>,
    pub base_path: Option<String>,
    pub custom_headers: Option<String>,
    pub timeout_secs: Option<u64>,
}

/// Declares `reqwest::Client` so that the provider can hold one.
#[verifier::external_type_specification]
#[verifier::external_body]
pub struct ExClient(reqwest::Client);

/// Declares `reqwest::ClientBuilder`, through which the client is set up.
#[verifier::external_type_specification]
#[verifier::external_body]
pub struct ExClientBuilder(reqwest::ClientBuilder);

/// Relies on `reqwest::Client::builder`: a builder with reqwest's defaults.
#[verifier::external_body]
fn client_builder() -> (r: reqwest::ClientBuilder) {
    reqwest::Client::builder()
}

/// Relies on `reqwest::ClientBuilder::timeout`: the same builder, with a total
/// timeout of `secs` seconds on each request.
#[verifier::external_body]
fn with_timeout(b: reqwest::ClientBuilder, secs: u64) -> (r: reqwest::ClientBuilder) {
    b.timeout(std::time::Duration::from_secs(secs))
}

/// Relies on `reqwest::ClientBuilder::build`: the client, or the text of why
/// it could not be built (a TLS backend or the resolver's configuration).
#[verifier::external_body]
fn build_client(b: reqwest::ClientBuilder) -> (r: Result<reqwest::Client, String>) {
    b.build().map_err(|e| e.to_string())
}

/// Whether `url::Url::parse` accepts the text as an absolute URL.
pub uninterp spec fn parses_as_url(s: Seq<char>) -> bool;

/// Relies on `url::Url::parse`: whether `s` reads as an absolute URL, with the
/// text of why it does not; which of the two depends on `s` alone.
#[verifier::external_body]
fn parse_url(s: &str) -> (r: Result<(), String>)
    ensures
        r is Ok <==> parses_as_url(s@),
{
    url::Url::parse(s).map(|_| ()).map_err(|e| e.to_string())
}

/// The text of the URL that `url::Url::join` makes of `path` on the URL that
/// `url::Url::parse` reads from `host`; none where either of them fails.
pub uninterp spec fn joined_url(host: Seq<char>, path: Seq<char>) -> Option<Seq<char>>;

/// Relies on `url::Url::parse` of `host`, then `url::Url::join` of `path` on
/// the result: the endpoint's text, or the text of why there is none. Both
/// depend on the two texts alone, and `join` needs a parsed base.
#[verifier::external_body]
fn join_url(host: &str, path: &str) -> (r: Result<String, String>)
    ensures
        r is Ok <==> joined_url(host@, path@) is Some,
        r is Ok ==> r->Ok_0@ == joined_url(host@, path@)->Some_0,
        !parses_as_url(host@) ==> r is Err,
{
    url::Url::parse(host).and_then(|base| base.join(path)).map(|u| u.to_string()).map_err(
        |e| e.to_string(),
    )
}

/// `a` followed by `b`.
pub(crate) fn concat(a: &str, b: &str) -> (r: String)
    ensures
        r@ == a@ + b@,
{
    let mut s = a.to_owned();
    s.append(b);
    s
}

/// An adapter that sends OpenAI-compatible chat completions to SambaNova.
pub struct SambanovaProvider {
    client: reqwest::Client,
    host: String,
    base_path: String,
    api_key: String,
    model: ModelConfig,
    custom_headers: Option<HeaderMap>,
    timeout_secs: u64,
}

/// The text of `s`, or `default` where it is `None`.
pub open spec fn text_or(s: Option<String>, default: Seq<char>) -> Seq<char> {
    match s {
        Some(t) => t@,
        None => default,
    }
}

/// The configured timeout, or the default one.
pub open spec fn timeout_of(config: ConfigValues) -> u64 {
    match config.timeout_secs {
        Some(t) => t,
        None => SAMBANOVA_DEFAULT_TIMEOUT_SECS,
    }
}

fn config_timeout(config: &ConfigValues) -> (r: u64)
    ensures
        r == timeout_of(*config),
{
    match config.timeout_secs {
        Some(t) => t,
        None => SAMBANOVA_DEFAULT_TIMEOUT_SECS,
    }
}

fn string_or(s: Option<String>, default: &str) -> (r: String)
    ensures
        r@ == text_or(s, default@),
{
    match s {
        Some(t) => t,
        None => default.to_owned(),
    }
}

impl SambanovaProvider {
    pub closed spec fn wf(&self) -> bool {
        self.custom_headers is Some ==> self.custom_headers->Some_0.wf()
    }

    pub closed spec fn model_spec(&self) -> ModelConfig {
        self.model
    }

    pub closed spec fn api_key_view(&self) -> Seq<char> {
        self.api_key@
    }

    pub closed spec fn host_view(&self) -> Seq<char> {
        self.host@
    }

    pub closed spec fn base_path_view(&self) -> Seq<char> {
        self.base_path@
    }

    pub closed spec fn timeout_spec(&self) -> u64 {
        self.timeout_secs
    }

    /// The custom headers, if any were configured.
    pub closed spec fn custom_headers_view(&self) -> Option<Map<Seq<char>, Seq<char>>> {
        match self.custom_headers {
            Some(h) => Some(h@),
            None => None,
        }
    }

    /// The custom headers as name and value pairs, in order; none where no
    /// custom headers were configured.
    pub closed spec fn custom_entries_view(&self) -> Seq<(Seq<char>, Seq<char>)> {
        match self.custom_headers {
            Some(h) => h.entries_view(),
            None => Seq::empty(),
        }
    }

    /// The host that requests go to.
    pub fn host(&self) -> (r: &String)
        ensures
            r@ == self.host_view(),
    {
        &self.host
    }

    /// The path, under the host, that requests go to.
    pub fn base_path(&self) -> (r: &String)
        ensures
            r@ == self.base_path_view(),
    {
        &self.base_path
    }

    /// The request timeout, in seconds.
    pub fn timeout_secs(&self) -> (r: u64)
        ensures
            r == self.timeout_spec(),
    {
        self.timeout_secs
    }

    /// The custom headers, if any were configured.
    pub fn custom_headers(&self) -> (r: Option<&HeaderMap>)
        requires
            self.wf(),
        ensures
            r is Some <==> self.custom_headers_view() is Some,
            r is Some ==> r->Some_0.wf() && r->Some_0@ == self.custom_headers_view()->Some_0,
    {
        match &self.custom_headers {
            Some(h) => Some(h),
            None => None,
        }
    }

    /// What this provider is, for a registry.
    pub fn metadata() -> (r: ProviderMetadata)
        ensures
            r.name@ == "sambanova"@,
            r.display_name@ == "SambaNova"@,
            r.description@ == "Meta-Llama-3.1-405B-Instruct model available via SambaNova's API"@,
            r.default_model@ == SAMBANOVA_DEFAULT_MODEL@,
            r.known_models@.map_values(|m: String| m@) == seq![
                SAMBANOVA_KNOWN_MODELS[0]@,
                SAMBANOVA_KNOWN_MODELS[1]@,
            ],
            r.model_doc_link@ == SAMBANOVA_DOC_URL@,
            r.config_keys@.len() == 5,
            r.config_keys@[0].describes(SAMBANOVA_API_KEY@, true, true, None),
            r.config_keys@[1].describes(
                SAMBANOVA_HOST@,
                false,
                false,
                Some(SAMBANOVA_DEFAULT_HOST@),
            ),
            r.config_keys@[2].describes(
                SAMBANOVA_BASE_PATH@,
                false,
                false,
                Some(SAMBANOVA_DEFAULT_BASE_PATH@),
            ),
            r.config_keys@[3].describes(SAMBANOVA_CUSTOM_HEADERS@, false, true, None),
            r.config_keys@[4].describes(SAMBANOVA_TIMEOUT@, false, false, Some("600"@)),
    {
        let mut known_models: Vec<String> = Vec::new();
        known_models.push(SAMBANOVA_KNOWN_MODELS[0].to_owned());
        known_models.push(SAMBANOVA_KNOWN_MODELS[1].to_owned());
        let mut config_keys: Vec<ConfigKey> = Vec::new();
        config_keys.push(ConfigKey::new(SAMBANOVA_API_KEY, true, true, None));
        config_keys.push(ConfigKey::new(SAMBANOVA_HOST, false, false, Some(SAMBANOVA_DEFAULT_HOST)));
        config_keys.push(
            ConfigKey::new(SAMBANOVA_BASE_PATH, false, false, Some(SAMBANOVA_DEFAULT_BASE_PATH)),
        );
        config_keys.push(ConfigKey::new(SAMBANOVA_CUSTOM_HEADERS, false, true, None));
        config_keys.push(ConfigKey::new(SAMBANOVA_TIMEOUT, false, false, Some("600")));
        let r = ProviderMetadata {
            name: "sambanova".to_owned(),
            display_name: "SambaNova".to_owned(),
            description: "Meta-Llama-3.1-405B-Instruct model available via SambaNova's API".to_owned(),
            default_model: SAMBANOVA_DEFAULT_MODEL.to_owned(),
            known_models,
            model_doc_link: SAMBANOVA_DOC_URL.to_owned(),
            config_keys,
        };
        assert(r.known_models@.map_values(|m: String| m@) =~= seq![
            SAMBANOVA_KNOWN_MODELS[0]@,
            SAMBANOVA_KNOWN_MODELS[1]@,
        ]);
        r
    }

    /// This provider holds what `config` asks for: its API key, and its host,
    /// base path, timeout and custom headers or their defaults.
    pub open spec fn configured_as(&self, config: ConfigValues) -> bool {
        &&& self.wf()
        &&& config.api_key is Some
        &&& self.api_key_view() == config.api_key->Some_0@
        &&& self.host_view() == text_or(config.host, SAMBANOVA_DEFAULT_HOST@)
        &&& self.base_path_view() == text_or(config.base_path, SAMBANOVA_DEFAULT_BASE_PATH@)
        &&& self.timeout_spec() == timeout_of(config)
        &&& self.custom_headers_view() == match config.custom_headers {
            Some(s) => Some(headers_of(s@)),
            None => None,
        }
    }

    /// Builds the provider for `model` from the configured values and the
    /// outcome of building its HTTP client: the API key must be set and the
    /// client built; host, base path and timeout fall back to their defaults;
    /// the custom headers, if set, are read leniently and never fail.
    pub fn from_config(
        model: ModelConfig,
        config: ConfigValues,
        client: Result<reqwest::Client, String>,
    ) -> (r: Result<SambanovaProvider, ProviderError>)
        ensures
            r is Ok <==> config.api_key is Some && client is Ok,
            config.api_key is None ==> (r matches Err(ProviderError::MissingCredential(k)) && k@
                == SAMBANOVA_API_KEY@),
            config.api_key is Some && client is Err ==> r == Err::<SambanovaProvider, _>(
                ProviderError::ConfigError(client->Err_0),
            ),
            r is Ok ==> r->Ok_0.model_spec() == model && r->Ok_0.configured_as(config),
    {
        let timeout_secs = config_timeout(&config);
        let api_key = match config.api_key {
            Some(k) => k,
            None => {
                return Err(ProviderError::MissingCredential(SAMBANOVA_API_KEY.to_owned()));
            },
        };
        let client = match client {
            Ok(c) => c,
            Err(e) => {
                return Err(ProviderError::ConfigError(e));
            },
        };
        let host = string_or(config.host, SAMBANOVA_DEFAULT_HOST);
        let base_path = string_or(config.base_path, SAMBANOVA_DEFAULT_BASE_PATH);
        let custom_headers = match config.custom_headers {
            Some(s) => Some(parse_custom_headers(s)),
            None => None,
        };
        Ok(SambanovaProvider { client, host, base_path, api_key, model, custom_headers, timeout_secs })
    }

    /// Builds the provider for `model` from the configured values, building its
    /// HTTP client with the configured timeout where the API key is set.
    pub fn from_env(model: ModelConfig, config: ConfigValues) -> (r: Result<
        SambanovaProvider,
        ProviderError,
    >)
        ensures
            config.api_key is None <==> (r is Err && r->Err_0 is MissingCredential),
            r is Err ==> r->Err_0 is MissingCredential || r->Err_0 is ConfigError,
            r matches Err(ProviderError::MissingCredential(k)) ==> k@ == SAMBANOVA_API_KEY@,
            r is Ok ==> r->Ok_0.model_spec() == model && r->Ok_0.configured_as(config),
    {
        if config.api_key.is_none() {
            return Err(ProviderError::MissingCredential(SAMBANOVA_API_KEY.to_owned()));
        }
        let client = build_client(with_timeout(client_builder(), config_timeout(&config)));
        SambanovaProvider::from_config(model, config, client)
    }

    /// Builds the provider for the default model from the configured values,
    /// as `from_env` does.
    pub fn from_env_default_model(config: ConfigValues) -> (r: Result<
        SambanovaProvider,
        ProviderError,
    >)
        ensures
            config.api_key is None <==> (r is Err && r->Err_0 is MissingCredential),
            r is Err ==> r->Err_0 is MissingCredential || r->Err_0 is ConfigError,
            r is Ok ==> r->Ok_0.model_spec().model_name@ == SAMBANOVA_DEFAULT_MODEL@
                && r->Ok_0.model_spec().max_tokens is None && r->Ok_0.configured_as(config),
    {
        let metadata = SambanovaProvider::metadata();
        SambanovaProvider::from_env(ModelConfig::new(metadata.default_model), config)
    }

    /// The chat-completion payload for this provider's model.
    pub fn build_request(&self, system: &str, messages: &[Message], tools: Vec<Tool>) -> (r: Json)
        ensures
            request_payload(r, self.model_spec(), system@, messages@, tools@),
    {
        create_request(&self.model, system, messages, tools)
    }

    /// The model configuration this provider was built with.
    pub fn get_model_config(&self) -> (r: ModelConfig)
        ensures
            r == self.model_spec(),
    {
        self.model.duplicate()
    }

    /// The URL that requests go to: the base path joined to the host. A host
    /// that is no URL, or a base path that does not join to it, is a
    /// `ConfigError`.
    pub fn endpoint(&self) -> (r: Result<String, ProviderError>)
        ensures
            r is Ok <==> joined_url(self.host_view(), self.base_path_view()) is Some,
            r is Ok ==> r->Ok_0@ == joined_url(self.host_view(), self.base_path_view())->Some_0,
            r is Err ==> r->Err_0 is ConfigError,
            !parses_as_url(self.host_view()) ==> r is Err,
    {
        match join_url(self.host.as_str(), self.base_path.as_str()) {
            Ok(u) => Ok(u),
            Err(e) => match parse_url(self.host.as_str()) {
                Ok(_) => Err(
                    ProviderError::ConfigError(
                        concat("Failed to construct endpoint URL: ", e.as_str()),
                    ),
                ),
                Err(pe) => Err(ProviderError::ConfigError(concat("Invalid base URL: ", pe.as_str()))),
            },
        }
    }

    /// The headers of every request, in order: the bearer token, then the
    /// custom headers in the order in which their names were first given.
    pub fn request_headers(&self) -> (r: Vec<(String, String)>)
        requires
            self.wf(),
        ensures
            r@.len() >= 1,
            r@[0].0@ == "Authorization"@,
            r@[0].1@ == "Bearer "@ + self.api_key_view(),
            r@.drop_first().map_values(|e: (String, String)| (e.0@, e.1@))
                == self.custom_entries_view(),
            self.custom_headers_view() is None ==> r@.len() == 1,
            self.custom_headers_view() is Some ==> {
                let m = self.custom_headers_view()->Some_0;
                &&& forall|i: int|
                    1 <= i < r@.len() ==> m.contains_key(#[trigger] r@[i].0@) && m[r@[i].0@]
                        == r@[i].1@
                &&& forall|i: int, j: int|
                    1 <= i < j < r@.len() ==> #[trigger] r@[i].0@ != #[trigger] r@[j].0@
                &&& forall|k: Seq<char>|
                    #[trigger] m.contains_key(k) ==> exists|i: int|
                        1 <= i < r@.len() && r@[i].0@ == k
            },
    {
        let mut r: Vec<(String, String)> = Vec::new();
        r.push(("Authorization".to_owned(), concat("Bearer ", self.api_key.as_str())));
        match &self.custom_headers {
            Some(h) => {
                let mut extra = h.to_vec();
                let ghost added = extra@;
                r.append(&mut extra);
                assert(r@.drop_first() =~= added);
                proof {
                    h.lemma_entries_are_contents();
                    let ev = h.entries_view();
                    assert forall|i: int| 1 <= i < r@.len() implies #[trigger] r@[i].0@ == ev[i
                        - 1].0 && r@[i].1@ == ev[i - 1].1 by {
                        assert(r@[i] == added[i - 1]);
                    }
                    assert forall|i: int, j: int| 1 <= i < j < r@.len() implies #[trigger] r@[i].0@
                        != #[trigger] r@[j].0@ by {
                        assert(r@[i].0@ == ev[i - 1].0);
                        assert(r@[j].0@ == ev[j - 1].0);
                    }
                    assert forall|k: Seq<char>| #[trigger] h@.contains_key(k) implies exists|i: int|
                        1 <= i < r@.len() && r@[i].0@ == k by {
                        let i = choose|i: int| 0 <= i < ev.len() && ev[i].0 == k;
                        assert(r@[i + 1].0@ == ev[i].0);
                    }
                }
            },
            None => {
                assert(r@.drop_first().map_values(|e: (String, String)| (e.0@, e.1@))
                    =~= Seq::<(Seq<char>, Seq<char>)>::empty());
            },
        }
        r
    }

    /// The HTTP client, set up with this provider's timeout.
    pub fn client(&self) -> &reqwest::Client {
        &self.client
    }
}

} // verus!
