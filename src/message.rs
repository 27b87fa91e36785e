use vstd::prelude::*;

use crate::json::Json;

verus! {

/// Who wrote a message.
#[derive(PartialEq, Eq, Structural, Clone, Copy, Debug)]
pub enum Role {
    User,
    Assistant,
}

/// One block of a message.
#[derive(Clone, Debug, PartialEq)]
pub enum MessageContent {
    Text(String),
    /// An image, as base64 `data` of the given `mime_type`.
    Image { data: String, mime_type: String },
    /// A call of a tool, with its arguments as JSON text.
    ToolRequest { id: String, name: String, arguments: String },
    /// What a tool call returned.
    ToolResponse { id: String, output: String },
}

/// The mathematical value of a `MessageContent`.
pub enum ContentV {
    Text(Seq<char>),
    Image { data: Seq<char>, mime_type: Seq<char> },
    ToolRequest { id: Seq<char>, name: Seq<char>, arguments: Seq<char> },
    ToolResponse { id: Seq<char>, output: Seq<char> },
}

impl View for MessageContent {
    type V = ContentV;

    open spec fn view(&self) -> ContentV {
        match self {
            MessageContent::Text(t) => ContentV::Text(t@),
            MessageContent::Image { data, mime_type } => ContentV::Image {
                data: data@,
                mime_type: mime_type@,
            },
            MessageContent::ToolRequest { id, name, arguments } => ContentV::ToolRequest {
                id: id@,
                name: name@,
                arguments: arguments@,
            },
            MessageContent::ToolResponse { id, output } => ContentV::ToolResponse {
                id: id@,
                output: output@,
            },
        }
    }
}

/// A role and an ordered list of content blocks.
#[derive(Clone, Debug, PartialEq)]
pub struct Message {
    pub role: Role,
    pub content: Vec<MessageContent>,
}

impl View for Message {
    type V = (Role, Seq<ContentV>);

    open spec fn view(&self) -> (Role, Seq<ContentV>) {
        (self.role, self.content@.map_values(|c: MessageContent| c@))
    }
}

impl Message {
    /// An empty message from the user.
    pub fn user() -> (r: Message)
        ensures
            r@ == (Role::User, Seq::<ContentV>::empty()),
    {
        let r = Message { role: Role::User, content: Vec::new() };
        assert(r@.1 =~= Seq::<ContentV>::empty());
        r
    }

    /// An empty message from the assistant.
    pub fn assistant() -> (r: Message)
        ensures
            r@ == (Role::Assistant, Seq::<ContentV>::empty()),
    {
        let r = Message { role: Role::Assistant, content: Vec::new() };
        assert(r@.1 =~= Seq::<ContentV>::empty());
        r
    }

    /// This message with one more block, last.
    pub fn with_content(self, c: MessageContent) -> (r: Message)
        ensures
            r@ == (self@.0, self@.1.push(c@)),
    {
        let mut content = self.content;
        content.push(c);
        let r = Message { role: self.role, content };
        assert(r@.1 =~= self@.1.push(c@));
        r
    }

    /// This message with one more text block, last.
    pub fn with_text(self, text: &str) -> (r: Message)
        ensures
            r@ == (self@.0, self@.1.push(ContentV::Text(text@))),
    {
        self.with_content(MessageContent::Text(text.to_owned()))
    }
}

/// A tool that the model may call: its name, what it does, and the JSON
/// schema of its parameters.
pub struct Tool {
    pub name: String,
    pub description: String,
    pub input_schema: Json,
}

impl Tool {
    pub fn new(name: &str, description: &str, input_schema: Json) -> (r: Tool)
        ensures
            r.name@ == name@,
            r.description@ == description@,
            r.input_schema == input_schema,
    {
        Tool { name: name.to_owned(), description: description.to_owned(), input_schema }
    }
}

/// The model a provider talks to, and the generation limit it asks for.
#[derive(Clone, Debug, PartialEq)]
pub struct ModelConfig {
    pub model_name: String,
    pub max_tokens: Option<i32>,
}

impl ModelConfig {
    pub fn new(model_name: String) -> (r: ModelConfig)
        ensures
            r.model_name == model_name,
            r.max_tokens is None,
    {
        ModelConfig { model_name, max_tokens: None }
    }

    /// This configuration with a limit on the tokens generated.
    pub fn with_max_tokens(self, max_tokens: Option<i32>) -> (r: ModelConfig)
        ensures
            r.model_name == self.model_name,
            r.max_tokens == max_tokens,
    {
        ModelConfig { model_name: self.model_name, max_tokens }
    }

    /// A copy of this configuration.
    pub fn duplicate(&self) -> (r: ModelConfig)
        ensures
            r == *self,
    {
        ModelConfig { model_name: self.model_name.clone(), max_tokens: self.max_tokens }
    }
}

/// Token counts of one completion; a count the remote side did not give is
/// `None`.
#[derive(PartialEq, Eq, Structural, Clone, Copy, Debug)]
pub struct Usage {
    pub input_tokens: Option<i32>,
    pub output_tokens: Option<i32>,
    pub total_tokens: Option<i32>,
}

impl Default for Usage {
    fn default() -> (r: Usage)
        ensures
            r.input_tokens is None,
            r.output_tokens is None,
            r.total_tokens is None,
    {
        Usage { input_tokens: None, output_tokens: None, total_tokens: None }
    }
}

/// The usage of a completion, with the model that the remote side says it used.
#[derive(Clone, Debug, PartialEq)]
pub struct ProviderUsage {
    pub model: String,
    pub usage: Usage,
}

/// What can go wrong when building a provider or asking it for a completion.
#[derive(Clone, Debug, PartialEq)]
pub enum ProviderError {
    /// The required secret is not configured; holds the key's name.
    MissingCredential(String),
    /// The configuration cannot be used (an endpoint that is no URL, a client
    /// that cannot be built).
    ConfigError(String),
    /// The request could not be made, came back with a failing status, or its
    /// body could not be read.
    RequestFailed(String),
    /// The response carries no usage data.
    UsageError(String),
}

} // verus!
