use vstd::prelude::*;

use crate::json::{element, field, is_text, Json};
use crate::message::{
    ContentV, Message, MessageContent, ModelConfig, ProviderError, ProviderUsage, Role, Tool, Usage,
};
use crate::provider::concat;

verus! {

// ---------------------------------------------------------------------------
// The request
// ---------------------------------------------------------------------------

/// `w` is an object whose fields are named `keys`, in that order.
pub open spec fn has_keys(w: Json, keys: Seq<Seq<char>>) -> bool {
    &&& w is Obj
    &&& w->Obj_0@.len() == keys.len()
    &&& forall|i: int| 0 <= i < keys.len() ==> #[trigger] w->Obj_0@[i].0@ == keys[i]
}

/// The value of the `i`-th field of the object `w`.
pub open spec fn val(w: Json, i: int) -> Json {
    w->Obj_0@[i].1
}

/// `w` is an array of exactly one element.
pub open spec fn is_single(w: Json) -> bool {
    w is Arr && w->Arr_0@.len() == 1
}

pub open spec fn role_name(r: Role) -> Seq<char> {
    match r {
        Role::User => "user"@,
        Role::Assistant => "assistant"@,
    }
}

/// `w` is `{"role": "system", "content": system}`.
pub open spec fn system_wire(w: Json, system: Seq<char>) -> bool {
    &&& has_keys(w, seq!["role"@, "content"@])
    &&& is_text(val(w, 0), "system"@)
    &&& is_text(val(w, 1), system)
}

/// `w` is `{"id": id, "type": "function", "function": {"name": name,
/// "arguments": arguments}}`.
pub open spec fn tool_call_wire(
    w: Json,
    id: Seq<char>,
    name: Seq<char>,
    arguments: Seq<char>,
) -> bool {
    &&& has_keys(w, seq!["id"@, "type"@, "function"@])
    &&& is_text(val(w, 0), id)
    &&& is_text(val(w, 1), "function"@)
    &&& has_keys(val(w, 2), seq!["name"@, "arguments"@])
    &&& is_text(val(val(w, 2), 0), name)
    &&& is_text(val(val(w, 2), 1), arguments)
}

/// `w` is `{"type": "image_url", "image_url": {"url": "data:<mime>;base64,<data>"}}`.
pub open spec fn image_part_wire(w: Json, data: Seq<char>, mime_type: Seq<char>) -> bool {
    &&& has_keys(w, seq!["type"@, "image_url"@])
    &&& is_text(val(w, 0), "image_url"@)
    &&& has_keys(val(w, 1), seq!["url"@])
    &&& is_text(val(val(w, 1), 0), "data:"@ + mime_type + ";base64,"@ + data)
}

/// `w` is the wire message that one block `c` of a message from `role`
/// becomes.
pub open spec fn wire_message(w: Json, role: Role, c: ContentV) -> bool {
    match c {
        ContentV::Text(t) => {
            &&& has_keys(w, seq!["role"@, "content"@])
            &&& is_text(val(w, 0), role_name(role))
            &&& is_text(val(w, 1), t)
        },
        ContentV::Image { data, mime_type } => {
            &&& has_keys(w, seq!["role"@, "content"@])
            &&& is_text(val(w, 0), role_name(role))
            &&& is_single(val(w, 1))
            &&& image_part_wire(val(w, 1)->Arr_0@[0], data, mime_type)
        },
        ContentV::ToolRequest { id, name, arguments } => {
            &&& has_keys(w, seq!["role"@, "tool_calls"@])
            &&& is_text(val(w, 0), "assistant"@)
            &&& is_single(val(w, 1))
            &&& tool_call_wire(val(w, 1)->Arr_0@[0], id, name, arguments)
        },
        ContentV::ToolResponse { id, output } => {
            &&& has_keys(w, seq!["role"@, "tool_call_id"@, "content"@])
            &&& is_text(val(w, 0), "tool"@)
            &&& is_text(val(w, 1), id)
            &&& is_text(val(w, 2), output)
        },
    }
}

/// The blocks of `ms`, each with the role of its message, in order.
pub open spec fn blocks(ms: Seq<(Role, Seq<ContentV>)>) -> Seq<(Role, ContentV)>
    decreases ms.len(),
{
    if ms.len() == 0 {
        Seq::empty()
    } else {
        let last = ms.last();
        blocks(ms.drop_last()) + last.1.map_values(|c: ContentV| (last.0, c))
    }
}

/// `ws` is the system message followed by one wire message per block of `ms`.
pub open spec fn wire_messages(
    ws: Seq<Json>,
    system: Seq<char>,
    ms: Seq<(Role, Seq<ContentV>)>,
) -> bool {
    &&& ws.len() == 1 + blocks(ms).len()
    &&& system_wire(ws[0], system)
    &&& forall|i: int|
        0 <= i < blocks(ms).len() ==> #[trigger] wire_message(
            ws[i + 1],
            blocks(ms)[i].0,
            blocks(ms)[i].1,
        )
}

/// `w` is `{"type": "function", "function": {"name": .., "description": ..,
/// "parameters": ..}}` for `tool`.
pub open spec fn tool_wire(w: Json, tool: Tool) -> bool {
    &&& has_keys(w, seq!["type"@, "function"@])
    &&& is_text(val(w, 0), "function"@)
    &&& has_keys(val(w, 1), seq!["name"@, "description"@, "parameters"@])
    &&& is_text(val(val(w, 1), 0), tool.name@)
    &&& is_text(val(val(w, 1), 1), tool.description@)
    &&& val(val(w, 1), 2) == tool.input_schema
}

pub open spec fn messages_view(ms: Seq<Message>) -> Seq<(Role, Seq<ContentV>)> {
    ms.map_values(|m: Message| m@)
}

/// `p` is the chat-completion payload for `model`, `system`, `ms` and
/// `tools`: `{"model": .., "messages": [..]}`, then `"tools": [..]` where there
/// are tools, then `"max_tokens": ..` where the model configuration sets it.
pub open spec fn request_payload(
    p: Json,
    model: ModelConfig,
    system: Seq<char>,
    ms: Seq<Message>,
    tools: Seq<Tool>,
) -> bool {
    let keys = seq!["model"@, "messages"@] + (if tools.len() > 0 {
        seq!["tools"@]
    } else {
        Seq::empty()
    }) + (if model.max_tokens is Some {
        seq!["max_tokens"@]
    } else {
        Seq::empty()
    });
    let t = if tools.len() > 0 {
        1int
    } else {
        0int
    };
    &&& has_keys(p, keys)
    &&& is_text(val(p, 0), model.model_name@)
    &&& val(p, 1) is Arr
    &&& wire_messages(val(p, 1)->Arr_0@, system, messages_view(ms))
    &&& tools.len() > 0 ==> {
        &&& val(p, 2) is Arr
        &&& val(p, 2)->Arr_0@.len() == tools.len()
        &&& forall|i: int|
            0 <= i < tools.len() ==> #[trigger] tool_wire(val(p, 2)->Arr_0@[i], tools[i])
    }
    &&& model.max_tokens is Some ==> val(p, 2 + t) == Json::Int(model.max_tokens->Some_0 as i64)
}

fn text(t: &str) -> (r: Json)
    ensures
        is_text(r, t@),
{
    Json::Str(t.to_owned())
}

fn obj1(k0: &str, v0: Json) -> (r: Json)
    ensures
        has_keys(r, seq![k0@]),
        val(r, 0) == v0,
{
    let mut fs: Vec<(String, Json)> = Vec::new();
    fs.push((k0.to_owned(), v0));
    let r = Json::Obj(fs);
    assert(has_keys(r, seq![k0@]));
    r
}

fn obj2(k0: &str, v0: Json, k1: &str, v1: Json) -> (r: Json)
    ensures
        has_keys(r, seq![k0@, k1@]),
        val(r, 0) == v0,
        val(r, 1) == v1,
{
    let mut fs: Vec<(String, Json)> = Vec::new();
    fs.push((k0.to_owned(), v0));
    fs.push((k1.to_owned(), v1));
    let r = Json::Obj(fs);
    assert forall|i: int| 0 <= i < 2 implies #[trigger] r->Obj_0@[i].0@ == seq![k0@, k1@][i] by {
    }
    r
}

fn obj3(k0: &str, v0: Json, k1: &str, v1: Json, k2: &str, v2: Json) -> (r: Json)
    ensures
        has_keys(r, seq![k0@, k1@, k2@]),
        val(r, 0) == v0,
        val(r, 1) == v1,
        val(r, 2) == v2,
{
    let mut fs: Vec<(String, Json)> = Vec::new();
    fs.push((k0.to_owned(), v0));
    fs.push((k1.to_owned(), v1));
    fs.push((k2.to_owned(), v2));
    let r = Json::Obj(fs);
    assert forall|i: int| 0 <= i < 3 implies #[trigger] r->Obj_0@[i].0@ == seq![
        k0@,
        k1@,
        k2@,
    ][i] by {}
    r
}

fn single(v: Json) -> (r: Json)
    ensures
        is_single(r),
        r->Arr_0@[0] == v,
{
    let mut items: Vec<Json> = Vec::new();
    items.push(v);
    Json::Arr(items)
}

fn role_text(role: Role) -> (r: Json)
    ensures
        is_text(r, role_name(role)),
{
    match role {
        Role::User => text("user"),
        Role::Assistant => text("assistant"),
    }
}

/// The wire message that one block of a message from `role` becomes.
fn block_to_wire(role: Role, c: &MessageContent) -> (r: Json)
    ensures
        wire_message(r, role, c@),
{
    match c {
        MessageContent::Text(t) => obj2("role", role_text(role), "content", text(t.as_str())),
        MessageContent::Image { data, mime_type } => {
            let url = concat(
                concat(concat("data:", mime_type.as_str()).as_str(), ";base64,").as_str(),
                data.as_str(),
            );
            let part = obj2("type", text("image_url"), "image_url", obj1("url", Json::Str(url)));
            obj2("role", role_text(role), "content", single(part))
        },
        MessageContent::ToolRequest { id, name, arguments } => {
            let function = obj2("name", text(name.as_str()), "arguments", text(arguments.as_str()));
            let call = obj3("id", text(id.as_str()), "type", text("function"), "function", function);
            obj2("role", text("assistant"), "tool_calls", single(call))
        },
        MessageContent::ToolResponse { id, output } => obj3(
            "role",
            text("tool"),
            "tool_call_id",
            text(id.as_str()),
            "content",
            text(output.as_str()),
        ),
    }
}

proof fn lemma_blocks_push(ms: Seq<(Role, Seq<ContentV>)>, m: (Role, Seq<ContentV>))
    ensures
        blocks(ms.push(m)) == blocks(ms) + m.1.map_values(|c: ContentV| (m.0, c)),
{
    assert(ms.push(m).drop_last() =~= ms);
}

/// The system message followed by one wire message per block of `messages`.
fn messages_to_wire(system: &str, messages: &[Message]) -> (r: Vec<Json>)
    ensures
        wire_messages(r@, system@, messages_view(messages@)),
{
    let mut r: Vec<Json> = Vec::new();
    r.push(obj2("role", text("system"), "content", text(system)));
    let mut i: usize = 0;
    assert(messages_view(messages@.take(0)) =~= Seq::empty());
    while i < messages.len()
        invariant
            i <= messages@.len(),
            wire_messages(r@, system@, messages_view(messages@.take(i as int))),
        decreases messages@.len() - i,
    {
        let m = &messages[i];
        let ghost done = messages_view(messages@.take(i as int));
        let ghost before = blocks(done).len();
        proof {
            assert(messages_view(messages@.take(i + 1)) =~= done.push(m@));
            lemma_blocks_push(done, m@);
        }
        let mut j: usize = 0;
        while j < m.content.len()
            invariant
                i < messages@.len(),
                m == messages@[i as int],
                j <= m.content@.len(),
                done == messages_view(messages@.take(i as int)),
                before == blocks(done).len(),
                blocks(messages_view(messages@.take(i + 1))) == blocks(done) + m@.1.map_values(
                    |c: ContentV| (m@.0, c),
                ),
                r@.len() == 1 + before + j,
                system_wire(r@[0], system@),
                forall|k: int|
                    0 <= k < before + j ==> #[trigger] wire_message(
                        r@[k + 1],
                        blocks(messages_view(messages@.take(i + 1)))[k].0,
                        blocks(messages_view(messages@.take(i + 1)))[k].1,
                    ),
            decreases m.content@.len() - j,
        {
            let w = block_to_wire(m.role, &m.content[j]);
            r.push(w);
            j = j + 1;
        }
        i = i + 1;
    }
    assert(messages@.take(i as int) =~= messages@);
    r
}

fn tool_to_wire(tool: Tool) -> (r: Json)
    ensures
        tool_wire(r, tool),
{
    let function = obj3(
        "name",
        text(tool.name.as_str()),
        "description",
        text(tool.description.as_str()),
        "parameters",
        tool.input_schema,
    );
    obj2("type", text("function"), "function", function)
}

/// The OpenAI-compatible chat-completion payload for `model`, `system`,
/// `messages` and `tools`; the tools' schemas move into the payload.
pub fn create_request(model: &ModelConfig, system: &str, messages: &[Message], tools: Vec<Tool>) -> (r:
    Json)
    ensures
        request_payload(r, *model, system@, messages@, tools@),
{
    let mut fs: Vec<(String, Json)> = Vec::new();
    fs.push(("model".to_owned(), text(model.model_name.as_str())));
    fs.push(("messages".to_owned(), Json::Arr(messages_to_wire(system, messages))));
    if tools.len() > 0 {
        let mut ts: Vec<Json> = Vec::new();
        let ghost given = tools@;
        let mut rest = tools;
        while rest.len() > 0
            invariant
                ts@.len() + rest@.len() == given.len(),
                forall|k: int| 0 <= k < ts@.len() ==> #[trigger] tool_wire(ts@[k], given[k]),
                rest@ == given.subrange(ts@.len() as int, given.len() as int),
            decreases rest@.len(),
        {
            let t = rest.remove(0);
            ts.push(tool_to_wire(t));
        }
        fs.push(("tools".to_owned(), Json::Arr(ts)));
    }
    match model.max_tokens {
        Some(n) => {
            fs.push(("max_tokens".to_owned(), Json::Int(n as i64)));
        },
        None => {},
    }
    let r = Json::Obj(fs);
    let ghost keys = seq!["model"@, "messages"@] + (if tools@.len() > 0 {
        seq!["tools"@]
    } else {
        Seq::empty()
    }) + (if model.max_tokens is Some {
        seq!["max_tokens"@]
    } else {
        Seq::empty()
    });
    assert forall|i: int| 0 <= i < keys.len() implies #[trigger] r->Obj_0@[i].0@ == keys[i] by {}
    r
}

// ---------------------------------------------------------------------------
// The response
// ---------------------------------------------------------------------------

/// The text of `v`, where it is a string.
pub open spec fn text_of(v: Option<Json>) -> Option<Seq<char>> {
    match v {
        Some(Json::Str(t)) => Some(t@),
        _ => None,
    }
}

/// The field `key` of `v`, where `v` is there and is an object.
pub open spec fn field_in(v: Option<Json>, key: Seq<char>) -> Option<Json> {
    match v {
        Some(j) => field(j, key),
        None => None,
    }
}

/// The tool request that one element of `tool_calls` stands for: it needs a
/// string `id`, and a `function` with a string `name` and string `arguments`.
pub open spec fn tool_call_of(c: Json) -> Option<ContentV> {
    let id = text_of(field(c, "id"@));
    let f = field(c, "function"@);
    let name = text_of(field_in(f, "name"@));
    let arguments = text_of(field_in(f, "arguments"@));
    if id is Some && name is Some && arguments is Some {
        Some(
            ContentV::ToolRequest {
                id: id->Some_0,
                name: name->Some_0,
                arguments: arguments->Some_0,
            },
        )
    } else {
        None
    }
}

/// The tool requests of `items`, in order; none if one of them is malformed.
pub open spec fn tool_calls_of(items: Seq<Json>) -> Option<Seq<ContentV>>
    decreases items.len(),
{
    if items.len() == 0 {
        Some(Seq::empty())
    } else {
        match (tool_calls_of(items.drop_last()), tool_call_of(items.last())) {
            (Some(cs), Some(c)) => Some(cs.push(c)),
            _ => None,
        }
    }
}

/// `choices[0].message` of a response.
pub open spec fn reply_of(response: Json) -> Option<Json> {
    match field(response, "choices"@) {
        Some(choices) => match element(choices, 0) {
            Some(first) => field(first, "message"@),
            None => None,
        },
        None => None,
    }
}

/// The blocks of the assistant's reply: its text, where `content` is a
/// string, then one tool request per element of `tool_calls`, where that is an
/// array. None where the response has no reply or a tool call is malformed.
pub open spec fn reply_blocks(response: Json) -> Option<Seq<ContentV>> {
    match reply_of(response) {
        Some(m) => {
            let texts = match text_of(field(m, "content"@)) {
                Some(t) => seq![ContentV::Text(t)],
                None => Seq::empty(),
            };
            let calls = match field(m, "tool_calls"@) {
                Some(Json::Arr(items)) => tool_calls_of(items@),
                _ => Some(Seq::empty()),
            };
            match calls {
                Some(cs) => Some(texts + cs),
                None => None,
            }
        },
        None => None,
    }
}

/// A token count: an integer that fits an `i32`.
pub open spec fn count_of(v: Option<Json>) -> Option<i32> {
    match v {
        Some(Json::Int(n)) => if i32::MIN <= n <= i32::MAX {
            Some(n as i32)
        } else {
            None
        },
        _ => None,
    }
}

/// The sum of two counts, where both are there and the sum fits an `i32`.
pub open spec fn sum_of(a: Option<i32>, b: Option<i32>) -> Option<i32> {
    match (a, b) {
        (Some(x), Some(y)) => if i32::MIN <= x + y <= i32::MAX {
            Some((x + y) as i32)
        } else {
            None
        },
        _ => None,
    }
}

/// The usage a response reports under `usage`, where that is an object:
/// `prompt_tokens`, `completion_tokens`, and `total_tokens` or else their sum.
pub open spec fn usage_of(response: Json) -> Option<Usage> {
    match field(response, "usage"@) {
        Some(u) => if u is Obj {
            let input = count_of(field(u, "prompt_tokens"@));
            let output = count_of(field(u, "completion_tokens"@));
            let total = match count_of(field(u, "total_tokens"@)) {
                Some(t) => Some(t),
                None => sum_of(input, output),
            };
            Some(Usage { input_tokens: input, output_tokens: output, total_tokens: total })
        } else {
            None
        },
        None => None,
    }
}

pub open spec fn empty_usage() -> Usage {
    Usage { input_tokens: None, output_tokens: None, total_tokens: None }
}

/// The usage of a response, or no counts at all where it reports none.
pub open spec fn usage_or_empty(response: Json) -> Usage {
    match usage_of(response) {
        Some(u) => u,
        None => empty_usage(),
    }
}

/// The model a response names, or `unknown`.
pub open spec fn model_of(response: Json) -> Seq<char> {
    match text_of(field(response, "model"@)) {
        Some(m) => m,
        None => "unknown"@,
    }
}

/// What a completion decodes to: the reply, its usage and the model; none
/// where the reply cannot be read.
pub open spec fn completion_of(response: Json) -> Option<(Seq<ContentV>, Usage, Seq<char>)> {
    match reply_blocks(response) {
        Some(blocks) => Some((blocks, usage_or_empty(response), model_of(response))),
        None => None,
    }
}

/// A success status: 200 to 299.
pub open spec fn is_success(status: u16) -> bool {
    200 <= status < 300
}

/// Checks the outcome of the HTTP exchange: a success status with a body that
/// is JSON gives that body; anything else fails with `RequestFailed`.
/// `reason` is the status's text, and `body` is `None` where the body is not
/// JSON.
pub fn handle_response(status: u16, reason: &str, body: Option<Json>) -> (r: Result<
    Json,
    ProviderError,
>)
    ensures
        r is Ok <==> is_success(status) && body is Some,
        r is Ok ==> r->Ok_0 == body->Some_0,
        r is Err ==> r->Err_0 is RequestFailed,
{
    if !(200 <= status && status < 300) {
        return Err(ProviderError::RequestFailed(concat("Request failed with status ", reason)));
    }
    match body {
        Some(b) => Ok(b),
        None => Err(ProviderError::RequestFailed("Response body is not valid JSON".to_owned())),
    }
}

proof fn lemma_malformed_prefix(items: Seq<Json>, j: int)
    requires
        0 <= j <= items.len(),
        tool_calls_of(items.take(j)) is None,
    ensures
        tool_calls_of(items) is None,
    decreases items.len() - j,
{
    if j == items.len() {
        assert(items.take(j) =~= items);
    } else {
        assert(items.take(j + 1).drop_last() =~= items.take(j));
        lemma_malformed_prefix(items, j + 1);
    }
}

fn tool_call_from(c: &Json) -> (r: Option<MessageContent>)
    ensures
        r is Some <==> tool_call_of(*c) is Some,
        r is Some ==> r->Some_0@ == tool_call_of(*c)->Some_0,
{
    let id = match c.get("id") {
        Some(v) => v.as_str(),
        None => None,
    };
    let f = c.get("function");
    let name = match f {
        Some(fv) => match fv.get("name") {
            Some(v) => v.as_str(),
            None => None,
        },
        None => None,
    };
    let arguments = match f {
        Some(fv) => match fv.get("arguments") {
            Some(v) => v.as_str(),
            None => None,
        },
        None => None,
    };
    match (id, name, arguments) {
        (Some(i), Some(n), Some(a)) => Some(
            MessageContent::ToolRequest { id: i.clone(), name: n.clone(), arguments: a.clone() },
        ),
        _ => None,
    }
}

/// Decodes the assistant's reply in an OpenAI-compatible response.
pub fn response_to_message(response: &Json) -> (r: Result<Message, ProviderError>)
    ensures
        r is Ok <==> reply_blocks(*response) is Some,
        r is Ok ==> r->Ok_0@ == (Role::Assistant, reply_blocks(*response)->Some_0),
        r is Err ==> r->Err_0 is RequestFailed,
{
    let reply = match response.get("choices") {
        Some(choices) => match choices.at(0) {
            Some(first) => first.get("message"),
            None => None,
        },
        None => None,
    };
    let m = match reply {
        Some(m) => m,
        None => {
            return Err(ProviderError::RequestFailed("No message in response".to_owned()));
        },
    };
    let mut message = Message::assistant();
    match m.get("content") {
        Some(c) => match c.as_str() {
            Some(t) => {
                message = message.with_content(MessageContent::Text(t.clone()));
            },
            None => {},
        },
        None => {},
    }
    let ghost texts = message@.1;
    match m.get("tool_calls") {
        Some(Json::Arr(items)) => {
            let mut i: usize = 0;
            assert(items@.take(0) =~= Seq::<Json>::empty());
            while i < items.len()
                invariant
                    reply_of(*response) == Some(*m),
                    field(*m, "tool_calls"@) == Some(Json::Arr(*items)),
                    i <= items@.len(),
                    tool_calls_of(items@.take(i as int)) is Some,
                    message@ == (Role::Assistant, texts + tool_calls_of(
                        items@.take(i as int),
                    )->Some_0),
                decreases items@.len() - i,
            {
                let ghost done = items@.take(i as int);
                assert(items@.take(i + 1).drop_last() =~= done);
                match tool_call_from(&items[i]) {
                    Some(call) => {
                        message = message.with_content(call);
                        assert(texts + tool_calls_of(done)->Some_0.push(call@) =~= (texts
                            + tool_calls_of(done)->Some_0).push(call@));
                    },
                    None => {
                        proof {
                            assert(items@.take(i + 1).last() == items@[i as int]);
                            assert(tool_calls_of(items@.take(i + 1)) is None);
                            lemma_malformed_prefix(items@, i + 1);
                        }
                        return Err(
                            ProviderError::RequestFailed("Malformed tool call in response".to_owned()),
                        );
                    },
                }
                i = i + 1;
            }
            assert(items@.take(i as int) =~= items@);
        },
        _ => {
            assert(texts + Seq::<ContentV>::empty() =~= texts);
        },
    }
    Ok(message)
}

fn count_from(v: Option<&Json>) -> (r: Option<i32>)
    ensures
        r == count_of(
            match v {
                Some(j) => Some(*j),
                None => None,
            },
        ),
{
    match v {
        Some(j) => match j.as_i64() {
            Some(n) => if -2147483648 <= n && n <= 2147483647 {
                Some(n as i32)
            } else {
                None
            },
            None => None,
        },
        None => None,
    }
}

/// The usage that a response reports; `UsageError` where it has none.
pub fn get_usage(response: &Json) -> (r: Result<Usage, ProviderError>)
    ensures
        r is Ok <==> usage_of(*response) is Some,
        r is Ok ==> r->Ok_0 == usage_of(*response)->Some_0,
        r is Err ==> r->Err_0 is UsageError,
{
    let u = match response.get("usage") {
        Some(u) => u,
        None => {
            return Err(ProviderError::UsageError("No usage data in response".to_owned()));
        },
    };
    match u {
        Json::Obj(_) => {},
        _ => {
            return Err(ProviderError::UsageError("Usage data is not an object".to_owned()));
        },
    }
    let input = count_from(u.get("prompt_tokens"));
    let output = count_from(u.get("completion_tokens"));
    let total = match count_from(u.get("total_tokens")) {
        Some(t) => Some(t),
        None => match (input, output) {
            (Some(x), Some(y)) => x.checked_add(y),
            _ => None,
        },
    };
    Ok(Usage { input_tokens: input, output_tokens: output, total_tokens: total })
}

/// The model that a response names, or `unknown`.
pub fn get_model(response: &Json) -> (r: String)
    ensures
        r@ == model_of(*response),
{
    match response.get("model") {
        Some(m) => match m.as_str() {
            Some(t) => t.clone(),
            None => "unknown".to_owned(),
        },
        None => "unknown".to_owned(),
    }
}

/// Decodes a completion: the reply, then the usage, where a response without
/// usage data counts as no usage rather than as a failure, then the model.
pub fn decode_completion(response: &Json) -> (r: Result<(Message, ProviderUsage), ProviderError>)
    ensures
        r is Ok <==> completion_of(*response) is Some,
        r is Ok ==> ({
            let (m, u) = r->Ok_0;
            let c = completion_of(*response)->Some_0;
            &&& m@ == (Role::Assistant, c.0)
            &&& u.usage == c.1
            &&& u.model@ == c.2
        }),
        r is Err ==> r->Err_0 is RequestFailed,
{
    let message = match response_to_message(response) {
        Ok(m) => m,
        Err(e) => {
            return Err(e);
        },
    };
    let usage = match get_usage(response) {
        Ok(u) => u,
        Err(ProviderError::UsageError(_)) => Usage::default(),
        Err(e) => {
            return Err(e);
        },
    };
    let model = get_model(response);
    Ok((message, ProviderUsage { model, usage }))
}

/// The outcome of a completion, from what the HTTP exchange gave: the status,
/// its text, and the body where it is JSON.
pub fn complete_from_response(status: u16, reason: &str, body: Option<Json>) -> (r: Result<
    (Message, ProviderUsage),
    ProviderError,
>)
    ensures
        r is Ok <==> is_success(status) && body is Some && completion_of(body->Some_0) is Some,
        r is Ok ==> ({
            let (m, u) = r->Ok_0;
            let c = completion_of(body->Some_0)->Some_0;
            &&& m@ == (Role::Assistant, c.0)
            &&& u.usage == c.1
            &&& u.model@ == c.2
        }),
        r is Err ==> r->Err_0 is RequestFailed,
{
    let response = match handle_response(status, reason, body) {
        Ok(b) => b,
        Err(e) => {
            return Err(e);
        },
    };
    decode_completion(&response)
}

/// A response that carries a readable reply and no usage data decodes
/// successfully, with no token counts.
pub proof fn lemma_missing_usage_is_empty(status: u16, body: Json)
    requires
        is_success(status),
        reply_blocks(body) is Some,
        field(body, "usage"@) is None,
    ensures
        is_success(status) && completion_of(body) is Some,
        completion_of(body)->Some_0.1 == empty_usage(),
{
}

/// A failing status fails the call, whatever the body.
pub proof fn lemma_failed_status_fails(status: u16, body: Option<Json>)
    requires
        !is_success(status),
    ensures
        !(is_success(status) && body is Some && completion_of(body->Some_0) is Some),
{
}

/// Decoding depends on the response alone: the same response decodes to the
/// same reply, usage and model every time.
pub proof fn lemma_decoding_is_deterministic(a: Json, b: Json)
    requires
        a == b,
    ensures
        completion_of(a) == completion_of(b),
{
}

} // verus!
