//! An adapter that turns a generic chat-completion request into an
//! OpenAI-compatible call to SambaNova's inference API, and decodes the reply.
//!
//! - `provider`: configuration, metadata, and the endpoint and headers of a
//!   request;
//! - `headers`: the lenient reading of custom headers from one text;
//! - `openai`: the request payload and the decoding of the response;
//! - `message`, `json`: the data both sides work on.
//!
//! The HTTP exchange itself is left to the caller, which hands the status and
//! body to `openai::complete_from_response`.
pub mod headers;
pub mod json;
pub mod message;
pub mod openai;
pub mod provider;
