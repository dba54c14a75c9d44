//! Verified core of an executor for the Anthropic Messages API.
//!
//! A chat request ([`chat`]) becomes a request that is ready to be sent ([`executor`]), a whole
//! response becomes a chat completion ([`response`]), and a stream of events is cut into lines,
//! payloads and canonical events ([`sse`]). What holds of all of it together is in [`laws`], and
//! what holds of whole streams in [`stream_laws`]. What the operations do, said of members,
//! characters and bytes themselves, is in [`plain_laws`] and [`answer_laws`], and of the functions'
//! results in [`call_laws`].
pub mod answer_laws;
pub mod call_laws;
pub mod chat;
pub mod error;
pub mod executor;
pub mod gateway;
pub mod headers;
pub mod ids;
pub mod json;
pub mod laws;
pub mod plain_laws;
pub mod program;
pub mod response;
pub mod sse;
pub mod stream_laws;
pub mod temperature;
pub mod text;
pub mod usage;
pub mod value;
