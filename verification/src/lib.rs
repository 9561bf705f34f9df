//! Turns a task description into a shell command by asking a hosted
//! chat-completion endpoint, reducing its streamed (or whole) answer to the
//! assistant's text, and extracting the fenced command block from it.
//!
//! The heart of the library is the streaming pipeline: [`render`] frames the
//! request body, [`json`] and [`decode`] parse each event payload into a
//! delta, and [`reducer`] and [`stream`] reduce the delta sequence to the
//! ordered content fragments, discarding the role announcement and stopping
//! at the terminal marker while surfacing every transport and parse failure.
//! [`extract`] then finds the command inside the final answer. Everything
//! here is verified; the surrounding process — HTTP, the event source, the
//! terminal, the subprocess — stays outside and hands the library plain
//! values.

use vstd::prelude::*;

pub mod chars;
pub mod consumer;
pub mod decode;
pub mod errors;
pub mod extract;
pub mod json;
pub mod msg;
pub mod prompt;
pub mod reducer;
pub mod render;
pub mod stream;

verus! {

/// Runtime options: whether to stream the response, whether to echo the
/// assistant's explanation, and whether to ask before running the command.
pub struct Settings {
    pub stream: bool,
    pub explain: bool,
    pub ask_before_execution: bool,
}

impl Settings {
    pub fn new(stream: bool, explain: bool, ask_before_execution: bool) -> (r: Settings)
        ensures
            r.stream == stream,
            r.explain == explain,
            r.ask_before_execution == ask_before_execution,
    {
        Settings { stream, explain, ask_before_execution }
    }
}

impl Default for Settings {
    /// By default the response is streamed, explained, and confirmed.
    fn default() -> (r: Settings)
        ensures
            r.stream,
            r.explain,
            r.ask_before_execution,
    {
        Settings { stream: true, explain: true, ask_before_execution: true }
    }
}

} // verus!
