use vstd::prelude::*;

verus! {

/// The failure taxonomy of the whole pipeline.
///
/// - `Network`: the connection could not be established, or it dropped (or was
///   closed) before the terminal marker arrived.
/// - `Transport(status)`: the endpoint answered with a non-200 HTTP status.
/// - `Parse`: an event payload or a response body was not well-formed JSON.
/// - `Protocol`: well-formed JSON of an unexpected shape (for example zero
///   completion choices, or a delta carrying both role and content).
/// - `NoCommandFound`: the final answer text holds no fenced code block.
/// - `Execution(stderr)`: the extracted command exited with a non-zero status.
#[derive(Clone, Debug, PartialEq)]
pub enum OkError {
    Network,
    Transport(u16),
    Parse,
    Protocol,
    NoCommandFound,
    Execution(String),
}

impl OkError {
    /// A short fixed label for each failure kind, for display by callers.
    pub fn label(&self) -> (r: &'static str)
        ensures
            r@ == self.spec_label(),
    {
        match self {
            OkError::Network => "network error",
            OkError::Transport(_) => "unexpected response status",
            OkError::Parse => "malformed event payload",
            OkError::Protocol => "unexpected response shape",
            OkError::NoCommandFound => "no code block found",
            OkError::Execution(_) => "command failed",
        }
    }

    pub open spec fn spec_label(&self) -> Seq<char> {
        match self {
            OkError::Network => "network error"@,
            OkError::Transport(_) => "unexpected response status"@,
            OkError::Parse => "malformed event payload"@,
            OkError::Protocol => "unexpected response shape"@,
            OkError::NoCommandFound => "no code block found"@,
            OkError::Execution(_) => "command failed"@,
        }
    }
}

} // verus!
