use vstd::prelude::*;

use crate::msg::{ChatFmtMsg, GMsg};

verus! {

/// The completion endpoint.
pub open spec fn spec_api_url() -> Seq<char> {
    "https://api.openai.com/v1/chat/completions"@
}

/// The completion endpoint.
pub fn api_url() -> (s: &'static str)
    ensures
        s@ == spec_api_url(),
{
    "https://api.openai.com/v1/chat/completions"
}

/// The model asked for by default.
pub open spec fn spec_default_model() -> Seq<char> {
    "gpt-3.5-turbo"@
}

/// The model asked for by default.
pub fn default_model() -> (s: &'static str)
    ensures
        s@ == spec_default_model(),
{
    "gpt-3.5-turbo"
}

/// The assistant's operating instructions: answer with a fenced command
/// block first, an explanation after.
pub open spec fn spec_system_prompt() -> Seq<char> {
    "Assume you are a Linux/Unix-like systems expert. You are a helpful assistant that writes Linux commands to help the user accomplish their tasks The response must contain a command inside a code-block that can be executed first and foremost, followed by an explanation of the command detailing what each parameter or flag or chaining does.Be concise in your response."@
}

/// One worked example: the user's side.
pub open spec fn spec_example_user() -> Seq<char> {
    "pretty print commits in this repository with author name"@
}

/// One worked example: the assistant's side, anchoring the output format.
pub open spec fn spec_example_response() -> Seq<char> {
    "You can pretty print git commits with author name by using the following command:\n \n ```bash\n git log --pretty=format:\"%h %s (%an)\" --graph\n ```\n \n Explanation:\n - `git` is the content tracker that you asked to use.\n - `log` lists commits that are reachable by following the parent links from the given commit(s), but exclude commits that are reachable from the one(s) given with a ^ in front of them. The output is given in reverse chronological order by default.\n - `--pretty=format:\"%h %s (%an)\"` is the format of the output.\n - `%h` is the abbreviated hash of the commit.\n - `%s` is the commit message.\n - `%an` is the author name.\n - `--graph` draws a text-based graphical representation of the commit history on the left hand side of the output. This may cause extra lines to be printed in between commits, in order for the graph history to be drawn properly.\n "@
}

/// The fixed message list sent for one task: the system instructions, one
/// worked user/assistant exchange, and a final user message equal to the
/// task description.
pub fn request_message(command_description: &str) -> (msgs: Vec<ChatFmtMsg>)
    ensures
        msgs@.len() == 4,
        msgs@[0]@ == (GMsg::Both { role: "system"@, content: spec_system_prompt() }),
        msgs@[1]@ == (GMsg::Both { role: "user"@, content: spec_example_user() }),
        msgs@[2]@ == (GMsg::Both { role: "assistant"@, content: spec_example_response() }),
        msgs@[3]@ == (GMsg::Both { role: "user"@, content: command_description@ }),
{
    let mut msgs: Vec<ChatFmtMsg> = Vec::new();
    msgs.push(
        ChatFmtMsg::system(
            "Assume you are a Linux/Unix-like systems expert. You are a helpful assistant that writes Linux commands to help the user accomplish their tasks The response must contain a command inside a code-block that can be executed first and foremost, followed by an explanation of the command detailing what each parameter or flag or chaining does.Be concise in your response.",
        ),
    );
    msgs.push(ChatFmtMsg::user("pretty print commits in this repository with author name"));
    msgs.push(
        ChatFmtMsg::assistant(
            "You can pretty print git commits with author name by using the following command:\n \n ```bash\n git log --pretty=format:\"%h %s (%an)\" --graph\n ```\n \n Explanation:\n - `git` is the content tracker that you asked to use.\n - `log` lists commits that are reachable by following the parent links from the given commit(s), but exclude commits that are reachable from the one(s) given with a ^ in front of them. The output is given in reverse chronological order by default.\n - `--pretty=format:\"%h %s (%an)\"` is the format of the output.\n - `%h` is the abbreviated hash of the commit.\n - `%s` is the commit message.\n - `%an` is the author name.\n - `--graph` draws a text-based graphical representation of the commit history on the left hand side of the output. This may cause extra lines to be printed in between commits, in order for the graph history to be drawn properly.\n ",
        ),
    );
    msgs.push(ChatFmtMsg::user(command_description));
    msgs
}

} // verus!
