//! The listener's interactive commands.
use crate::text::{has_prefix, same_chars};
use vstd::prelude::*;

verus! {

/// A line typed at the listener's prompt.
#[derive(Debug, Clone, PartialEq, Eq)]
pub enum Command {
    /// Show the station's metadata.
    Info,
    /// Send the text to the station's chat.
    Chat(String),
    /// Leave.
    Quit,
    /// An empty line: nothing to do.
    Empty,
    /// Anything else, as typed.
    Unknown(String),
}

/// What `str::trim` returns: the string without leading and trailing white space.
pub uninterp spec fn trim_of(s: Seq<char>) -> Seq<char>;

/// Relies on `str::trim`: the slice of `s` without leading and trailing white
/// space, a function of the characters of `s` alone.
#[verifier::external_body]
fn trimmed(s: &str) -> (r: &str)
    ensures
        r@ == trim_of(s@),
{
    s.trim()
}

pub open spec fn chat_prefix() -> Seq<char> {
    seq!['c', 'h', 'a', 't', ' ']
}

/// The command that the trimmed line `cmd` stands for.
pub open spec fn denotes(cmd: Seq<char>, r: Command) -> bool {
    if cmd.len() >= 5 && cmd.subrange(0, 5) == chat_prefix() {
        r matches Command::Chat(text) && text@ == cmd.subrange(5, cmd.len() as int)
    } else if cmd == seq!['i', 'n', 'f', 'o'] {
        r is Info
    } else if cmd == seq!['q', 'u', 'i', 't'] || cmd == seq!['e', 'x', 'i', 't'] {
        r is Quit
    } else if cmd.len() == 0 {
        r is Empty
    } else {
        r matches Command::Unknown(text) && text@ == cmd
    }
}

/// Classifies a line from which white space has already been trimmed:
/// `chat <text>` sends the text after the prefix, `info` shows the station,
/// `quit` and `exit` leave, and an empty line does nothing.
pub fn classify_command(cmd: &str) -> (r: Command)
    ensures
        denotes(cmd@, r),
{
    proof {
        reveal_strlit("chat ");
        reveal_strlit("info");
        reveal_strlit("quit");
        reveal_strlit("exit");
        reveal_strlit("");
    }
    if has_prefix(cmd, "chat ") {
        assert("chat "@ =~= chat_prefix());
        let text = cmd.substring_char(5, cmd.unicode_len());
        Command::Chat(text.to_owned())
    } else if same_chars(cmd, "info") {
        assert("info"@ =~= seq!['i', 'n', 'f', 'o']);
        Command::Info
    } else if same_chars(cmd, "quit") || same_chars(cmd, "exit") {
        assert("quit"@ =~= seq!['q', 'u', 'i', 't']);
        assert("exit"@ =~= seq!['e', 'x', 'i', 't']);
        Command::Quit
    } else if cmd.unicode_len() == 0 {
        Command::Empty
    } else {
        proof {
            assert("chat "@ =~= chat_prefix());
            assert("info"@ =~= seq!['i', 'n', 'f', 'o']);
            assert("quit"@ =~= seq!['q', 'u', 'i', 't']);
            assert("exit"@ =~= seq!['e', 'x', 'i', 't']);
        }
        Command::Unknown(cmd.to_owned())
    }
}

/// Parses a line typed at the prompt: the line is trimmed of white space,
/// then classified.
pub fn parse_command(line: &str) -> (r: Command)
    ensures
        denotes(trim_of(line@), r),
{
    classify_command(trimmed(line))
}

} // verus!
