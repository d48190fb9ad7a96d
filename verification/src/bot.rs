//! Commands of the chat-bot front end.

use vstd::prelude::*;

use crate::strutil::find_first;

verus! {

/// A command recognized by the front end.
#[derive(Debug)]
pub enum BotCommands {
    Start,
    Help,
    UnkownCommand(String),
}

/// `t` is the text of `s` up to (not including) the first space, or all of
/// `s` when there is no space.
pub open spec fn is_first_token(s: Seq<char>, t: Seq<char>) -> bool {
    if exists|i: int| 0 <= i < s.len() && s[i] == ' ' {
        exists|i: int|
            0 <= i < s.len() && s[i] == ' ' && (forall|j: int| 0 <= j < i ==> s[j] != ' ')
                && t == s.subrange(0, i)
    } else {
        t == s
    }
}

/// Reads the leading command token of a message.
pub fn format_command(text: &str) -> (r: BotCommands)
    ensures
        match r {
            BotCommands::Start => is_first_token(text@, "/start"@),
            BotCommands::Help => is_first_token(text@, "/help"@),
            BotCommands::UnkownCommand(u) => is_first_token(text@, u@) && u@ != "/start"@
                && u@ != "/help"@,
        },
{
    let command: String = match find_first(text, ' ') {
        Some(i) => text.substring_char(0, i).to_owned(),
        None => text.to_owned(),
    };
    if crate::strutil::str_eq(command.as_str(), "/start") {
        BotCommands::Start
    } else if crate::strutil::str_eq(command.as_str(), "/help") {
        BotCommands::Help
    } else {
        BotCommands::UnkownCommand(command)
    }
}

} // verus!
