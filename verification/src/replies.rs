//! What the bot reads in a message and the texts it answers with.

use vstd::prelude::*;
use vstd::string::*;
use vstd::utf8::{decode_utf8, encode_utf8, encode_utf8_decode_utf8, encode_utf8_valid_utf8, is_char_boundary};
use crate::text::{starts_with, occurs_in, decimal, uppercase_of, lowercase_of, to_upper, to_lower, has_prefix, has_infix, decimal_string};

verus! {

/// Every command starts with this.
pub const PREFIX: &'static str = "!skynet";

/// How a user is pinged in a message.
pub open spec fn mention(id: u64) -> Seq<char> {
    "<@!"@ + decimal(id as nat) + ">"@
}

/// The answer to a command that only trusted users may give.
pub open spec fn no_power_text(id: u64) -> Seq<char> {
    "You have no power here "@ + mention(id) + " ( ︶︿︶)_╭∩╮"@
}

/// The announcement of the user picked by the roulette.
pub open spec fn lucky_text(id: u64) -> Seq<char> {
    "Günün şanslısı sen seçildin "@ + mention(id) + " ⊂(◉‿◉)つ"@
}

/// The report of an edited message: the old text, twice.
pub open spec fn edited_text(id: u64, old_content: Seq<char>) -> Seq<char> {
    mention(id) + " editleyip dedi ki:\n"@ + old_content + "\n"@ + old_content
}

/// The report of a deleted message.
pub open spec fn deleted_text(id: u64, content: Seq<char>) -> Seq<char> {
    mention(id) + " dedi ki:\n"@ + content
}

/// The answer to a command the bot does not know.
pub open spec fn unknown_text(content: Seq<char>) -> Seq<char> {
    "Unknown command "@ + content + ", type !skynet help to see help"@
}

/// The answer to `help`.
pub open spec fn help_text() -> Seq<char> {
    "You can use stalk command"@
}

/// The private warning sent to a user who deletes messages too often.
pub open spec fn warning_text() -> Seq<char> {
    "Silme Hayvan!"@
}

/// The nickname given to the user picked by the roulette.
pub open spec fn nickname_text() -> Seq<char> {
    "EZIK"@
}

/// The answer, if any, to a message `content` that is not a command, given
/// its upper-case form `upper` and its lower-case form `lower`.
pub open spec fn reply_for(content: Seq<char>, upper: Seq<char>, lower: Seq<char>, from_bot: bool) -> Option<Seq<char>> {
    if starts_with(upper, "YAPAY ZEKA DEVREYE"@) {
        Some("tamam abi"@)
    } else if starts_with(content, "09"@) {
        Some("HADİ SİK ONU GÖTÜNDEN"@)
    } else if (occurs_in(lower, "ironi"@) || occurs_in(upper, "IRONI"@)) && !from_bot {
        Some("Evet ironik bir malsın"@)
    } else {
        None
    }
}

/// The answer, if any, to a message that is not a command.
pub open spec fn chat_reply(content: Seq<char>, from_bot: bool) -> Option<Seq<char>> {
    reply_for(content, uppercase_of(content), lowercase_of(content), from_bot)
}

/// The commands the bot knows, told apart by the start of the message.
#[derive(PartialEq, Eq, Structural, Debug, Clone, Copy)]
pub enum Command {
    Stalk,
    CleanMe,
    Say,
    Roulette,
    Meme,
    Help,
    Unknown,
}

/// The command a message starting with the prefix gives; the first matching
/// command word wins.
pub open spec fn command_of(content: Seq<char>) -> Command {
    if starts_with(content, "!skynet stalk"@) {
        Command::Stalk
    } else if starts_with(content, "!skynet cleanmebeybi"@) {
        Command::CleanMe
    } else if starts_with(content, "!skynet say"@) {
        Command::Say
    } else if starts_with(content, "!skynet rulet"@) {
        Command::Roulette
    } else if starts_with(content, "!skynet meme"@) {
        Command::Meme
    } else if starts_with(content, "!skynet help"@) {
        Command::Help
    } else {
        Command::Unknown
    }
}

/// The text after the first `n` bytes of the UTF-8 encoding of a message, as
/// `String::split_off(n)` leaves it.  When byte `n` does not lie between two
/// characters (or past the end) the split panics and there is no text.
pub open spec fn cut_after(content: Seq<char>, n: nat) -> Option<Seq<char>> {
    let bytes = encode_utf8(content);
    if is_char_boundary(bytes, n as int) {
        Some(decode_utf8(bytes.subrange(n as int, bytes.len() as int)))
    } else {
        None
    }
}

/// A text made of `a` followed by `b`.
fn joined(a: &str, b: &str) -> (r: String)
    ensures
        r@ == a@ + b@,
{
    let mut r = String::from_str(a);
    r.append(b);
    r
}

/// How a user is pinged in a message.
pub fn mention_string(id: u64) -> (r: String)
    ensures
        r@ == mention(id),
{
    let digits = decimal_string(id);
    let mut r = String::from_str("<@!");
    r.append(digits.as_str());
    r.append(">");
    r
}

/// The answer to a command that only trusted users may give.
pub fn no_power_string(id: u64) -> (r: String)
    ensures
        r@ == no_power_text(id),
{
    let m = mention_string(id);
    let mut r = String::from_str("You have no power here ");
    r.append(m.as_str());
    r.append(" ( ︶︿︶)_╭∩╮");
    r
}

/// The announcement of the user picked by the roulette.
pub fn lucky_string(id: u64) -> (r: String)
    ensures
        r@ == lucky_text(id),
{
    let m = mention_string(id);
    let mut r = String::from_str("Günün şanslısı sen seçildin ");
    r.append(m.as_str());
    r.append(" ⊂(◉‿◉)つ");
    r
}

/// The report of an edited message.
pub fn edited_string(id: u64, old_content: &str) -> (r: String)
    ensures
        r@ == edited_text(id, old_content@),
{
    let mut r = mention_string(id);
    r.append(" editleyip dedi ki:\n");
    r.append(old_content);
    r.append("\n");
    r.append(old_content);
    r
}

/// The report of a deleted message.
pub fn deleted_string(id: u64, content: &str) -> (r: String)
    ensures
        r@ == deleted_text(id, content@),
{
    let mut r = mention_string(id);
    r.append(" dedi ki:\n");
    r.append(content);
    r
}

/// The answer to a command the bot does not know.
pub fn unknown_string(content: &str) -> (r: String)
    ensures
        r@ == unknown_text(content@),
{
    let mut r = joined("Unknown command ", content);
    r.append(", type !skynet help to see help");
    r
}

/// The answer, if any, to a message `content` that is not a command, given
/// its upper-case form `upper` and its lower-case form `lower`: an order to
/// the bot gets an answer, so does a text starting with "09", and a mention of
/// irony by a person (not a bot) gets a remark.
pub fn reply_to_chat(content: &str, upper: &str, lower: &str, from_bot: bool) -> (r: Option<String>)
    ensures
        match r {
            Some(t) => reply_for(content@, upper@, lower@, from_bot) == Some(t@),
            None => reply_for(content@, upper@, lower@, from_bot) is None,
        },
{
    if has_prefix(upper, "YAPAY ZEKA DEVREYE") {
        return Some(String::from_str("tamam abi"));
    }
    if has_prefix(content, "09") {
        return Some(String::from_str("HADİ SİK ONU GÖTÜNDEN"));
    }
    let ironic = has_infix(lower, "ironi") || has_infix(upper, "IRONI");
    if ironic && !from_bot {
        return Some(String::from_str("Evet ironik bir malsın"));
    }
    None
}

/// The answer, if any, to a message that is not a command.
pub fn chat_reply_string(content: &str, from_bot: bool) -> (r: Option<String>)
    ensures
        match r {
            Some(t) => chat_reply(content@, from_bot) == Some(t@),
            None => chat_reply(content@, from_bot) is None,
        },
{
    let upper = to_upper(content);
    let lower = to_lower(content);
    reply_to_chat(content, upper.as_str(), lower.as_str(), from_bot)
}

/// The command a message starting with the prefix gives.
pub fn parse_command(content: &str) -> (r: Command)
    ensures
        r == command_of(content@),
{
    if has_prefix(content, "!skynet stalk") {
        Command::Stalk
    } else if has_prefix(content, "!skynet cleanmebeybi") {
        Command::CleanMe
    } else if has_prefix(content, "!skynet say") {
        Command::Say
    } else if has_prefix(content, "!skynet rulet") {
        Command::Roulette
    } else if has_prefix(content, "!skynet meme") {
        Command::Meme
    } else if has_prefix(content, "!skynet help") {
        Command::Help
    } else {
        Command::Unknown
    }
}

/// The text after the first `n` bytes of the UTF-8 encoding of a message,
/// if byte `n` lies between two characters.
pub fn text_after(content: &str, n: usize) -> (r: Option<String>)
    ensures
        match r {
            Some(t) => cut_after(content@, n as nat) == Some(t@),
            None => cut_after(content@, n as nat) is None,
        },
{
    proof {
        encode_utf8_valid_utf8(content@);
    }
    if !content.is_char_boundary(n) {
        return None;
    }
    let (_, rest) = content.split_at(n);
    proof {
        encode_utf8_decode_utf8(rest@);
    }
    Some(String::from_str(rest))
}

} // verus!
