//! Message parsing: turns a raw protocol line into a structured message, or
//! nothing when no recognized message kind occurs in the line.

use vstd::prelude::*;

use crate::text::{
    contains_seq, contains_str, find_char_at, find_char_from, find_from, find_str, str_eq,
    strip_one_leading, strip_one_leading_char, trim, trim_spec,
};
use vstd::string::StrSliceExecFns;

verus! {

/// A structured chat message, constructed fresh per inbound line.
pub struct ParsedMessage {
    pub sender: String,
    pub channel: String,
    pub command: String,
    pub body: String,
}

/// Mathematical model of a parsed message.
pub ghost struct ParsedModel {
    pub sender: Seq<char>,
    pub channel: Seq<char>,
    pub command: Seq<char>,
    pub body: Seq<char>,
}

impl View for ParsedMessage {
    type V = ParsedModel;

    open spec fn view(&self) -> ParsedModel {
        ParsedModel {
            sender: self.sender@,
            channel: self.channel@,
            command: self.command@,
            body: self.body@,
        }
    }
}

/// Splits `t` at its first two spaces into marker, channel, and remainder;
/// `None` when `t` holds fewer than two spaces.
pub open spec fn split3(t: Seq<char>) -> Option<(Seq<char>, Seq<char>, Seq<char>)> {
    match find_char_from(t, ' ', 0) {
        Some(i1) => match find_char_from(t, ' ', i1 + 1) {
            Some(i2) => Some(
                (t.subrange(0, i1), t.subrange(i1 + 1, i2), t.subrange(i2 + 1, t.len() as int)),
            ),
            None => None,
        },
        None => None,
    }
}

/// The fallback triple for lines that cannot be split into three fields.
pub open spec fn sentinel_model(sender: Seq<char>) -> ParsedModel {
    ParsedModel { sender, channel: "unknown"@, command: "unknown"@, body: Seq::empty() }
}

/// The message that parsing a recognized line yields: the line from the first
/// marker occurrence on is split into three fields, and one leading colon is
/// stripped from the body; malformed lines degrade to the sentinel triple.
pub open spec fn parse_model(command: Seq<char>, sender: Seq<char>, raw: Seq<char>) -> ParsedModel {
    if command == "PRIVMSG"@ && find_from(raw, "PRIVMSG"@, 0) is Some {
        let i = find_from(raw, "PRIVMSG"@, 0).unwrap();
        let t = raw.subrange(i, raw.len() as int);
        match split3(t) {
            Some(p) => ParsedModel {
                sender,
                channel: p.1,
                command: p.0,
                body: strip_one_leading(p.2, ':'),
            },
            None => sentinel_model(sender),
        }
    } else {
        sentinel_model(sender)
    }
}

/// The sentinel triple as an executable message.
fn sentinel_message(sender: &str) -> (r: ParsedMessage)
    ensures
        r@ == sentinel_model(sender@),
{
    ParsedMessage {
        sender: sender.to_owned(),
        channel: "unknown".to_owned(),
        command: "unknown".to_owned(),
        body: String::new(),
    }
}

/// Parses one recognized line into a structured message.
pub fn parse_irc_command(command: &str, sender: &str, raw: &str) -> (r: ParsedMessage)
    requires
        command@ == "PRIVMSG"@ ==> contains_seq(raw@, "PRIVMSG"@),
    ensures
        r@ == parse_model(command@, sender@, raw@),
{
    if str_eq(command, "PRIVMSG") {
        let idx = find_str(raw, "PRIVMSG").unwrap();
        proof {
            crate::text::lemma_find_from_bounds(raw@, "PRIVMSG"@, 0);
        }
        let n = raw.unicode_len();
        let t = raw.substring_char(idx, n);
        match find_char_at(t, ' ', 0) {
            Some(i1) => {
                assert(i1 < t@.len() && t@.len() <= n);
                match find_char_at(t, ' ', i1 + 1) {
                    Some(i2) => {
                        let cmd = t.substring_char(0, i1);
                        let channel = t.substring_char(i1 + 1, i2);
                        let tn = t.unicode_len();
                        let msg = t.substring_char(i2 + 1, tn);
                        let body = strip_one_leading_char(msg, ':');
                        ParsedMessage {
                            sender: sender.to_owned(),
                            channel: channel.to_owned(),
                            command: cmd.to_owned(),
                            body: body.to_owned(),
                        }
                    },
                    None => sentinel_message(sender),
                }
            },
            None => sentinel_message(sender),
        }
    } else {
        sentinel_message(sender)
    }
}

/// Whether a raw line carries a recognized message kind after trimming.
pub open spec fn recognized(raw: Seq<char>) -> bool {
    contains_seq(trim_spec(raw), "PRIVMSG"@)
}

/// The sender identity used when the source of a line is unknown.
pub open spec fn sender_model(sender: Option<&str>) -> Seq<char> {
    match sender {
        Some(s) => s@,
        None => "unknown"@,
    }
}

/// Recognizes and parses a raw line; lines matching no recognized kind yield
/// `None` and are otherwise ignored.
pub fn get_parsed_message(sender: Option<&str>, input: &str) -> (r: Option<ParsedMessage>)
    ensures
        r is Some <==> recognized(input@),
        r matches Some(m) ==> m@ == parse_model(
            "PRIVMSG"@,
            sender_model(sender),
            trim_spec(input@),
        ),
{
    let t = trim(input);
    if contains_str(t, "PRIVMSG") {
        let s = match sender {
            Some(s) => s,
            None => "unknown",
        };
        Some(parse_irc_command("PRIVMSG", s, t))
    } else {
        None
    }
}

} // verus!
