//! Moderation pipeline: evaluates abuse rules against a message and emits at
//! most one sanction action. Applies only to senders not yet known; the link
//! rule is evaluated first and short-circuits the zalgo rule.

use vstd::prelude::*;

use crate::parser::ParsedMessage;
use crate::role::Role;
use vstd::string::StrSliceExecFns;
use vstd::string::StringExecFns;

verus! {

/// One line to transmit to a channel; the caller performs the send.
pub struct Outbound {
    pub channel: String,
    pub text: String,
}

/// Whether any URL occurs in the text; a function of the text alone.
pub uninterp spec fn has_url(s: Seq<char>) -> bool;

/// Relies on linkify's `LinkFinder`, restricted to `LinkKind::Url`: whether
/// any URL occurs in the text. The scan depends on the text alone.
#[verifier::external_body]
fn body_has_url(body: &str) -> (r: bool)
    ensures
        r == has_url(body@),
{
    let mut finder = linkify::LinkFinder::new();
    finder.kinds(&[linkify::LinkKind::Url]);
    finder.links(body).next().is_some()
}

/// Combining diacritics, the characters of visual text abuse.
pub open spec fn is_zalgo_char(c: char) -> bool {
    0x300 <= c as u32 <= 0x36f
}

/// Whether any combining diacritic occurs in the text.
pub open spec fn has_zalgo(s: Seq<char>) -> bool {
    exists|i: int| 0 <= i < s.len() && is_zalgo_char(s[i])
}

/// The reason string of a link sanction.
pub open spec fn links_reason() -> Seq<char> {
    "ei linkkeja"@
}

/// The reason string of a zalgo sanction.
pub open spec fn zalgo_reason() -> Seq<char> {
    "ei zalgoa"@
}

/// The timeout directive sent to sanction a sender for ten seconds.
pub open spec fn timeout_cmd(sender: Seq<char>, reason: Seq<char>) -> Seq<char> {
    "/timeout "@ + sender + " 10 "@ + reason
}

/// Formats the timeout directive.
fn timeout_line(sender: &str, reason: &str) -> (r: String)
    ensures
        r@ == timeout_cmd(sender@, reason@),
{
    let mut line = String::from_str("/timeout ");
    line.append(sender);
    line.append(" 10 ");
    line.append(reason);
    proof {
        assert(line@ =~= timeout_cmd(sender@, reason@));
    }
    line
}

/// Link rule: a sanction addressed to the sender when the body holds a URL.
pub fn purge_links(msg: &ParsedMessage) -> (r: Option<Outbound>)
    ensures
        r is Some <==> has_url(msg.body@),
        match r {
            Some(o) => o.channel@ == msg.channel@ && o.text@ == timeout_cmd(
                msg.sender@,
                links_reason(),
            ),
            None => true,
        },
{
    if body_has_url(msg.body.as_str()) {
        Some(
            Outbound {
                channel: msg.channel.clone(),
                text: timeout_line(msg.sender.as_str(), "ei linkkeja"),
            },
        )
    } else {
        None
    }
}

/// Zalgo rule: a sanction addressed to the sender when the body holds a
/// combining diacritic.
pub fn purge_zalgo(message: &ParsedMessage) -> (r: Option<Outbound>)
    ensures
        r is Some <==> has_zalgo(message.body@),
        match r {
            Some(o) => o.channel@ == message.channel@ && o.text@ == timeout_cmd(
                message.sender@,
                zalgo_reason(),
            ),
            None => true,
        },
{
    let n = message.body.as_str().unicode_len();
    let mut i: usize = 0;
    while i < n
        invariant
            n == message.body@.len(),
            0 <= i <= n,
            forall|j: int| 0 <= j < i ==> !is_zalgo_char(message.body@[j]),
        decreases n - i,
    {
        let c = message.body.as_str().get_char(i);
        let code = c as u32;
        if 0x300 <= code && code <= 0x36f {
            assert(is_zalgo_char(message.body@[i as int]));
            return Some(
                Outbound {
                    channel: message.channel.clone(),
                    text: timeout_line(message.sender.as_str(), "ei zalgoa"),
                },
            );
        }
        i = i + 1;
    }
    None
}

/// The sanction that the rules prescribe, given whether the link scan fired:
/// known senders bypass the rules; otherwise the link rule sanctions first and
/// stops, and the zalgo rule runs only when the link rule did not fire.
pub fn moderation_action(message: &ParsedMessage, known: bool, link_found: bool) -> (r: Option<
    Outbound,
>)
    ensures
        r is Some <==> (!known && (link_found || has_zalgo(message.body@))),
        known ==> r is None,
        !known && link_found ==> match r {
            Some(o) => o.channel@ == message.channel@ && o.text@ == timeout_cmd(
                message.sender@,
                links_reason(),
            ),
            None => false,
        },
        !known && !link_found && has_zalgo(message.body@) ==> match r {
            Some(o) => o.channel@ == message.channel@ && o.text@ == timeout_cmd(
                message.sender@,
                zalgo_reason(),
            ),
            None => false,
        },
{
    if known {
        None
    } else if link_found {
        Some(
            Outbound {
                channel: message.channel.clone(),
                text: timeout_line(message.sender.as_str(), "ei linkkeja"),
            },
        )
    } else {
        purge_zalgo(message)
    }
}

/// Evaluates the moderation rules for one message; `Some` is the sanction to
/// send, and a `Some` result means the message was moderated.
pub fn moderate_message(message: &ParsedMessage, _role: &Role, known: &bool) -> (r: Option<
    Outbound,
>)
    ensures
        r is Some <==> (!*known && (has_url(message.body@) || has_zalgo(message.body@))),
        !*known && has_url(message.body@) ==> match r {
            Some(o) => o.channel@ == message.channel@ && o.text@ == timeout_cmd(
                message.sender@,
                links_reason(),
            ),
            None => false,
        },
        !*known && !has_url(message.body@) && has_zalgo(message.body@) ==> match r {
            Some(o) => o.channel@ == message.channel@ && o.text@ == timeout_cmd(
                message.sender@,
                zalgo_reason(),
            ),
            None => false,
        },
{
    let link_found = if !*known {
        body_has_url(message.body.as_str())
    } else {
        false
    };
    moderation_action(message, *known, link_found)
}

} // verus!
