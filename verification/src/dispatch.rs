//! Command dispatcher: parses and executes bot text-commands against channel
//! state, with blacklisting and role-based permission for definitions.

use vstd::prelude::*;

use crate::config::ConfigModel;
use crate::moderation::Outbound;
use crate::parser::{ParsedMessage, ParsedModel};
use crate::role::Role;
use crate::store::{blacklisted_spec, store_wf, ChannelStateStore};
use crate::text::{find_char_from, starts_with_char};
use vstd::string::StrSliceExecFns;

verus! {

/// Whether the body carries the command marker.
pub open spec fn command_invoked(body: Seq<char>) -> bool {
    body.len() > 0 && body[0] == '!'
}

/// Splits the body at its first space into the trigger (marker included) and
/// the optional argument remainder.
pub open spec fn split2(body: Seq<char>) -> (Seq<char>, Option<Seq<char>>) {
    match find_char_from(body, ' ', 0) {
        Some(i) => (body.subrange(0, i), Some(body.subrange(i + 1, body.len() as int))),
        None => (body, None),
    }
}

/// The store after dispatching: only a permitted definition (argument present,
/// role not Peasant, trigger not blacklisted) changes the channel's text
/// commands.
pub open spec fn dispatch_store_model(
    m: Map<Seq<char>, ConfigModel>,
    msg: ParsedModel,
    role: Role,
) -> Map<Seq<char>, ConfigModel> {
    let cfg = m[msg.channel];
    let t = split2(msg.body).0;
    let arg = split2(msg.body).1;
    if command_invoked(msg.body) && !blacklisted_spec(cfg, t) && arg is Some && role
        != Role::Peasant {
        m.insert(msg.channel, ConfigModel { cmds: cfg.cmds.insert(t, arg.unwrap()), ..cfg })
    } else {
        m
    }
}

/// The reply sent by a zero-argument lookup, as `(channel, text)`, if any.
pub open spec fn dispatch_reply(m: Map<Seq<char>, ConfigModel>, msg: ParsedModel) -> Option<
    (Seq<char>, Seq<char>),
> {
    let cfg = m[msg.channel];
    let t = split2(msg.body).0;
    let arg = split2(msg.body).1;
    if command_invoked(msg.body) && !blacklisted_spec(cfg, t) && arg is None
        && cfg.cmds.contains_key(t) {
        Some((msg.channel, cfg.cmds[t]))
    } else {
        None
    }
}

/// Whether dispatching acted: a stored reply was sent, or a definition was
/// made.
pub open spec fn dispatch_handled(
    m: Map<Seq<char>, ConfigModel>,
    msg: ParsedModel,
    role: Role,
) -> bool {
    let cfg = m[msg.channel];
    let t = split2(msg.body).0;
    let arg = split2(msg.body).1;
    command_invoked(msg.body) && !blacklisted_spec(cfg, t) && ((arg is None
        && cfg.cmds.contains_key(t)) || (arg is Some && role != Role::Peasant))
}

/// Executes a bot text-command, if the message carries one: a blacklisted
/// trigger is ignored entirely; a bare trigger looks its stored reply up; a
/// trigger with an argument defines the reply, for non-Peasant senders only.
pub fn handle_bot_command(
    store: &mut ChannelStateStore,
    message: &ParsedMessage,
    role: &Role,
    _known: &bool,
) -> (r: (bool, Option<Outbound>))
    requires
        old(store)@.contains_key(message.channel@),
    ensures
        final(store)@ == dispatch_store_model(old(store)@, message@, *role),
        r.0 == dispatch_handled(old(store)@, message@, *role),
        match dispatch_reply(old(store)@, message@) {
            Some(p) => r.1 matches Some(o) && o.channel@ == p.0 && o.text@ == p.1,
            None => r.1 is None,
        },
        store_wf(old(store)@) ==> store_wf(final(store)@),
{
    if !starts_with_char(message.body.as_str(), '!') {
        return (false, None);
    }
    let body = message.body.as_str();
    let bn = body.unicode_len();
    let (trigger, argument) = match crate::text::find_char_at(body, ' ', 0) {
        Some(i) => (body.substring_char(0, i), Some(body.substring_char(i + 1, bn))),
        None => (body, None),
    };
    if store.is_blacklisted(message.channel.as_str(), trigger) {
        return (false, None);
    }
    match argument {
        None => {
            match store.get_command(message.channel.as_str(), trigger) {
                Some(reply) => (
                    true,
                    Some(Outbound { channel: message.channel.clone(), text: reply }),
                ),
                None => (false, None),
            }
        },
        Some(arg) => {
            let privileged = match role {
                Role::Peasant => false,
                _ => true,
            };
            if privileged {
                store.set_command(message.channel.as_str(), trigger, arg);
                (true, None)
            } else {
                (false, None)
            }
        },
    }
}

/// Law: a trigger in the combined blacklist is ignored entirely: no lookup,
/// no reply, no definition, no state change, whatever the sender's role.
pub proof fn lemma_blacklisted_ignored(
    m: Map<Seq<char>, ConfigModel>,
    msg: ParsedModel,
    role: Role,
)
    requires
        blacklisted_spec(m[msg.channel], split2(msg.body).0),
    ensures
        dispatch_store_model(m, msg, role) == m,
        dispatch_reply(m, msg) is None,
        !dispatch_handled(m, msg, role),
{
}

/// Law: a Peasant-role sender's definition attempt causes no change to the
/// stored text commands.
pub proof fn lemma_peasant_cannot_define(m: Map<Seq<char>, ConfigModel>, msg: ParsedModel)
    requires
        split2(msg.body).1 is Some,
    ensures
        dispatch_store_model(m, msg, Role::Peasant) == m,
        dispatch_reply(m, msg) is None,
{
}

} // verus!
