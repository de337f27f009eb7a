//! Orchestrator: sequences parsing, lazy channel loading, role and trust
//! resolution, the moderation pipeline, trust promotion, and the command
//! dispatcher for one inbound raw line. Returns the lines to transmit and the
//! message body for diagnostics.

use vstd::prelude::*;

use crate::config::ConfigModel;
use crate::dispatch::{dispatch_reply, dispatch_store_model, handle_bot_command};
use crate::moderation::{
    has_url, has_zalgo, links_reason, moderate_message, timeout_cmd, zalgo_reason, Outbound,
};
use crate::parser::{get_parsed_message, parse_model, recognized, sender_model, ParsedModel};
use crate::role::role_spec;
use crate::store::{ensure_model, store_wf, ChannelStateStore};
use crate::text::trim_spec;

verus! {

/// The message model that a recognized raw line parses to.
pub open spec fn line_model(sender: Option<&str>, raw: Seq<char>) -> ParsedModel {
    parse_model("PRIVMSG"@, sender_model(sender), trim_spec(raw))
}

/// Processes one inbound raw line end to end. An unrecognized line changes
/// nothing. A recognized line is parsed; its channel is loaded if absent; the
/// moderation rules run for senders not yet known, and only a message they do
/// not sanction promotes its sender to the known users; the command
/// dispatcher then runs on the same message regardless of the moderation
/// outcome. The returned lines are the sanction, if any, followed by the
/// command reply, if any; the returned text is the message body, or empty for
/// an unrecognized line.
pub fn handle_msg(store: &mut ChannelStateStore, sender: Option<&str>, raw: &str) -> (r: (
    Vec<Outbound>,
    String,
))
    ensures
        !recognized(raw@) ==> final(store)@ == old(store)@ && r.0@.len() == 0 && r.1@
            == Seq::<char>::empty(),
        store_wf(old(store)@) ==> store_wf(final(store)@),
        recognized(raw@) ==> ({
            let msg = line_model(sender, raw@);
            let m1 = ensure_model(old(store)@, msg.channel);
            let cfg1 = m1[msg.channel];
            let was_known = cfg1.known.contains(msg.sender);
            let role = role_spec(cfg1, msg.sender, msg.channel);
            let moderated = !was_known && (has_url(msg.body) || has_zalgo(msg.body));
            let m2 = if !moderated && !was_known {
                m1.insert(msg.channel, ConfigModel { known: cfg1.known.insert(msg.sender), ..cfg1 })
            } else {
                m1
            };
            let reply = dispatch_reply(m2, msg);
            &&& final(store)@ == dispatch_store_model(m2, msg, role)
            &&& r.1@ == msg.body
            &&& r.0@.len() == (if moderated { 1int } else { 0int }) + (if reply is Some {
                1int
            } else {
                0int
            })
            &&& moderated ==> r.0@[0].channel@ == msg.channel && r.0@[0].text@ == timeout_cmd(
                msg.sender,
                if has_url(msg.body) {
                    links_reason()
                } else {
                    zalgo_reason()
                },
            )
            &&& match reply {
                Some(p) => r.0@[r.0@.len() - 1].channel@ == p.0 && r.0@[r.0@.len() - 1].text@
                    == p.1,
                None => true,
            }
            &&& moderated ==> final(store)@[msg.channel].known == cfg1.known
            &&& !moderated ==> final(store)@[msg.channel].known == cfg1.known.insert(msg.sender)
        }),
{
    let parsed = get_parsed_message(sender, raw);
    let message = match parsed {
        None => {
            return (Vec::new(), String::new());
        },
        Some(m) => m,
    };
    store.ensure_channel_data_is_loaded(message.channel.as_str());
    let ghost m1 = store@;
    let role = store.get_role_from(&message);
    let known_user = store.is_known_user(&message);
    let mut outbound: Vec<Outbound> = Vec::new();
    let sanction = moderate_message(&message, &role, &known_user);
    let moderated = sanction.is_some();
    match sanction {
        Some(o) => outbound.push(o),
        None => (),
    }
    if !moderated && !known_user {
        store.mark_user_as_known(message.sender.as_str(), message.channel.as_str());
    }
    proof {
        let msg = line_model(sender, raw@);
        let cfg1 = m1[msg.channel];
        if !moderated && known_user {
            assert(cfg1.known.insert(msg.sender) =~= cfg1.known);
            assert(m1.insert(
                msg.channel,
                ConfigModel { known: cfg1.known.insert(msg.sender), ..cfg1 },
            ) =~= m1);
        }
    }
    let (_handled, reply) = handle_bot_command(store, &message, &role, &known_user);
    match reply {
        Some(o) => outbound.push(o),
        None => (),
    }
    let body = message.body.clone();
    (outbound, body)
}

} // verus!
