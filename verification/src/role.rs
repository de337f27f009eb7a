//! Role resolution: a sender's privilege level, derived from the channel's
//! configuration alone.

use vstd::prelude::*;

use crate::config::{ChannelConfig, ConfigModel};
use crate::text::{str_eq, strip_leading, strip_leading_char};

verus! {

/// A sender's privilege level in a channel; derived per message, never stored.
#[derive(PartialEq, Eq, Structural, Debug, Clone, Copy)]
pub enum Role {
    Owner,
    Mode,
    Peasant,
}

/// Owner if the sender is the channel's base name (leading `#` markers
/// stripped); else Mode if the sender is a listed admin; else Peasant.
pub open spec fn role_spec(cfg: ConfigModel, sender: Seq<char>, channel: Seq<char>) -> Role {
    if sender == strip_leading(channel, '#') {
        Role::Owner
    } else if cfg.admins.contains(sender) {
        Role::Mode
    } else {
        Role::Peasant
    }
}

/// Resolves a sender's role from the channel configuration. Pure read.
pub fn get_role(config: &ChannelConfig, sender: &str, channel: &str) -> (r: Role)
    ensures
        r == role_spec(config@, sender@, channel@),
{
    let base = strip_leading_char(channel, '#');
    if str_eq(sender, base) {
        Role::Owner
    } else if config.bot_admins.contains(sender) {
        Role::Mode
    } else {
        Role::Peasant
    }
}

} // verus!
