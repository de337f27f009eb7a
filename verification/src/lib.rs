use vstd::prelude::*;

mod cmdmap;
mod config;
mod dispatch;
mod moderation;
mod orchestrate;
mod parser;
mod role;
mod store;
mod strset;
mod text;

pub use cmdmap::CmdMap;
pub use config::{global_blacklist, BotConfig, ChannelConfig, InputChannelConfig};
pub use dispatch::handle_bot_command;
pub use moderation::{
    moderate_message, moderation_action, purge_links, purge_zalgo, Outbound,
};
pub use orchestrate::handle_msg;
pub use parser::{get_parsed_message, parse_irc_command, ParsedMessage};
pub use role::{get_role, Role};
pub use store::{load_channel_state, save_state, ChannelStateStore};
pub use strset::StrSet;
pub use text::str_eq;
