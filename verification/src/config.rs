//! Channel configuration: the process-wide reserved trigger blacklist, the
//! per-channel configuration record and its mathematical model, and the
//! declarative input form that external configuration is delivered in.

use vstd::prelude::*;

use crate::cmdmap::CmdMap;
use crate::strset::StrSet;

verus! {

/// Mathematical model of one channel's configuration.
pub ghost struct ConfigModel {
    pub known: Set<Seq<char>>,
    pub admins: Set<Seq<char>>,
    pub cmds: Map<Seq<char>, Seq<char>>,
    pub blacklist: Set<Seq<char>>,
}

/// The process-wide reserved command triggers.
pub open spec fn reserved_set() -> Set<Seq<char>> {
    set!["reload-conf"@, "update"@, "edit"@, "add"@, "newmod"@]
}

/// Builds the reserved trigger blacklist.
pub fn global_blacklist() -> (r: StrSet)
    ensures
        r@ == reserved_set(),
{
    let mut blacklist = StrSet::new();
    blacklist.insert("reload-conf".to_owned());
    blacklist.insert("update".to_owned());
    blacklist.insert("edit".to_owned());
    blacklist.insert("add".to_owned());
    blacklist.insert("newmod".to_owned());
    proof {
        assert(blacklist@ =~= reserved_set());
    }
    blacklist
}

/// One channel's configuration and trust state.
pub struct ChannelConfig {
    pub known_users: StrSet,
    pub bot_admins: StrSet,
    pub channel_text_commands: CmdMap,
    pub command_blacklist: StrSet,
}

impl View for ChannelConfig {
    type V = ConfigModel;

    open spec fn view(&self) -> ConfigModel {
        ConfigModel {
            known: self.known_users@,
            admins: self.bot_admins@,
            cmds: self.channel_text_commands@,
            blacklist: self.command_blacklist@,
        }
    }
}

/// The configuration a channel gets when nothing was declared for it.
pub open spec fn default_config_model() -> ConfigModel {
    ConfigModel {
        known: Set::empty(),
        admins: Set::empty(),
        cmds: Map::empty(),
        blacklist: reserved_set(),
    }
}

/// Declarative per-channel configuration input; absent fields default to
/// empty, and the blacklist is always combined with the reserved set.
pub struct InputChannelConfig {
    pub known_users: Option<StrSet>,
    pub bot_admins: Option<StrSet>,
    pub channel_text_commands: Option<CmdMap>,
    pub command_blacklist: Option<StrSet>,
}

/// The configuration that `conf` declares, with defaults filled in and the
/// blacklist combined with the reserved set.
pub open spec fn input_model(conf: &InputChannelConfig) -> ConfigModel {
    ConfigModel {
        known: match conf.known_users {
            Some(s) => s@,
            None => Set::empty(),
        },
        admins: match conf.bot_admins {
            Some(s) => s@,
            None => Set::empty(),
        },
        cmds: match conf.channel_text_commands {
            Some(m) => m@,
            None => Map::empty(),
        },
        blacklist: reserved_set() + (match conf.command_blacklist {
            Some(b) => b@,
            None => Set::empty(),
        }),
    }
}

/// Materializes the configuration that `conf` declares.
pub fn build_config(conf: &InputChannelConfig) -> (r: ChannelConfig)
    ensures
        r@ == input_model(conf),
{
    let known_users = match &conf.known_users {
        Some(s) => s.duplicate(),
        None => StrSet::new(),
    };
    let bot_admins = match &conf.bot_admins {
        Some(s) => s.duplicate(),
        None => StrSet::new(),
    };
    let channel_text_commands = match &conf.channel_text_commands {
        Some(m) => m.duplicate(),
        None => CmdMap::new(),
    };
    let command_blacklist = match &conf.command_blacklist {
        Some(b) => {
            let mut combined = global_blacklist();
            combined.add_all(b);
            combined
        },
        None => global_blacklist(),
    };
    let r = ChannelConfig { known_users, bot_admins, channel_text_commands, command_blacklist };
    proof {
        assert(r@.blacklist =~= input_model(conf).blacklist);
        assert(r@.known =~= input_model(conf).known);
        assert(r@.admins =~= input_model(conf).admins);
        assert(r@.cmds =~= input_model(conf).cmds);
    }
    r
}

/// Global bot identity and connection parameters, loaded externally.
pub struct BotConfig {
    pub nickname: String,
    pub server: String,
    pub port: u16,
    pub channels: Vec<String>,
    pub use_tls: Option<bool>,
    pub auth_token: Option<String>,
}

} // verus!
