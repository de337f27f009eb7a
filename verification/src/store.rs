//! The channel state registry: owns every channel's configuration, created
//! once per channel and mutated in place by trust promotion and command
//! definition. Viewed as a `Map` from channel name to configuration model.
//!
//! Every mutation goes through one exclusive reference, so `prepare_channel`
//! and `ensure_channel_data_is_loaded` are single atomic insert-if-absent
//! operations with no check-then-act window; a host that processes messages
//! concurrently puts the registry behind one reader/writer lock and never
//! holds a read guard across a call that mutates.
//!
//! Calling a per-channel accessor before the channel has been loaded is a
//! precondition violation: each accessor requires the channel to be present,
//! and the orchestrator loads it first. At runtime such a call stops at the
//! failed channel lookup rather than touching other state.

use vstd::prelude::*;

use crate::cmdmap::CmdMap;
use crate::config::{
    build_config, default_config_model, global_blacklist, input_model, reserved_set,
    ChannelConfig, ConfigModel, InputChannelConfig,
};
use crate::parser::ParsedMessage;
use crate::role::{get_role, role_spec, Role};
use crate::strset::StrSet;
use crate::text::{str_eq, strip_leading, strip_leading_char};

verus! {

struct ChannelEntry {
    name: String,
    config: ChannelConfig,
}

/// Registry of per-channel configuration and trust state.
pub struct ChannelStateStore {
    channels: Vec<ChannelEntry>,
}

/// Configuration of the first entry named `name`, if any.
spec fn cfg_of(s: Seq<ChannelEntry>, name: Seq<char>) -> Option<ConfigModel>
    decreases s.len(),
{
    if s.len() == 0 {
        None
    } else if s[0].name@ == name {
        Some(s[0].config@)
    } else {
        cfg_of(s.subrange(1, s.len() as int), name)
    }
}

impl View for ChannelStateStore {
    type V = Map<Seq<char>, ConfigModel>;

    closed spec fn view(&self) -> Map<Seq<char>, ConfigModel> {
        Map::new(
            |n: Seq<char>| cfg_of(self.channels@, n) is Some,
            |n: Seq<char>| cfg_of(self.channels@, n).unwrap(),
        )
    }
}

/// Every configured channel's blacklist contains the reserved set.
pub open spec fn store_wf(m: Map<Seq<char>, ConfigModel>) -> bool {
    forall|ch: Seq<char>| #[trigger]
        m.contains_key(ch) ==> reserved_set().subset_of(m[ch].blacklist)
}

/// Inserting configuration only if the channel is absent.
pub open spec fn prepare_model(
    m: Map<Seq<char>, ConfigModel>,
    ch: Seq<char>,
    c: ConfigModel,
) -> Map<Seq<char>, ConfigModel> {
    if m.contains_key(ch) {
        m
    } else {
        m.insert(ch, c)
    }
}

/// Lazily loading a channel: a default configuration is inserted only if the
/// channel is absent.
pub open spec fn ensure_model(m: Map<Seq<char>, ConfigModel>, ch: Seq<char>) -> Map<
    Seq<char>,
    ConfigModel,
> {
    if m.contains_key(ch) {
        m
    } else {
        m.insert(ch, default_config_model())
    }
}

/// A trigger is blacklisted when it, or it with its leading markers stripped,
/// is in the channel's combined blacklist.
pub open spec fn blacklisted_spec(cfg: ConfigModel, trigger: Seq<char>) -> bool {
    cfg.blacklist.contains(trigger) || cfg.blacklist.contains(strip_leading(trigger, '!'))
}

/// Skipping entries whose name differs from `name` leaves the result
/// unchanged.
proof fn lemma_cfg_skip(s: Seq<ChannelEntry>, name: Seq<char>, i: int)
    requires
        0 <= i <= s.len(),
        forall|j: int| 0 <= j < i ==> s[j].name@ != name,
    ensures
        cfg_of(s, name) == cfg_of(s.subrange(i, s.len() as int), name),
    decreases i,
{
    if i > 0 {
        let tail = s.subrange(1, s.len() as int);
        assert forall|j: int| 0 <= j < i - 1 implies tail[j].name@ != name by {
            assert(s[j + 1].name@ != name);
        }
        lemma_cfg_skip(tail, name, i - 1);
        assert(tail.subrange(i - 1, tail.len() as int) =~= s.subrange(i, s.len() as int));
    } else {
        assert(s.subrange(0, s.len() as int) =~= s);
    }
}

/// Replacing the first entry of a name updates that name alone.
proof fn lemma_cfg_update(s: Seq<ChannelEntry>, m: int, e2: ChannelEntry, n2: Seq<char>)
    requires
        0 <= m < s.len(),
        s[m].name@ == e2.name@,
        forall|j: int| 0 <= j < m ==> s[j].name@ != e2.name@,
    ensures
        cfg_of(s.update(m, e2), n2) == (if n2 == e2.name@ {
            Some(e2.config@)
        } else {
            cfg_of(s, n2)
        }),
    decreases m,
{
    let upd = s.update(m, e2);
    if m == 0 {
        if n2 != e2.name@ {
            assert(upd.subrange(1, upd.len() as int) =~= s.subrange(1, s.len() as int));
        }
    } else {
        assert(upd[0] == s[0]);
        if s[0].name@ != n2 {
            let tail = s.subrange(1, s.len() as int);
            assert(upd.subrange(1, upd.len() as int) =~= tail.update(m - 1, e2));
            assert forall|j: int| 0 <= j < m - 1 implies tail[j].name@ != e2.name@ by {
                assert(s[j + 1].name@ != e2.name@);
            }
            lemma_cfg_update(tail, m - 1, e2, n2);
        }
    }
}

/// Appending an entry defines its name only where it was undefined.
proof fn lemma_cfg_push(s: Seq<ChannelEntry>, e: ChannelEntry, n2: Seq<char>)
    ensures
        cfg_of(s.push(e), n2) == (if cfg_of(s, n2) is Some {
            cfg_of(s, n2)
        } else if n2 == e.name@ {
            Some(e.config@)
        } else {
            None
        }),
    decreases s.len(),
{
    let p = s.push(e);
    assert(p.len() == s.len() + 1);
    if s.len() == 0 {
        assert(p[0] == e);
        if e.name@ != n2 {
            assert(p.subrange(1, p.len() as int) =~= Seq::<ChannelEntry>::empty());
            assert(cfg_of(Seq::<ChannelEntry>::empty(), n2) is None);
        }
    } else {
        assert(p[0] == s[0]);
        if s[0].name@ != n2 {
            let tail = s.subrange(1, s.len() as int);
            assert(p.subrange(1, p.len() as int) =~= tail.push(e));
            lemma_cfg_push(tail, e, n2);
        }
    }
}

/// Synthesizes the default configuration a channel gets on first reference.
pub fn load_channel_state(_channel: &str) -> (r: ChannelConfig)
    ensures
        r@ == default_config_model(),
{
    let r = ChannelConfig {
        known_users: StrSet::new(),
        bot_admins: StrSet::new(),
        channel_text_commands: CmdMap::new(),
        command_blacklist: global_blacklist(),
    };
    proof {
        assert(r@.known =~= default_config_model().known);
        assert(r@.admins =~= default_config_model().admins);
        assert(r@.cmds =~= default_config_model().cmds);
    }
    r
}

/// Persistence hook; channel state is held in memory only and nothing is
/// written out.
pub fn save_state() {
}

impl ChannelStateStore {
    /// A registry with no channels configured.
    pub fn new() -> (r: Self)
        ensures
            r@ == Map::<Seq<char>, ConfigModel>::empty(),
            store_wf(r@),
    {
        let r = ChannelStateStore { channels: Vec::new() };
        proof {
            assert(r@ =~= Map::<Seq<char>, ConfigModel>::empty());
        }
        r
    }

    /// Index of the first entry for `channel`, tied to the view.
    fn find_index(&self, channel: &str) -> (r: Option<usize>)
        ensures
            match r {
                Some(i) => i < self.channels@.len() && self.channels@[i as int].name@ == channel@
                    && (forall|j: int| 0 <= j < i ==> self.channels@[j].name@ != channel@)
                    && self@.contains_key(channel@) && self@[channel@] == self.channels@[
                    i as int].config@,
                None => !self@.contains_key(channel@),
            },
    {
        let n = self.channels.len();
        let mut i: usize = 0;
        while i < n
            invariant
                n == self.channels@.len(),
                0 <= i <= n,
                forall|j: int| 0 <= j < i ==> self.channels@[j].name@ != channel@,
            decreases n - i,
        {
            if str_eq(self.channels[i].name.as_str(), channel) {
                proof {
                    lemma_cfg_skip(self.channels@, channel@, i as int);
                    assert(self.channels@.subrange(i as int, n as int)[0] == self.channels@[
                        i as int]);
                }
                return Some(i);
            }
            i = i + 1;
        }
        proof {
            lemma_cfg_skip(self.channels@, channel@, n as int);
        }
        None
    }

    /// Whether the channel has been configured or loaded.
    pub fn contains_channel(&self, channel: &str) -> (r: bool)
        ensures
            r == self@.contains_key(channel@),
    {
        self.find_index(channel).is_some()
    }

    /// Inserts configuration only if the channel is absent; a call for an
    /// already-configured channel is a no-op that reports the conflict.
    pub fn prepare_channel(&mut self, channel: &str, conf: &InputChannelConfig) -> (conflict:
        bool)
        ensures
            conflict == old(self)@.contains_key(channel@),
            final(self)@ == prepare_model(old(self)@, channel@, input_model(conf)),
            store_wf(old(self)@) ==> store_wf(final(self)@),
    {
        if self.contains_channel(channel) {
            return true;
        }
        let config = build_config(conf);
        let entry = ChannelEntry { name: channel.to_owned(), config };
        let ghost ge = entry;
        let ghost pre = self.channels@;
        self.channels.push(entry);
        proof {
            assert(self.channels@ == pre.push(ge));
            assert forall|n2: Seq<char>| #![auto]
                cfg_of(self.channels@, n2) == (if cfg_of(pre, n2) is Some {
                    cfg_of(pre, n2)
                } else if n2 == ge.name@ {
                    Some(ge.config@)
                } else {
                    None
                }) by {
                lemma_cfg_push(pre, ge, n2);
            }
            assert(self@ =~= old(self)@.insert(channel@, input_model(conf)));
            if store_wf(old(self)@) {
                assert forall|ch2: Seq<char>| #[trigger] self@.contains_key(ch2) implies
                    reserved_set().subset_of(self@[ch2].blacklist) by {
                    if ch2 == channel@ {
                        assert forall|x: Seq<char>| reserved_set().contains(x) implies self@[
                            ch2].blacklist.contains(x) by {}
                    }
                }
            }
        }
        false
    }

    /// If the channel is absent, synthesizes the default configuration and
    /// inserts it exactly once.
    pub fn ensure_channel_data_is_loaded(&mut self, channel: &str)
        ensures
            final(self)@ == ensure_model(old(self)@, channel@),
            final(self)@.contains_key(channel@),
            store_wf(old(self)@) ==> store_wf(final(self)@),
    {
        if self.contains_channel(channel) {
            return ;
        }
        let config = load_channel_state(channel);
        let entry = ChannelEntry { name: channel.to_owned(), config };
        let ghost ge = entry;
        let ghost pre = self.channels@;
        self.channels.push(entry);
        proof {
            assert forall|n2: Seq<char>| #![auto]
                cfg_of(self.channels@, n2) == (if cfg_of(pre, n2) is Some {
                    cfg_of(pre, n2)
                } else if n2 == ge.name@ {
                    Some(ge.config@)
                } else {
                    None
                }) by {
                lemma_cfg_push(pre, ge, n2);
            }
            assert(self@ =~= old(self)@.insert(channel@, default_config_model()));
            if store_wf(old(self)@) {
                assert forall|ch2: Seq<char>| #[trigger] self@.contains_key(ch2) implies
                    reserved_set().subset_of(self@[ch2].blacklist) by {
                    if ch2 == channel@ {
                        assert forall|x: Seq<char>| reserved_set().contains(x) implies self@[
                            ch2].blacklist.contains(x) by {}
                    }
                }
            }
        }
    }

    /// Resolves the sender's role for the message's channel. Pure read.
    pub fn get_role_from(&self, input: &ParsedMessage) -> (r: Role)
        requires
            self@.contains_key(input.channel@),
        ensures
            r == role_spec(self@[input.channel@], input.sender@, input.channel@),
    {
        let m = self.find_index(input.channel.as_str()).unwrap();
        get_role(&self.channels[m].config, input.sender.as_str(), input.channel.as_str())
    }

    /// Whether the message's sender has passed moderation before.
    pub fn is_known_user(&self, input: &ParsedMessage) -> (r: bool)
        requires
            self@.contains_key(input.channel@),
        ensures
            r == self@[input.channel@].known.contains(input.sender@),
    {
        let m = self.find_index(input.channel.as_str()).unwrap();
        self.channels[m].config.known_users.contains(input.sender.as_str())
    }

    /// Idempotent insertion of a sender into a channel's known users.
    pub fn mark_user_as_known(&mut self, user: &str, channel: &str)
        requires
            old(self)@.contains_key(channel@),
        ensures
            final(self)@ == old(self)@.insert(
                channel@,
                ConfigModel {
                    known: old(self)@[channel@].known.insert(user@),
                    ..old(self)@[channel@]
                },
            ),
            store_wf(old(self)@) ==> store_wf(final(self)@),
    {
        let m = self.find_index(channel).unwrap();
        self.channels[m].config.known_users.insert(user.to_owned());
        proof {
            let e2 = self.channels@[m as int];
            assert(self.channels@ == old(self).channels@.update(m as int, e2));
            assert forall|n2: Seq<char>| #![auto]
                cfg_of(self.channels@, n2) == (if n2 == e2.name@ {
                    Some(e2.config@)
                } else {
                    cfg_of(old(self).channels@, n2)
                }) by {
                lemma_cfg_update(old(self).channels@, m as int, e2, n2);
            }
            assert(self@ =~= old(self)@.insert(
                channel@,
                ConfigModel {
                    known: old(self)@[channel@].known.insert(user@),
                    ..old(self)@[channel@]
                },
            ));
            if store_wf(old(self)@) {
                assert forall|ch2: Seq<char>| #[trigger] self@.contains_key(ch2) implies
                    reserved_set().subset_of(self@[ch2].blacklist) by {
                    assert(old(self)@.contains_key(ch2));
                }
            }
        }
    }

    /// Looks a trigger's stored reply up in the channel's text commands.
    pub fn get_command(&self, channel: &str, trigger: &str) -> (r: Option<String>)
        requires
            self@.contains_key(channel@),
        ensures
            match r {
                Some(v) => self@[channel@].cmds.contains_key(trigger@) && v@ == self@[
                    channel@].cmds[trigger@],
                None => !self@[channel@].cmds.contains_key(trigger@),
            },
    {
        let m = self.find_index(channel).unwrap();
        self.channels[m].config.channel_text_commands.get(trigger)
    }

    /// Defines or overwrites a trigger's reply in the channel's text commands.
    pub fn set_command(&mut self, channel: &str, trigger: &str, reply: &str)
        requires
            old(self)@.contains_key(channel@),
        ensures
            final(self)@ == old(self)@.insert(
                channel@,
                ConfigModel {
                    cmds: old(self)@[channel@].cmds.insert(trigger@, reply@),
                    ..old(self)@[channel@]
                },
            ),
            store_wf(old(self)@) ==> store_wf(final(self)@),
    {
        let m = self.find_index(channel).unwrap();
        self.channels[m].config.channel_text_commands.set(trigger.to_owned(), reply.to_owned());
        proof {
            let e2 = self.channels@[m as int];
            assert(self.channels@ == old(self).channels@.update(m as int, e2));
            assert forall|n2: Seq<char>| #![auto]
                cfg_of(self.channels@, n2) == (if n2 == e2.name@ {
                    Some(e2.config@)
                } else {
                    cfg_of(old(self).channels@, n2)
                }) by {
                lemma_cfg_update(old(self).channels@, m as int, e2, n2);
            }
            assert(self@ =~= old(self)@.insert(
                channel@,
                ConfigModel {
                    cmds: old(self)@[channel@].cmds.insert(trigger@, reply@),
                    ..old(self)@[channel@]
                },
            ));
            if store_wf(old(self)@) {
                assert forall|ch2: Seq<char>| #[trigger] self@.contains_key(ch2) implies
                    reserved_set().subset_of(self@[ch2].blacklist) by {
                    assert(old(self)@.contains_key(ch2));
                }
            }
        }
    }

    /// Whether a trigger, as written or with its leading markers stripped, is
    /// in the channel's combined blacklist.
    pub fn is_blacklisted(&self, channel: &str, trigger: &str) -> (r: bool)
        requires
            self@.contains_key(channel@),
        ensures
            r == blacklisted_spec(self@[channel@], trigger@),
    {
        let m = self.find_index(channel).unwrap();
        if self.channels[m].config.command_blacklist.contains(trigger) {
            true
        } else {
            let stripped = strip_leading_char(trigger, '!');
            self.channels[m].config.command_blacklist.contains(stripped)
        }
    }
}

/// Law: the blacklist of every configured channel of a well-formed registry
/// contains the reserved set, at all times.
pub proof fn lemma_blacklist_superset(m: Map<Seq<char>, ConfigModel>, ch: Seq<char>)
    requires
        store_wf(m),
        m.contains_key(ch),
    ensures
        reserved_set().subset_of(m[ch].blacklist),
{
}

/// Law: preparing a channel is idempotent; a second call for an
/// already-configured channel leaves the first configuration unchanged.
pub proof fn lemma_prepare_idempotent(
    m: Map<Seq<char>, ConfigModel>,
    ch: Seq<char>,
    c1: ConfigModel,
    c2: ConfigModel,
)
    ensures
        prepare_model(prepare_model(m, ch, c1), ch, c2) == prepare_model(m, ch, c1),
{
    assert(prepare_model(m, ch, c1).contains_key(ch));
}

} // verus!
