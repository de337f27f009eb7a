use chatmod::{
    handle_bot_command, handle_msg, moderate_message, moderation_action, purge_links,
    purge_zalgo, ChannelStateStore, CmdMap, InputChannelConfig, ParsedMessage, Role, StrSet,
};

fn message(sender: &str, channel: &str, body: &str) -> ParsedMessage {
    ParsedMessage {
        sender: sender.to_owned(),
        channel: channel.to_owned(),
        command: "PRIVMSG".to_owned(),
        body: body.to_owned(),
    }
}

fn empty_input() -> InputChannelConfig {
    InputChannelConfig {
        known_users: None,
        bot_admins: None,
        channel_text_commands: None,
        command_blacklist: None,
    }
}

#[test]
fn prepare_reports_conflict_and_keeps_first_config() {
    let mut store = ChannelStateStore::new();
    let mut cmds = CmdMap::new();
    cmds.set("!hi".to_owned(), "first".to_owned());
    let conf1 = InputChannelConfig {
        channel_text_commands: Some(cmds),
        ..empty_input()
    };
    assert!(!store.prepare_channel("#c", &conf1));

    let mut cmds2 = CmdMap::new();
    cmds2.set("!hi".to_owned(), "second".to_owned());
    let conf2 = InputChannelConfig {
        channel_text_commands: Some(cmds2),
        ..empty_input()
    };
    assert!(store.prepare_channel("#c", &conf2));
    assert_eq!(store.get_command("#c", "!hi").unwrap(), "first");
}

#[test]
fn channel_blacklist_always_contains_reserved_set() {
    let mut store = ChannelStateStore::new();
    // Lazily loaded channel.
    store.ensure_channel_data_is_loaded("#lazy");
    for t in ["reload-conf", "update", "edit", "add", "newmod"] {
        assert!(store.is_blacklisted("#lazy", t));
    }
    // Prepared channel with a channel-specific override.
    let mut extra = StrSet::new();
    extra.insert("custom".to_owned());
    let conf = InputChannelConfig {
        command_blacklist: Some(extra),
        ..empty_input()
    };
    assert!(!store.prepare_channel("#own", &conf));
    for t in ["reload-conf", "update", "edit", "add", "newmod", "custom"] {
        assert!(store.is_blacklisted("#own", t));
    }
    assert!(store.is_blacklisted("#own", "!custom"));
    assert!(!store.is_blacklisted("#own", "other"));
}

#[test]
fn moderation_skips_known_users() {
    let m = message("bob", "#c", "look http://x.com \u{0301}");
    assert!(moderate_message(&m, &Role::Peasant, &true).is_none());
}

#[test]
fn link_rule_fires_on_url() {
    let m = message("bob", "#c", "check this http://x.com");
    let o = purge_links(&m).expect("link sanction");
    assert_eq!(o.channel, "#c");
    assert_eq!(o.text, "/timeout bob 10 ei linkkeja");
    assert!(purge_links(&message("bob", "#c", "no links here")).is_none());
}

#[test]
fn zalgo_rule_fires_on_combining_diacritics() {
    let m = message("bob", "#c", "h\u{0300}i");
    let o = purge_zalgo(&m).expect("zalgo sanction");
    assert_eq!(o.text, "/timeout bob 10 ei zalgoa");
    assert!(purge_zalgo(&message("bob", "#c", "h\u{036f}x")).is_some());
    assert!(purge_zalgo(&message("bob", "#c", "h\u{02ff}x")).is_none());
    assert!(purge_zalgo(&message("bob", "#c", "h\u{0370}x")).is_none());
}

#[test]
fn link_and_zalgo_produce_exactly_one_sanction() {
    let m = message("bob", "#c", "bad http://x.com z\u{0301}");
    let o = moderate_message(&m, &Role::Peasant, &false).expect("moderated");
    assert_eq!(o.text, "/timeout bob 10 ei linkkeja");
}

#[test]
fn moderation_action_cases() {
    let m = message("bob", "#c", "plain text");
    assert!(moderation_action(&m, true, true).is_none());
    let o = moderation_action(&m, false, true).unwrap();
    assert_eq!(o.text, "/timeout bob 10 ei linkkeja");
    assert!(moderation_action(&m, false, false).is_none());
}

#[test]
fn peasant_cannot_define_owner_can() {
    let mut store = ChannelStateStore::new();
    store.ensure_channel_data_is_loaded("#foo");
    let m = message("peon", "#foo", "!greet hello");
    let (handled, reply) = handle_bot_command(&mut store, &m, &Role::Peasant, &false);
    assert!(!handled);
    assert!(reply.is_none());
    assert!(store.get_command("#foo", "!greet").is_none());

    let (handled, reply) = handle_bot_command(&mut store, &m, &Role::Owner, &false);
    assert!(handled);
    assert!(reply.is_none());
    assert_eq!(store.get_command("#foo", "!greet").unwrap(), "hello");
}

#[test]
fn blacklisted_trigger_is_ignored_entirely() {
    let mut store = ChannelStateStore::new();
    store.ensure_channel_data_is_loaded("#foo");
    // A definition stored before the trigger was consulted stays inert.
    store.set_command("#foo", "!update", "stale");
    let bare = message("foo", "#foo", "!update");
    let (handled, reply) = handle_bot_command(&mut store, &bare, &Role::Owner, &true);
    assert!(!handled);
    assert!(reply.is_none());
    let define = message("foo", "#foo", "!update anything");
    let (handled, reply) = handle_bot_command(&mut store, &define, &Role::Owner, &true);
    assert!(!handled);
    assert!(reply.is_none());
    assert_eq!(store.get_command("#foo", "!update").unwrap(), "stale");
}

#[test]
fn clean_first_message_promotes_sender() {
    let mut store = ChannelStateStore::new();
    let (outbound, body) = handle_msg(&mut store, Some("alice"), "PRIVMSG #c :hello all");
    assert_eq!(body, "hello all");
    assert!(outbound.is_empty());
    assert!(store.is_known_user(&message("alice", "#c", "")));
}

#[test]
fn url_first_message_never_promotes_sender() {
    let mut store = ChannelStateStore::new();
    let (outbound, body) = handle_msg(&mut store, Some("spammer"), "PRIVMSG #c :see http://x.com");
    assert_eq!(body, "see http://x.com");
    assert_eq!(outbound.len(), 1);
    assert_eq!(outbound[0].channel, "#c");
    assert_eq!(outbound[0].text, "/timeout spammer 10 ei linkkeja");
    assert!(!store.is_known_user(&message("spammer", "#c", "")));
}

#[test]
fn known_user_is_not_rescanned() {
    let mut store = ChannelStateStore::new();
    let (_, _) = handle_msg(&mut store, Some("vet"), "PRIVMSG #c :clean first");
    assert!(store.is_known_user(&message("vet", "#c", "")));
    let (outbound, _) = handle_msg(&mut store, Some("vet"), "PRIVMSG #c :now http://x.com");
    assert!(outbound.is_empty());
}

#[test]
fn owner_defines_then_peasant_looks_up() {
    let mut store = ChannelStateStore::new();
    let (outbound, _) = handle_msg(&mut store, Some("foo"), "PRIVMSG #foo :!greet hi there");
    assert!(outbound.is_empty());
    assert_eq!(store.get_command("#foo", "!greet").unwrap(), "hi there");
    let (outbound, _) = handle_msg(&mut store, Some("bar"), "PRIVMSG #foo :!greet");
    assert_eq!(outbound.len(), 1);
    assert_eq!(outbound[0].channel, "#foo");
    assert_eq!(outbound[0].text, "hi there");
}

#[test]
fn unrecognized_line_changes_nothing() {
    let mut store = ChannelStateStore::new();
    let (outbound, body) = handle_msg(&mut store, Some("x"), "PING :server");
    assert!(outbound.is_empty());
    assert_eq!(body, "");
    assert!(!store.contains_channel("#anything"));
}

#[test]
fn moderated_sender_command_still_dispatched() {
    // The dispatcher runs on the same message regardless of the moderation
    // outcome.
    let mut store = ChannelStateStore::new();
    store.ensure_channel_data_is_loaded("#c");
    store.set_command("#c", "!rules", "be nice");
    let (outbound, _) = handle_msg(&mut store, Some("noob"), "PRIVMSG #c :!rules");
    assert_eq!(outbound.len(), 1);
    assert_eq!(outbound[0].text, "be nice");
    assert!(store.is_known_user(&message("noob", "#c", "")));
}

#[test]
fn prepared_admins_grant_mode_role() {
    let mut store = ChannelStateStore::new();
    let mut admins = StrSet::new();
    admins.insert("helper".to_owned());
    let conf = InputChannelConfig {
        bot_admins: Some(admins),
        ..empty_input()
    };
    assert!(!store.prepare_channel("#c", &conf));
    let m = message("helper", "#c", "!motd welcome");
    let role = store.get_role_from(&m);
    assert_eq!(role, Role::Mode);
    let (handled, _) = handle_bot_command(&mut store, &m, &role, &true);
    assert!(handled);
    assert_eq!(store.get_command("#c", "!motd").unwrap(), "welcome");
}
