use chatmod::{get_parsed_message, get_role, parse_irc_command, str_eq};
use chatmod::{global_blacklist, ChannelConfig, CmdMap, Role, StrSet};

#[test]
fn parse_simple_privmsg() {
    let m = get_parsed_message(Some("foo"), ":foo!foo@host PRIVMSG #foo :hello there\r\n")
        .expect("recognized line");
    assert_eq!(m.sender, "foo");
    assert_eq!(m.channel, "#foo");
    assert_eq!(m.command, "PRIVMSG");
    assert_eq!(m.body, "hello there");
}

#[test]
fn parse_unrecognized_line_yields_none() {
    assert!(get_parsed_message(Some("foo"), "PING :tmi.example.com").is_none());
    assert!(get_parsed_message(None, "").is_none());
}

#[test]
fn parse_unknown_sender_defaults() {
    let m = get_parsed_message(None, "PRIVMSG #chan :hi").expect("recognized line");
    assert_eq!(m.sender, "unknown");
    assert_eq!(m.channel, "#chan");
    assert_eq!(m.body, "hi");
}

#[test]
fn parse_malformed_line_degrades_to_sentinel() {
    // Fewer than three fields after the marker: the sentinel triple.
    let m = parse_irc_command("PRIVMSG", "foo", "PRIVMSG #foo");
    assert_eq!(m.channel, "unknown");
    assert_eq!(m.command, "unknown");
    assert_eq!(m.body, "");
    let m2 = parse_irc_command("PRIVMSG", "foo", "PRIVMSG");
    assert_eq!(m2.channel, "unknown");
    assert_eq!(m2.body, "");
}

#[test]
fn parse_strips_one_leading_colon_only() {
    let m = get_parsed_message(Some("a"), "PRIVMSG #c ::smile:").expect("recognized line");
    assert_eq!(m.body, ":smile:");
}

#[test]
fn parse_body_without_colon_kept() {
    let m = get_parsed_message(Some("a"), "PRIVMSG #c hi").expect("recognized line");
    assert_eq!(m.body, "hi");
}

#[test]
fn parse_unrecognized_command_argument_yields_sentinel() {
    let m = parse_irc_command("NOTICE", "foo", "NOTICE #foo :hi");
    assert_eq!(m.channel, "unknown");
    assert_eq!(m.command, "unknown");
    assert_eq!(m.body, "");
    assert_eq!(m.sender, "foo");
}

#[test]
fn str_eq_compares_characters() {
    assert!(str_eq("abc", "abc"));
    assert!(!str_eq("abc", "abd"));
    assert!(str_eq("", ""));
}

fn empty_config() -> ChannelConfig {
    ChannelConfig {
        known_users: StrSet::new(),
        bot_admins: StrSet::new(),
        channel_text_commands: CmdMap::new(),
        command_blacklist: global_blacklist(),
    }
}

#[test]
fn role_owner_is_channel_base_name() {
    let cfg = empty_config();
    assert_eq!(get_role(&cfg, "foo", "#foo"), Role::Owner);
    assert_eq!(get_role(&cfg, "foo", "foo"), Role::Owner);
    assert_ne!(get_role(&cfg, "bar", "#foo"), Role::Owner);
}

#[test]
fn role_admin_is_mode() {
    let mut cfg = empty_config();
    cfg.bot_admins.insert("helper".to_owned());
    assert_eq!(get_role(&cfg, "helper", "#foo"), Role::Mode);
    assert_eq!(get_role(&cfg, "someone", "#foo"), Role::Peasant);
}

#[test]
fn global_blacklist_holds_reserved_triggers() {
    let b = global_blacklist();
    for t in ["reload-conf", "update", "edit", "add", "newmod"] {
        assert!(b.contains(t));
    }
    assert!(!b.contains("greet"));
}

#[test]
fn strset_insert_is_idempotent() {
    let mut s = StrSet::new();
    s.insert("a".to_owned());
    s.insert("a".to_owned());
    assert!(s.contains("a"));
    assert!(!s.contains("b"));
}

#[test]
fn default_channel_state_is_empty_with_reserved_blacklist() {
    let cfg = chatmod::load_channel_state("#anything");
    assert!(!cfg.known_users.contains("anyone"));
    assert!(!cfg.bot_admins.contains("anyone"));
    assert!(cfg.channel_text_commands.get("!x").is_none());
    assert!(cfg.command_blacklist.contains("update"));
    assert!(cfg.command_blacklist.contains("newmod"));
    chatmod::save_state();
}

#[test]
fn cmdmap_set_overwrites() {
    let mut m = CmdMap::new();
    assert!(m.get("!x").is_none());
    m.set("!x".to_owned(), "one".to_owned());
    assert_eq!(m.get("!x").unwrap(), "one");
    m.set("!x".to_owned(), "two".to_owned());
    assert_eq!(m.get("!x").unwrap(), "two");
}
