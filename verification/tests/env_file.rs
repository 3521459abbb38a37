use noalbsgui::env_file::{parse_env, render_env, EnvValues};

#[test]
fn empty_env_has_no_values() {
    let v = parse_env("");
    assert_eq!(v, EnvValues::default());
}

#[test]
fn reads_known_keys() {
    let v = parse_env("# comment\nTWITCH_BOT_USERNAME=bob\nTWITCH_BOT_OAUTH=oauth:abc\nCUSTOM=1\n");
    assert_eq!(v.twitch_bot_username.as_deref(), Some("bob"));
    assert_eq!(v.twitch_bot_oauth.as_deref(), Some("oauth:abc"));
    assert_eq!(v.api_port, None);
}

#[test]
fn write_preserves_unknown_lines_and_updates_in_place() {
    let existing = "# my notes\nTWITCH_BOT_USERNAME=old\nCUSTOM=keep\n";
    let v = EnvValues {
        twitch_bot_username: Some("new".into()),
        twitch_bot_oauth: Some("oauth:x".into()),
        api_port: Some("8080".into()),
        log_dir: None,
    };
    let content = render_env(existing, &v);
    assert!(content.contains("# my notes"));
    assert!(content.contains("CUSTOM=keep"));
    assert!(content.contains("TWITCH_BOT_USERNAME=new"));
    assert!(!content.contains("TWITCH_BOT_USERNAME=old"));
    assert!(content.contains("TWITCH_BOT_OAUTH=oauth:x")); // appended
    assert!(content.contains("API_PORT=8080")); // appended
    // round-trips
    let reread = parse_env(&content);
    assert_eq!(reread, v);
}

#[test]
fn clearing_a_value_removes_the_line() {
    let existing = "API_PORT=8080\nTWITCH_BOT_USERNAME=bob\n";
    let v = EnvValues { twitch_bot_username: Some("bob".into()), api_port: None, ..Default::default() };
    let content = render_env(existing, &v);
    assert!(!content.contains("API_PORT"));
    assert!(content.contains("TWITCH_BOT_USERNAME=bob"));
}

#[test]
fn render_exact_layout() {
    let existing = "# top\r\n  API_PORT = 1 \nOTHER=x\n\nLOG_DIR=/tmp";
    let v = EnvValues {
        twitch_bot_username: None,
        twitch_bot_oauth: Some("tok".into()),
        api_port: Some("9".into()),
        log_dir: None,
    };
    assert_eq!(render_env(existing, &v), "# top\nAPI_PORT=9\nOTHER=x\n\nTWITCH_BOT_OAUTH=tok\n");
    assert_eq!(render_env("", &EnvValues::default()), "");
}

#[test]
fn last_line_wins_and_values_are_verbatim() {
    let v = parse_env("LOG_DIR=a\n #LOG_DIR=b\nLOG_DIR= c \n  TWITCH_BOT_USERNAME =x=y\nnot a pair\n");
    assert_eq!(v.log_dir.as_deref(), Some(" c "));
    assert_eq!(v.twitch_bot_username.as_deref(), Some("x=y"));
    assert_eq!(v.api_port, None);
}

#[test]
fn duplicate_managed_lines_are_all_updated() {
    let content = render_env("API_PORT=1\nAPI_PORT=2\n", &EnvValues { api_port: Some("3".into()), ..Default::default() });
    assert_eq!(content, "API_PORT=3\nAPI_PORT=3\n");
}

#[test]
fn writing_twice_is_writing_once() {
    let v = EnvValues {
        twitch_bot_username: Some("bob".into()),
        api_port: Some("8080".into()),
        log_dir: None,
        ..Default::default()
    };
    for existing in ["", "# notes\r\nLOG_DIR=/x\nCUSTOM = 1\n\nAPI_PORT=1", "\n", "API_PORT=2\r\nAPI_PORT=3"] {
        let once = render_env(existing, &v);
        assert_eq!(render_env(&once, &v), once, "{existing:?}");
    }
}
