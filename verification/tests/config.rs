use noalbsgui::config::{default_true, Chat, ChatPlatform, CommandInfo, OptionalOptions, OptionalScenes};

#[test]
fn chat_defaults() {
    let c = Chat::default();
    assert_eq!(c.platform, ChatPlatform::Twitch);
    assert_eq!(c.username, "");
    assert!(c.admins.is_empty());
    assert!(c.ignore_users.is_empty());
    assert_eq!(c.language, "EN");
    assert_eq!(c.prefix, "!");
    assert!(c.enable_public_commands);
    assert!(c.enable_mod_commands);
    assert!(!c.enable_auto_stop_stream_on_host_or_raid);
    assert!(!c.announce_raid_on_auto_stop);
    assert!(c.commands.is_none());
}

#[test]
fn optional_defaults() {
    let o = OptionalOptions::default();
    assert!(!o.twitch_transcoding_check);
    assert_eq!(o.twitch_transcoding_retries, 5);
    assert_eq!(o.twitch_transcoding_delay_seconds, 15);
    assert_eq!(o.offline_timeout, None);
    assert!(!o.record_while_streaming);
    assert!(!o.switch_to_starting_scene_on_stream_start);
    assert!(!o.switch_from_starting_scene_to_live_scene);
    let s = OptionalScenes::default();
    assert!(s.starting.is_none() && s.ending.is_none() && s.privacy.is_none() && s.refresh.is_none());
    let ci = CommandInfo::default();
    assert!(ci.permission.is_none() && ci.user_permissions.is_none() && ci.alias.is_none());
    assert!(default_true());
}
