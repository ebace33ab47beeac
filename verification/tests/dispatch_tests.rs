use botcore::dispatch::{dispatch, CommandInput, ResolvedUser, VoiceTarget};
use botcore::text::u64_to_string;

fn empty_input() -> CommandInput {
    CommandInput { user: None, guild_id: None, voice_channel_id: None }
}

#[test]
fn ping_reply_is_fixed() {
    let out = dispatch("ping", &empty_input());
    assert_eq!(out.message, "Hey, I'm alive!");
    assert!(out.join.is_none());
}

#[test]
fn test_reply_is_fixed() {
    let out = dispatch("test", &empty_input());
    assert_eq!(out.message, "Test successful");
    assert!(out.join.is_none());
}

#[test]
fn unrecognized_names_get_exact_fallback() {
    assert_eq!(dispatch("frobnicate", &empty_input()).message, "not implemented :(");
    assert_eq!(dispatch("", &empty_input()).message, "not implemented :(");
    assert_eq!(dispatch("PING", &empty_input()).message, "not implemented :(");
}

#[test]
fn recognized_replies_are_nonempty() {
    let input = CommandInput { user: None, guild_id: Some(5), voice_channel_id: Some(7) };
    for name in ["ping", "test", "id", "join"] {
        assert!(!dispatch(name, &input).message.is_empty());
    }
}

#[test]
fn id_formats_resolved_user() {
    let input = CommandInput {
        user: Some(ResolvedUser { tag: "Alice#0001".to_string(), id: 42 }),
        guild_id: None,
        voice_channel_id: None,
    };
    let out = dispatch("id", &input);
    assert_eq!(out.message, "Alice#0001's id is 42");
    assert!(out.join.is_none());
}

#[test]
fn id_without_resolved_user_degrades() {
    let out = dispatch("id", &empty_input());
    assert_eq!(out.message, "Please provide a valid user");
    assert!(out.join.is_none());
}

#[test]
fn join_with_channel_targets_it() {
    let input = CommandInput { user: None, guild_id: Some(7), voice_channel_id: Some(9) };
    let out = dispatch("join", &input);
    assert_eq!(out.message, "tried to join");
    assert_eq!(out.join, Some(VoiceTarget { guild_id: 7, channel_id: 9 }));
}

#[test]
fn join_without_channel_is_recoverable() {
    let input = CommandInput { user: None, guild_id: Some(7), voice_channel_id: None };
    let out = dispatch("join", &input);
    assert_eq!(out.message, "Please join a voice channel first");
    assert!(out.join.is_none());
}

#[test]
fn join_outside_guild_is_recoverable() {
    let input = CommandInput { user: None, guild_id: None, voice_channel_id: Some(9) };
    let out = dispatch("join", &input);
    assert_eq!(out.message, "Please join a voice channel first");
    assert!(out.join.is_none());
}

#[test]
fn decimal_rendering_is_exact() {
    assert_eq!(u64_to_string(0), "0");
    assert_eq!(u64_to_string(9), "9");
    assert_eq!(u64_to_string(42), "42");
    assert_eq!(u64_to_string(705038806893592657), "705038806893592657");
    assert_eq!(u64_to_string(u64::MAX), "18446744073709551615");
}
