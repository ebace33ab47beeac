use botcore::dispatch::CommandInput;
use botcore::handler::Bot;
use botcore::voice::{VoiceConnState, VoiceEvent};

fn empty_input() -> CommandInput {
    CommandInput { user: None, guild_id: None, voice_channel_id: None }
}

#[test]
fn ready_registers_on_first_connection_only() {
    let mut bot = Bot::new();
    assert!(bot.on_ready());
    assert!(!bot.on_ready());
    assert!(!bot.on_ready());
}

#[test]
fn counter_increments_by_one_per_dispatch() {
    let mut bot = Bot::new();
    assert_eq!(bot.counter.count("ping"), 0);
    bot.on_interaction("ping", &empty_input());
    bot.on_interaction("ping", &empty_input());
    bot.on_interaction("id", &empty_input());
    bot.on_interaction("mystery", &empty_input());
    assert_eq!(bot.counter.count("ping"), 2);
    assert_eq!(bot.counter.count("id"), 1);
    assert_eq!(bot.counter.count("mystery"), 1);
    assert_eq!(bot.counter.count("join"), 0);
}

#[test]
fn duration_counts_only_while_connected() {
    let mut bot = Bot::new();
    let input = CommandInput { user: None, guild_id: Some(1), voice_channel_id: Some(2) };
    let out = bot.on_interaction("join", &input);
    assert_eq!(out.message, "tried to join");
    assert!(out.join.is_some());
    assert!(matches!(bot.voice.state, VoiceConnState::Joining));
    bot.on_join_result(true);
    assert!(matches!(bot.voice.state, VoiceConnState::Connected));
    assert_eq!(bot.voice.duration_ticks, 0);
    bot.on_voice_event(VoiceEvent::PeriodicTick);
    bot.on_voice_event(VoiceEvent::PeriodicTick);
    assert_eq!(bot.voice.duration_ticks, 2);
    bot.on_voice_event(VoiceEvent::TrackEnd);
    assert_eq!(bot.voice.duration_ticks, 2);
    bot.on_voice_disconnect();
    bot.on_voice_event(VoiceEvent::PeriodicTick);
    assert_eq!(bot.voice.duration_ticks, 2);
    assert!(matches!(bot.voice.state, VoiceConnState::Disconnected));
}

#[test]
fn join_without_channel_leaves_voice_down() {
    let mut bot = Bot::new();
    let input = CommandInput { user: None, guild_id: Some(1), voice_channel_id: None };
    let out = bot.on_interaction("join", &input);
    assert_eq!(out.message, "Please join a voice channel first");
    assert!(out.join.is_none());
    assert!(matches!(bot.voice.state, VoiceConnState::Disconnected));
}

#[test]
fn failed_join_tears_the_session_down() {
    let mut bot = Bot::new();
    let input = CommandInput { user: None, guild_id: Some(1), voice_channel_id: Some(2) };
    bot.on_interaction("join", &input);
    bot.on_join_result(false);
    assert!(matches!(bot.voice.state, VoiceConnState::Disconnected));
    assert!(bot.voice.channel_id.is_none());
}
