//! The event handler: the bot's owned state and one function per lifecycle
//! event. The hosting process feeds events in, performs the side effects the
//! decisions call for (register the command set, send the reply, connect to
//! voice), and reports results back.

use vstd::prelude::*;

use crate::counter::CommandCounter;
use crate::dispatch::{
    dispatch, spec_join_target, spec_response, CommandInput, InteractionOutcome,
};
use crate::voice::{
    spec_begin_join, spec_complete_join, spec_voice_event, VoiceConnState, VoiceEvent,
    VoiceSession,
};

verus! {

/// The bot's owned mutable state: whether the startup registration has run,
/// the per-command invocation counter, and the voice session.
pub struct Bot {
    pub registered: bool,
    pub counter: CommandCounter,
    pub voice: VoiceSession,
}

impl Bot {
    /// A fresh bot: not yet registered, all counts zero, voice disconnected.
    pub fn new() -> (b: Bot)
        ensures
            !b.registered,
            forall|name: Seq<char>| b.counter.count_of(name) == 0,
            b.voice.state is Disconnected,
            b.voice.channel_id is None,
            b.voice.duration_ticks == 0,
    {
        Bot { registered: false, counter: CommandCounter::new(), voice: VoiceSession::new() }
    }

    /// Handles the `ready` event: answers whether the fixed command set
    /// should be registered now — true on the first connection only — and
    /// remembers that registration has run.
    pub fn on_ready(&mut self) -> (register_now: bool)
        ensures
            register_now == !old(self).registered,
            final(self).registered,
            final(self).counter == old(self).counter,
            final(self).voice == old(self).voice,
    {
        let first = !self.registered;
        self.registered = true;
        first
    }

    /// Handles one interaction: counts the invocation under its command
    /// name, decides the single reply, and, where `join` resolved a voice
    /// channel, aims the voice session at it.
    pub fn on_interaction(&mut self, name: &str, input: &CommandInput) -> (out: InteractionOutcome)
        ensures
            out.message@ == spec_response(name@, *input),
            out.message@.len() > 0,
            out.join == (if name@ == "join"@ {
                spec_join_target(*input)
            } else {
                None
            }),
            final(self).counter.count_of(name@) == (if old(self).counter.count_of(name@)
                < u64::MAX {
                old(self).counter.count_of(name@) + 1
            } else {
                old(self).counter.count_of(name@) as int
            }),
            forall|other: Seq<char>| other != name@ ==> final(self).counter.count_of(other) == old(
                self,
            ).counter.count_of(other),
            final(self).registered == old(self).registered,
            out.join is Some ==> final(self).voice == spec_begin_join(
                old(self).voice,
                out.join->0.channel_id,
            ),
            out.join is None ==> final(self).voice == old(self).voice,
    {
        self.counter.record(name);
        let out = dispatch(name, input);
        if let Some(target) = out.join {
            self.voice.begin_join(target.channel_id);
        }
        out
    }

    /// Applies the voice transport's answer to a join attempt.
    pub fn on_join_result(&mut self, success: bool)
        ensures
            final(self).voice == spec_complete_join(old(self).voice, success),
            final(self).counter == old(self).counter,
            final(self).registered == old(self).registered,
    {
        self.voice.complete_join(success);
    }

    /// Applies one voice event (track end, or the 60-second periodic tick).
    pub fn on_voice_event(&mut self, ev: VoiceEvent)
        ensures
            final(self).voice == spec_voice_event(old(self).voice, ev),
            final(self).counter == old(self).counter,
            final(self).registered == old(self).registered,
    {
        self.voice.on_voice_event(ev);
    }

    /// Handles the bot being removed from the voice channel.
    pub fn on_voice_disconnect(&mut self)
        ensures
            final(self).voice.state is Disconnected,
            final(self).voice.channel_id is None,
            final(self).voice.duration_ticks == old(self).voice.duration_ticks,
            final(self).counter == old(self).counter,
            final(self).registered == old(self).registered,
    {
        self.voice.disconnect();
    }
}

} // verus!
