//! The voice session: a three-state connection machine
//! (disconnected, joining, connected) with a duration counter that grows by
//! one for each 60-second interval spent connected.

use vstd::prelude::*;

verus! {

/// Connection state of the voice session.
#[derive(Clone, Copy, PartialEq, Eq, Structural, Debug)]
pub enum VoiceConnState {
    Disconnected,
    Joining,
    Connected,
}

/// Events the voice transport reports while a session is up: a queued track
/// finished, or a fixed 60-second interval elapsed.
#[derive(Clone, Copy, PartialEq, Eq, Structural, Debug)]
pub enum VoiceEvent {
    TrackEnd,
    PeriodicTick,
}

/// A voice session: its connection state, the channel it targets while
/// joining or connected, and the elapsed 60-second intervals while connected.
#[derive(Clone, Copy, PartialEq, Eq, Debug)]
pub struct VoiceSession {
    pub state: VoiceConnState,
    pub channel_id: Option<u64>,
    pub duration_ticks: u64,
}

/// A join attempt aims the session at `channel_id` and leaves it joining.
pub open spec fn spec_begin_join(s: VoiceSession, channel_id: u64) -> VoiceSession {
    VoiceSession { state: VoiceConnState::Joining, channel_id: Some(channel_id), duration_ticks: s.duration_ticks }
}

/// The transport's answer to a join attempt: success connects the session
/// and starts its duration counter at zero; failure tears it down.
pub open spec fn spec_complete_join(s: VoiceSession, success: bool) -> VoiceSession {
    if success {
        VoiceSession { state: VoiceConnState::Connected, channel_id: s.channel_id, duration_ticks: 0 }
    } else {
        VoiceSession { state: VoiceConnState::Disconnected, channel_id: None, duration_ticks: s.duration_ticks }
    }
}

/// A periodic tick adds one interval while connected (saturating at the
/// machine limit) and changes nothing in any other state.
pub open spec fn spec_tick(s: VoiceSession) -> VoiceSession {
    if s.state is Connected {
        VoiceSession {
            state: s.state,
            channel_id: s.channel_id,
            duration_ticks: if s.duration_ticks < u64::MAX {
                (s.duration_ticks + 1) as u64
            } else {
                s.duration_ticks
            },
        }
    } else {
        s
    }
}

/// Teardown: the session is disconnected and its counter frozen.
pub open spec fn spec_disconnect(s: VoiceSession) -> VoiceSession {
    VoiceSession { state: VoiceConnState::Disconnected, channel_id: None, duration_ticks: s.duration_ticks }
}

/// How a voice event acts on a session: a track ending is a hook point that
/// deliberately does nothing yet; a periodic tick counts an interval.
pub open spec fn spec_voice_event(s: VoiceSession, ev: VoiceEvent) -> VoiceSession {
    match ev {
        VoiceEvent::TrackEnd => s,
        VoiceEvent::PeriodicTick => spec_tick(s),
    }
}

/// The duration counter grows by exactly one per tick while the session is
/// connected (below the machine limit), and a tick after teardown, or in any
/// unconnected state, changes nothing at all.
pub proof fn lemma_tick_counts(s: VoiceSession)
    ensures
        s.state is Connected && s.duration_ticks < u64::MAX ==> spec_tick(s).duration_ticks == s.duration_ticks + 1,
        !(s.state is Connected) ==> spec_tick(s) == s,
        spec_tick(spec_disconnect(s)) == spec_disconnect(s),
{
}

impl VoiceSession {
    /// A fresh session: disconnected, no channel, zero elapsed intervals.
    pub fn new() -> (s: VoiceSession)
        ensures
            s.state is Disconnected,
            s.channel_id is None,
            s.duration_ticks == 0,
    {
        VoiceSession { state: VoiceConnState::Disconnected, channel_id: None, duration_ticks: 0 }
    }

    /// Starts a join attempt toward `channel_id`.
    pub fn begin_join(&mut self, channel_id: u64)
        ensures
            *final(self) == spec_begin_join(*old(self), channel_id),
    {
        self.state = VoiceConnState::Joining;
        self.channel_id = Some(channel_id);
    }

    /// Applies the transport's join result.
    pub fn complete_join(&mut self, success: bool)
        ensures
            *final(self) == spec_complete_join(*old(self), success),
    {
        if success {
            self.state = VoiceConnState::Connected;
            self.duration_ticks = 0;
        } else {
            self.state = VoiceConnState::Disconnected;
            self.channel_id = None;
        }
    }

    /// Reacts to one voice event: a periodic tick counts an interval while
    /// connected; a track ending changes nothing (hook point, left open on
    /// purpose).
    pub fn on_voice_event(&mut self, ev: VoiceEvent)
        ensures
            *final(self) == spec_voice_event(*old(self), ev),
    {
        match ev {
            VoiceEvent::TrackEnd => {},
            VoiceEvent::PeriodicTick => {
                if matches!(self.state, VoiceConnState::Connected) {
                    if self.duration_ticks < u64::MAX {
                        self.duration_ticks = self.duration_ticks + 1;
                    }
                }
            },
        }
    }

    /// Tears the session down; the counter stops and keeps its last value.
    pub fn disconnect(&mut self)
        ensures
            *final(self) == spec_disconnect(*old(self)),
    {
        self.state = VoiceConnState::Disconnected;
        self.channel_id = None;
    }
}

} // verus!
