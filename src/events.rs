use vstd::prelude::*;

verus! {

/// A fader stops its track once the volume falls below this many millionths.
pub const FADE_FLOOR: u32 = 10_000;

/// Seconds between two firings of a fader.
pub const FADE_PERIOD_SECS: u64 = 5;

/// Longest wait, in seconds, before a fader's first firing.
pub const FADE_JITTER_SECS: u64 = 7;

/// Seconds between two firings of a presence counter.
pub const PRESENCE_PERIOD_SECS: u64 = 60;

/// A message for the text channel of a session, or for the diagnostics log.
#[derive(Clone, Copy, Debug, PartialEq, Eq, Structural)]
pub enum Notice {
    /// Playback of a track ended.
    TrackEnded,
    /// A fader is stopping its track.
    StoppingSong,
    /// A fader halved the volume of its track.
    VolumeReduced,
    /// A faded track is over.
    SongFadedOut,
    /// The session has been connected to `channel` for `minutes` minutes.
    Presence { channel: u64, minutes: u64 },
}

/// What the media engine and the text sink are asked to do.
#[derive(Clone, Copy, Debug, PartialEq, Eq, Structural)]
pub enum Effect {
    /// Post the notice to the session's text channel.
    Say(Notice),
    /// Record the notice for diagnostics.
    Log(Notice),
    SetVolume { track: u64, volume: u32 },
    StopTrack { track: u64 },
    /// End the head of the playback queue and start the next item.
    SkipCurrent,
    /// Clear the playback queue.
    StopQueue,
    PauseQueue,
    ResumeQueue,
}

/// When a subscription fires.
#[derive(Clone, Copy, Debug, PartialEq, Eq, Structural)]
pub enum Trigger {
    /// Once, when playback of a track ends.
    TrackEnd,
    /// Every `period_secs` seconds, the first time after at most
    /// `jitter_secs` more.
    Interval { period_secs: u64, jitter_secs: Option<u64> },
}

/// What a subscription does when it fires, with its private state.
#[derive(Clone, Copy, Debug, PartialEq, Eq, Structural)]
pub enum Handler {
    /// Halves the volume of its track on each firing; below `FADE_FLOOR` it
    /// stops the track and cancels itself.
    Fader { volume: u32 },
    /// Counts the minutes spent connected to a voice channel.
    Presence { channel: u64, minutes: u64 },
    /// Announces the end of a track and clears the queue.
    QueueEndNotifier,
    /// Announces that a faded track is over.
    SongEndNotifier,
}

/// A live subscription of a session. `track` is `None` for an ambient one,
/// which lives as long as its session.
#[derive(Clone, Copy, Debug, PartialEq, Eq, Structural)]
pub struct Subscription {
    pub id: u64,
    pub track: Option<u64>,
    pub trigger: Trigger,
    pub handler: Handler,
}

/// The outcome of one firing of `h` for `track`: the handler's next state, or
/// `None` when it cancels itself, and the effects it asks for.
pub open spec fn fire(h: Handler, track: u64) -> (Option<Handler>, Seq<Effect>) {
    match h {
        Handler::Fader { volume } => {
            let v = (volume / 2) as u32;
            if v < FADE_FLOOR {
                (
                    None,
                    seq![
                        Effect::SetVolume { track, volume: v },
                        Effect::StopTrack { track },
                        Effect::Say(Notice::StoppingSong),
                    ],
                )
            } else {
                (
                    Some(Handler::Fader { volume: v }),
                    seq![Effect::SetVolume { track, volume: v }, Effect::Say(Notice::VolumeReduced)],
                )
            }
        },
        Handler::Presence { channel, minutes } => {
            let m = if minutes < u64::MAX { (minutes + 1) as u64 } else { minutes };
            (
                Some(Handler::Presence { channel, minutes: m }),
                seq![Effect::Log(Notice::Presence { channel, minutes: m })],
            )
        },
        Handler::QueueEndNotifier => (
            Some(h),
            seq![Effect::Say(Notice::TrackEnded), Effect::StopQueue],
        ),
        Handler::SongEndNotifier => (Some(h), seq![Effect::Say(Notice::SongFadedOut)]),
    }
}

impl Handler {
    /// Fires the handler once for `track`.
    pub fn on_fire(self, track: u64) -> (r: (Option<Handler>, Vec<Effect>))
        ensures
            r.0 == fire(self, track).0,
            r.1@ == fire(self, track).1,
    {
        let mut effects: Vec<Effect> = Vec::new();
        match self {
            Handler::Fader { volume } => {
                let v = volume / 2;
                effects.push(Effect::SetVolume { track, volume: v });
                if v < FADE_FLOOR {
                    effects.push(Effect::StopTrack { track });
                    effects.push(Effect::Say(Notice::StoppingSong));
                    proof {
                        assert(effects@ =~= fire(self, track).1);
                    }
                    (None, effects)
                } else {
                    effects.push(Effect::Say(Notice::VolumeReduced));
                    proof {
                        assert(effects@ =~= fire(self, track).1);
                    }
                    (Some(Handler::Fader { volume: v }), effects)
                }
            },
            Handler::Presence { channel, minutes } => {
                let m = if minutes < u64::MAX { minutes + 1 } else { minutes };
                effects.push(Effect::Log(Notice::Presence { channel, minutes: m }));
                proof {
                    assert(effects@ =~= fire(self, track).1);
                }
                (Some(Handler::Presence { channel, minutes: m }), effects)
            },
            Handler::QueueEndNotifier => {
                effects.push(Effect::Say(Notice::TrackEnded));
                effects.push(Effect::StopQueue);
                proof {
                    assert(effects@ =~= fire(self, track).1);
                }
                (Some(self), effects)
            },
            Handler::SongEndNotifier => {
                effects.push(Effect::Say(Notice::SongFadedOut));
                proof {
                    assert(effects@ =~= fire(self, track).1);
                }
                (Some(self), effects)
            },
        }
    }
}

/// A new fader at full volume.
pub open spec fn fresh_fader() -> Handler {
    Handler::Fader { volume: crate::queue::FULL_VOLUME }
}

/// Runs `n` firings of a handler that starts as `h` (`None`: cancelled),
/// collecting the effects; a cancelled handler is no longer fired.
pub open spec fn run(h: Option<Handler>, track: u64, n: nat) -> (Option<Handler>, Seq<Effect>)
    decreases n,
{
    if n == 0 {
        (h, Seq::empty())
    } else {
        let (h1, e1) = run(h, track, (n - 1) as nat);
        match h1 {
            None => (None, e1),
            Some(g) => (fire(g, track).0, e1 + fire(g, track).1),
        }
    }
}

/// Number of "stopping" notices among the effects.
pub open spec fn stop_notices(e: Seq<Effect>) -> nat
    decreases e.len(),
{
    if e.len() == 0 {
        0
    } else {
        stop_notices(e.drop_last()) + if e.last() == Effect::Say(Notice::StoppingSong) {
            1nat
        } else {
            0nat
        }
    }
}

proof fn lemma_stop_notices_concat(a: Seq<Effect>, b: Seq<Effect>)
    ensures
        stop_notices(a + b) == stop_notices(a) + stop_notices(b),
    decreases b.len(),
{
    if b.len() == 0 {
        assert(a + b =~= a);
    } else {
        lemma_stop_notices_concat(a, b.drop_last());
        assert((a + b).drop_last() =~= a + b.drop_last());
    }
}


proof fn lemma_fire_notices(h: Handler, track: u64)
    ensures
        stop_notices(fire(h, track).1) == (if fire(h, track).0 is None { 1nat } else { 0nat }),
{
    let e = fire(h, track).1;
    reveal_with_fuel(stop_notices, 4);
    if e.len() == 3 {
        assert(e.drop_last().drop_last().drop_last() =~= Seq::<Effect>::empty());
    } else if e.len() == 2 {
        assert(e.drop_last().drop_last() =~= Seq::<Effect>::empty());
    } else {
        assert(e.drop_last() =~= Seq::<Effect>::empty());
    }
}

/// Volume of a fader that started at full volume, after `n` firings.
pub open spec fn faded_volume(n: nat) -> u32
    decreases n,
{
    if n == 0 {
        crate::queue::FULL_VOLUME
    } else {
        (faded_volume((n - 1) as nat) / 2) as u32
    }
}

/// A fader that starts at full volume halves it on each of its first six
/// firings without stopping; the seventh brings the volume under
/// `FADE_FLOOR`, stops the track and cancels the fader. However often it is
/// fired, it posts at most one "stopping" notice, and exactly one from the
/// seventh firing on.
pub proof fn lemma_fader_stops_once(track: u64, n: nat)
    ensures
        n < 7 ==> run(Some(fresh_fader()), track, n).0 == Some(Handler::Fader { volume: faded_volume(n) }),
        n < 7 ==> stop_notices(run(Some(fresh_fader()), track, n).1) == 0,
        n >= 7 ==> run(Some(fresh_fader()), track, n).0 is None,
        n >= 7 ==> stop_notices(run(Some(fresh_fader()), track, n).1) == 1,
    decreases n,
{
    if n == 0 {
        assert(stop_notices(Seq::<Effect>::empty()) == 0);
    } else {
        let m = (n - 1) as nat;
        lemma_fader_stops_once(track, m);
        reveal_with_fuel(faded_volume, 8);
        let (h1, e1) = run(Some(fresh_fader()), track, m);
        if n <= 7 {
            let g = h1.unwrap();
            lemma_fire_notices(g, track);
            lemma_stop_notices_concat(e1, fire(g, track).1);
        }
    }
}


/// Number of firings a fader that starts at volume `v` lasts: it cancels
/// itself on the first firing that halves the volume below `FADE_FLOOR`.
pub open spec fn fader_life(v: u32) -> nat
    decreases v,
{
    if v / 2 < FADE_FLOOR {
        1
    } else {
        1 + fader_life((v / 2) as u32)
    }
}

/// Volume of a fader that started at `v`, after `n` halvings.
pub open spec fn halved(v: u32, n: nat) -> u32
    decreases n,
{
    if n == 0 {
        v
    } else {
        (halved(v, (n - 1) as nat) / 2) as u32
    }
}

/// A fader that starts at any volume `v` halves it on each firing before
/// the last of its `fader_life(v)` firings, without stopping; on that last
/// firing it stops the track and cancels itself. However often it is fired,
/// it posts at most one "stopping" notice, and exactly one from then on.
pub proof fn lemma_fader_stops_once_from(v: u32, track: u64, n: nat)
    ensures
        n < fader_life(v) ==> run(Some(Handler::Fader { volume: v }), track, n).0 == Some(
            Handler::Fader { volume: halved(v, n) },
        ),
        n < fader_life(v) ==> fader_life(halved(v, n)) == fader_life(v) - n,
        n < fader_life(v) ==> stop_notices(run(Some(Handler::Fader { volume: v }), track, n).1) == 0,
        n >= fader_life(v) ==> run(Some(Handler::Fader { volume: v }), track, n).0 is None,
        n >= fader_life(v) ==> stop_notices(run(Some(Handler::Fader { volume: v }), track, n).1) == 1,
    decreases n,
{
    assert(fader_life(v) >= 1);
    if n == 0 {
        assert(stop_notices(Seq::<Effect>::empty()) == 0);
    } else {
        let m = (n - 1) as nat;
        lemma_fader_stops_once_from(v, track, m);
        let (h1, e1) = run(Some(Handler::Fader { volume: v }), track, m);
        if n <= fader_life(v) {
            let w = halved(v, m);
            assert(fader_life(w) == if w / 2 < FADE_FLOOR { 1 } else { 1 + fader_life((w / 2) as u32) });
            assert(halved(v, n) == (w / 2) as u32);
            let g = h1.unwrap();
            lemma_fire_notices(g, track);
            lemma_stop_notices_concat(e1, fire(g, track).1);
        }
    }
}

/// From full volume a fader lasts seven firings.
pub proof fn lemma_full_fader_life()
    ensures
        fader_life(crate::queue::FULL_VOLUME) == 7,
        forall|v: u32| v <= crate::queue::FULL_VOLUME ==> fader_life(v) <= 7,
{
    reveal_with_fuel(fader_life, 8);
    assert forall|v: u32| v <= crate::queue::FULL_VOLUME implies fader_life(v) <= 7 by {
        lemma_fader_life_monotone(v, crate::queue::FULL_VOLUME);
    }
}

proof fn lemma_fader_life_monotone(a: u32, b: u32)
    requires
        a <= b,
    ensures
        fader_life(a) <= fader_life(b),
    decreases b,
{
    if a / 2 >= FADE_FLOOR {
        lemma_fader_life_monotone((a / 2) as u32, (b / 2) as u32);
    }
}

} // verus!
