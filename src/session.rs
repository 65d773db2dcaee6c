use vstd::prelude::*;
use crate::events::{fire, Effect, Handler, Subscription, Trigger, FADE_JITTER_SECS, FADE_PERIOD_SECS, PRESENCE_PERIOD_SECS};
use crate::queue::{
    empty_queue, queue_paused, queue_pushed, queue_resumed, queue_skipped, queue_stopped, ItemModel,
    PlaybackQueue, QueueModel, FULL_VOLUME,
};
use crate::events::Notice;

verus! {

/// The voice session of one guild: its connection flags, its playback queue
/// and its live event subscriptions.
pub struct VoiceSession {
    guild: u64,
    voice_channel: u64,
    text_channel: u64,
    muted: bool,
    deafened: bool,
    queue: PlaybackQueue,
    subs: Vec<Subscription>,
    next_id: u64,
}

/// Mathematical value of a `VoiceSession`. `next_id` is the next identifier
/// handed to a track or a subscription.
pub struct SessionModel {
    pub guild: u64,
    pub voice_channel: u64,
    pub text_channel: u64,
    pub muted: bool,
    pub deafened: bool,
    pub queue: QueueModel,
    pub subs: Seq<Subscription>,
    pub next_id: u64,
}

impl View for VoiceSession {
    type V = SessionModel;

    closed spec fn view(&self) -> SessionModel {
        SessionModel {
            guild: self.guild,
            voice_channel: self.voice_channel,
            text_channel: self.text_channel,
            muted: self.muted,
            deafened: self.deafened,
            queue: self.queue@,
            subs: self.subs@,
            next_id: self.next_id,
        }
    }
}

/// Identifiers are taken from a counter; a track that has subscriptions of
/// its own is never a queue item.
pub open spec fn session_wf(s: SessionModel) -> bool {
    &&& forall|i: int| 0 <= i < s.subs.len() ==> #[trigger] s.subs[i].id < s.next_id
    &&& forall|i: int|
        0 <= i < s.subs.len() && (#[trigger] s.subs[i]).track is Some ==> s.subs[i].track->0
            < s.next_id
    &&& forall|j: int| 0 <= j < s.queue.items.len() ==> #[trigger] s.queue.items[j].track < s.next_id
    &&& forall|i: int, j: int|
        0 <= i < s.subs.len() && 0 <= j < s.queue.items.len() ==> (#[trigger] s.subs[i]).track
            != Some((#[trigger] s.queue.items[j]).track)
}

/// The session as it stands right after joining: nothing queued, and the two
/// ambient subscriptions, a track-end notifier and a presence counter.
pub open spec fn fresh_session(guild: u64, voice_channel: u64, text_channel: u64) -> SessionModel {
    SessionModel {
        guild,
        voice_channel,
        text_channel,
        muted: false,
        deafened: false,
        queue: empty_queue(),
        subs: seq![
            Subscription { id: 0, track: None, trigger: Trigger::TrackEnd, handler: Handler::QueueEndNotifier },
            Subscription {
                id: 1,
                track: None,
                trigger: Trigger::Interval { period_secs: PRESENCE_PERIOD_SECS, jitter_secs: None },
                handler: Handler::Presence { channel: voice_channel, minutes: 0 },
            },
        ],
        next_id: 2,
    }
}

/// `s` with another queue and other subscriptions.
pub open spec fn with_parts(s: SessionModel, queue: QueueModel, subs: Seq<Subscription>) -> SessionModel {
    SessionModel {
        guild: s.guild,
        voice_channel: s.voice_channel,
        text_channel: s.text_channel,
        muted: s.muted,
        deafened: s.deafened,
        queue,
        subs,
        next_id: s.next_id,
    }
}

/// `s` with other connection flags.
pub open spec fn with_flags(s: SessionModel, muted: bool, deafened: bool) -> SessionModel {
    SessionModel {
        guild: s.guild,
        voice_channel: s.voice_channel,
        text_channel: s.text_channel,
        muted,
        deafened,
        queue: s.queue,
        subs: s.subs,
        next_id: s.next_id,
    }
}

/// `i` is the first position of a subscription with identifier `id`.
pub open spec fn first_with_id(subs: Seq<Subscription>, id: u64, i: int) -> bool {
    &&& 0 <= i < subs.len()
    &&& subs[i].id == id
    &&& forall|j: int| 0 <= j < i ==> #[trigger] subs[j].id != id
}

/// The subscription with identifier `id` is live and fires on an interval.
pub open spec fn periodic_live(s: SessionModel, id: u64) -> bool {
    exists|i: int| first_with_id(s.subs, id, i) && s.subs[i].trigger is Interval
}

/// A periodic firing of subscription `id`: the next session and the effects.
/// A firing for a subscription that is gone changes nothing.
pub open spec fn periodic_fired(s: SessionModel, id: u64) -> (SessionModel, Seq<Effect>) {
    if periodic_live(s, id) {
        let i = choose|i: int| first_with_id(s.subs, id, i) && s.subs[i].trigger is Interval;
        let sub = s.subs[i];
        let track = match sub.track {
            Some(t) => t,
            None => 0,
        };
        let r = fire(sub.handler, track);
        let subs = match r.0 {
            None => s.subs.remove(i),
            Some(g) => s.subs.update(
                i,
                Subscription { id: sub.id, track: sub.track, trigger: sub.trigger, handler: g },
            ),
        };
        (with_parts(s, s.queue, subs), r.1)
    } else {
        (s, Seq::empty())
    }
}

/// What the end of `track` does to one subscription: what is left of it, the
/// effects, and whether it clears the queue. Track-end subscriptions of the
/// track, and ambient ones, fire; the track's own subscriptions all go.
pub open spec fn end_step(sub: Subscription, track: u64) -> (Option<Subscription>, Seq<Effect>, bool) {
    if sub.trigger is TrackEnd && (sub.track is None || sub.track == Some(track)) {
        let r = fire(sub.handler, track);
        let left = if sub.track is None {
            match r.0 {
                Some(g) => Some(
                    Subscription { id: sub.id, track: sub.track, trigger: sub.trigger, handler: g },
                ),
                None => None,
            }
        } else {
            None
        };
        (left, r.1, sub.handler is QueueEndNotifier)
    } else if sub.track == Some(track) {
        (None, Seq::empty(), false)
    } else {
        (Some(sub), Seq::empty(), false)
    }
}

/// `end_step` over all subscriptions, in order.
pub open spec fn end_all(subs: Seq<Subscription>, track: u64) -> (Seq<Subscription>, Seq<Effect>, bool)
    decreases subs.len(),
{
    if subs.len() == 0 {
        (Seq::empty(), Seq::empty(), false)
    } else {
        let r = end_all(subs.drop_last(), track);
        let l = end_step(subs.last(), track);
        let kept = match l.0 {
            Some(x) => r.0.push(x),
            None => r.0,
        };
        (kept, r.1 + l.1, r.2 || l.2)
    }
}

/// `track` is the head of the queue, or has subscriptions of its own.
pub open spec fn track_live(s: SessionModel, track: u64) -> bool {
    ||| (s.queue.items.len() > 0 && s.queue.items[0].track == track)
    ||| exists|i: int| 0 <= i < s.subs.len() && s.subs[i].track == Some(track)
}

/// The end of `track`, as the media engine reports it: the next session and
/// the effects. The end of a track that is no longer live changes nothing.
pub open spec fn track_ended(s: SessionModel, track: u64) -> (SessionModel, Seq<Effect>) {
    if track_live(s, track) {
        let q = if s.queue.items.len() > 0 && s.queue.items[0].track == track {
            queue_skipped(s.queue)
        } else {
            s.queue
        };
        let r = end_all(s.subs, track);
        let q = if r.2 {
            queue_stopped(q)
        } else {
            q
        };
        (with_parts(s, q, r.0), r.1)
    } else {
        (s, Seq::empty())
    }
}

/// Every subscription that `end_all` keeps stands, with the same identifier
/// and track, among the ones it was given.
proof fn lemma_end_all_kept(subs: Seq<Subscription>, track: u64)
    ensures
        forall|k: int|
            0 <= k < end_all(subs, track).0.len() ==> exists|i: int|
                0 <= i < subs.len() && subs[i].id == (#[trigger] end_all(subs, track).0[k]).id
                    && subs[i].track == end_all(subs, track).0[k].track,
    decreases subs.len(),
{
    if subs.len() > 0 {
        lemma_end_all_kept(subs.drop_last(), track);
        let r = end_all(subs.drop_last(), track);
        let l = end_step(subs.last(), track);
        let kept = end_all(subs, track).0;
        assert forall|k: int| 0 <= k < kept.len() implies exists|i: int|
            0 <= i < subs.len() && subs[i].id == (#[trigger] kept[k]).id && subs[i].track
                == kept[k].track by {
            if k < r.0.len() {
                assert(kept[k] == r.0[k]);
                let i = choose|i: int|
                    0 <= i < subs.drop_last().len() && subs.drop_last()[i].id == r.0[k].id
                        && subs.drop_last()[i].track == r.0[k].track;
                assert(subs[i] == subs.drop_last()[i]);
            } else {
                let i = subs.len() - 1;
                assert(subs[i] == subs.last());
                assert(0 <= i < subs.len() && subs[i].id == kept[k].id && subs[i].track == kept[k].track);
            }
        }
    }
}


/// Room for one more queue item or faded track.
pub open spec fn has_room(s: SessionModel) -> bool {
    s.next_id < u64::MAX - 3 && s.queue.items.len() < usize::MAX
}

/// `s` after queueing `url` as track `s.next_id`.
pub open spec fn enqueued(s: SessionModel, url: Seq<char>) -> SessionModel {
    SessionModel {
        guild: s.guild,
        voice_channel: s.voice_channel,
        text_channel: s.text_channel,
        muted: s.muted,
        deafened: s.deafened,
        queue: queue_pushed(s.queue, ItemModel { track: s.next_id, url, volume: FULL_VOLUME }),
        subs: s.subs,
        next_id: (s.next_id + 1) as u64,
    }
}

/// `s` after starting track `s.next_id` outside the queue, with a fader and
/// an end notifier of its own.
pub open spec fn fade_started(s: SessionModel) -> SessionModel {
    let t = s.next_id;
    SessionModel {
        guild: s.guild,
        voice_channel: s.voice_channel,
        text_channel: s.text_channel,
        muted: s.muted,
        deafened: s.deafened,
        queue: s.queue,
        subs: s.subs.push(
            Subscription {
                id: (t + 1) as u64,
                track: Some(t),
                trigger: Trigger::Interval {
                    period_secs: FADE_PERIOD_SECS,
                    jitter_secs: Some(FADE_JITTER_SECS),
                },
                handler: Handler::Fader { volume: FULL_VOLUME },
            },
        ).push(
            Subscription {
                id: (t + 2) as u64,
                track: Some(t),
                trigger: Trigger::TrackEnd,
                handler: Handler::SongEndNotifier,
            },
        ),
        next_id: (t + 3) as u64,
    }
}

/// `s` after a skip.
pub open spec fn skipped(s: SessionModel) -> SessionModel {
    with_parts(s, queue_skipped(s.queue), s.subs)
}

/// `s` after a stop: nothing queued.
pub open spec fn stopped(s: SessionModel) -> SessionModel {
    with_parts(s, queue_stopped(s.queue), s.subs)
}

/// What ending the head of the queue by a command posts: the end of a track
/// that had started is announced once, here, and a later report of it from
/// the media engine finds it gone.
pub open spec fn end_notice(s: SessionModel) -> Seq<Effect> {
    if s.queue.items.len() > 0 && s.queue.started {
        seq![Effect::Say(Notice::TrackEnded)]
    } else {
        Seq::empty()
    }
}

/// What the end of `track` does to one subscription.
fn end_one(sub: Subscription, track: u64) -> (r: (Option<Subscription>, Vec<Effect>, bool))
    ensures
        (r.0, r.1@, r.2) == end_step(sub, track),
{
    let own = match sub.track {
        Some(t) => t == track,
        None => false,
    };
    let fires = match sub.trigger {
        Trigger::TrackEnd => sub.track.is_none() || own,
        Trigger::Interval { .. } => false,
    };
    if fires {
        let (next, effects) = sub.handler.on_fire(track);
        let stops = match sub.handler {
            Handler::QueueEndNotifier => true,
            _ => false,
        };
        let left = if sub.track.is_none() {
            match next {
                Some(g) => Some(Subscription { id: sub.id, track: sub.track, trigger: sub.trigger, handler: g }),
                None => None,
            }
        } else {
            None
        };
        (left, effects, stops)
    } else if own {
        (None, Vec::new(), false)
    } else {
        (Some(sub), Vec::new(), false)
    }
}

impl VoiceSession {
    /// The session of a guild that has just joined `voice_channel`, posting
    /// to `text_channel`.
    pub fn new(guild: u64, voice_channel: u64, text_channel: u64) -> (s: VoiceSession)
        ensures
            s@ == fresh_session(guild, voice_channel, text_channel),
            session_wf(s@),
    {
        let mut subs: Vec<Subscription> = Vec::new();
        subs.push(
            Subscription { id: 0, track: None, trigger: Trigger::TrackEnd, handler: Handler::QueueEndNotifier },
        );
        subs.push(
            Subscription {
                id: 1,
                track: None,
                trigger: Trigger::Interval { period_secs: PRESENCE_PERIOD_SECS, jitter_secs: None },
                handler: Handler::Presence { channel: voice_channel, minutes: 0 },
            },
        );
        let s = VoiceSession {
            guild,
            voice_channel,
            text_channel,
            muted: false,
            deafened: false,
            queue: PlaybackQueue::new(),
            subs,
            next_id: 2,
        };
        proof {
            assert(s@.subs =~= fresh_session(guild, voice_channel, text_channel).subs);
            assert(s@.queue.items =~= Seq::<ItemModel>::empty());
        }
        s
    }

    pub fn guild(&self) -> (g: u64)
        ensures
            g == self@.guild,
    {
        self.guild
    }

    pub fn voice_channel(&self) -> (c: u64)
        ensures
            c == self@.voice_channel,
    {
        self.voice_channel
    }

    pub fn text_channel(&self) -> (c: u64)
        ensures
            c == self@.text_channel,
    {
        self.text_channel
    }

    pub fn is_muted(&self) -> (b: bool)
        ensures
            b == self@.muted,
    {
        self.muted
    }

    pub fn is_deafened(&self) -> (b: bool)
        ensures
            b == self@.deafened,
    {
        self.deafened
    }

    pub fn queue(&self) -> (q: &PlaybackQueue)
        ensures
            q@ == self@.queue,
    {
        &self.queue
    }

    pub fn subscription_count(&self) -> (n: usize)
        ensures
            n == self@.subs.len(),
    {
        self.subs.len()
    }

    pub fn subscription_at(&self, i: usize) -> (sub: Subscription)
        requires
            i < self@.subs.len(),
        ensures
            sub == self@.subs[i as int],
    {
        self.subs[i]
    }

    pub fn has_room(&self) -> (b: bool)
        ensures
            b == has_room(self@),
    {
        self.next_id < u64::MAX - 3 && self.queue.len() < usize::MAX
    }

    pub fn set_muted(&mut self, muted: bool)
        ensures
            final(self)@ == with_flags(old(self)@, muted, old(self)@.deafened),
    {
        self.muted = muted;
    }

    pub fn set_deafened(&mut self, deafened: bool)
        ensures
            final(self)@ == with_flags(old(self)@, old(self)@.muted, deafened),
    {
        self.deafened = deafened;
    }

    /// Queues `url` as a new track; returns its 1-based position and the
    /// track's identifier.
    pub fn enqueue(&mut self, url: String) -> (r: (usize, u64))
        requires
            session_wf(old(self)@),
            has_room(old(self)@),
        ensures
            final(self)@ == enqueued(old(self)@, url@),
            session_wf(final(self)@),
            r == (final(self)@.queue.items.len() as usize, old(self)@.next_id),
    {
        let track = self.next_id;
        let pos = self.queue.enqueue(track, url);
        self.next_id = self.next_id + 1;
        proof {
            let s = self@;
            assert forall|i: int, j: int|
                0 <= i < s.subs.len() && 0 <= j < s.queue.items.len() implies (#[trigger] s.subs[i]).track
                != Some((#[trigger] s.queue.items[j]).track) by {
                if j < old(self)@.queue.items.len() {
                    assert(s.queue.items[j] == old(self)@.queue.items[j]);
                }
            }
            assert forall|j: int| 0 <= j < s.queue.items.len() implies #[trigger] s.queue.items[j].track
                < s.next_id by {
                if j < old(self)@.queue.items.len() {
                    assert(s.queue.items[j] == old(self)@.queue.items[j]);
                }
            }
        }
        (pos, track)
    }

    /// Starts a new track outside the queue, with a fader and an end
    /// notifier attached; returns the track's identifier.
    pub fn start_faded(&mut self) -> (track: u64)
        requires
            session_wf(old(self)@),
            has_room(old(self)@),
        ensures
            final(self)@ == fade_started(old(self)@),
            session_wf(final(self)@),
            track == old(self)@.next_id,
    {
        let t = self.next_id;
        self.subs.push(
            Subscription {
                id: t + 1,
                track: Some(t),
                trigger: Trigger::Interval {
                    period_secs: FADE_PERIOD_SECS,
                    jitter_secs: Some(FADE_JITTER_SECS),
                },
                handler: Handler::Fader { volume: FULL_VOLUME },
            },
        );
        self.subs.push(
            Subscription { id: t + 2, track: Some(t), trigger: Trigger::TrackEnd, handler: Handler::SongEndNotifier },
        );
        self.next_id = t + 3;
        proof {
            let s = self@;
            assert(s.subs =~= fade_started(old(self)@).subs);
            assert forall|i: int, j: int|
                0 <= i < s.subs.len() && 0 <= j < s.queue.items.len() implies (#[trigger] s.subs[i]).track
                != Some((#[trigger] s.queue.items[j]).track) by {
                if i < old(self)@.subs.len() {
                    assert(s.subs[i] == old(self)@.subs[i]);
                }
            }
            assert forall|i: int| 0 <= i < s.subs.len() implies #[trigger] s.subs[i].id < s.next_id by {
                if i < old(self)@.subs.len() {
                    assert(s.subs[i] == old(self)@.subs[i]);
                }
            }
            assert forall|i: int|
                0 <= i < s.subs.len() && (#[trigger] s.subs[i]).track is Some implies s.subs[i].track->0
                < s.next_id by {
                if i < old(self)@.subs.len() {
                    assert(s.subs[i] == old(self)@.subs[i]);
                }
            }
        }
        t
    }

    /// Ends the head of the queue; returns how many items are left and the
    /// effects for the media engine (none when the queue was empty). The
    /// queue is not cleared: the next item follows.
    pub fn skip(&mut self) -> (r: (usize, Vec<Effect>))
        requires
            session_wf(old(self)@),
        ensures
            final(self)@ == skipped(old(self)@),
            session_wf(final(self)@),
            r.0 == final(self)@.queue.items.len(),
            old(self)@.queue.items.len() == 0 ==> r.1@ == Seq::<Effect>::empty(),
            old(self)@.queue.items.len() > 0 ==> r.1@ == seq![Effect::SkipCurrent] + end_notice(old(self)@),
    {
        let mut effects: Vec<Effect> = Vec::new();
        let was_playing = self.queue.len() > 0 && self.queue.has_started();
        let r = self.queue.skip();
        let gone = r.0;
        let left = r.1;
        if gone.is_some() {
            effects.push(Effect::SkipCurrent);
        }
        if was_playing {
            effects.push(Effect::Say(Notice::TrackEnded));
        }
        proof {
            let s = self@;
            assert(s == skipped(old(self)@));
            assert forall|i: int, j: int|
                0 <= i < s.subs.len() && 0 <= j < s.queue.items.len() implies (#[trigger] s.subs[i]).track
                != Some((#[trigger] s.queue.items[j]).track) by {
                assert(s.queue.items[j] == old(self)@.queue.items[j + 1]);
            }
            assert forall|j: int| 0 <= j < s.queue.items.len() implies #[trigger] s.queue.items[j].track
                < s.next_id by {
                assert(s.queue.items[j] == old(self)@.queue.items[j + 1]);
            }
            if old(self)@.queue.items.len() > 0 {
                assert(effects@ =~= seq![Effect::SkipCurrent] + end_notice(old(self)@));
            } else {
                assert(effects@ =~= Seq::<Effect>::empty());
            }
        }
        (left, effects)
    }

    /// Clears the queue; returns the effects for the media engine.
    pub fn stop(&mut self) -> (effects: Vec<Effect>)
        requires
            session_wf(old(self)@),
        ensures
            final(self)@ == stopped(old(self)@),
            session_wf(final(self)@),
            effects@ == seq![Effect::StopQueue] + end_notice(old(self)@),
    {
        let was_playing = self.queue.len() > 0 && self.queue.has_started();
        let _removed = self.queue.stop();
        let mut effects: Vec<Effect> = Vec::new();
        effects.push(Effect::StopQueue);
        if was_playing {
            effects.push(Effect::Say(Notice::TrackEnded));
        }
        proof {
            assert(effects@ =~= seq![Effect::StopQueue] + end_notice(old(self)@));
        }
        effects
    }

    /// Holds the queue; returns the effects for the media engine.
    pub fn pause(&mut self) -> (effects: Vec<Effect>)
        requires
            session_wf(old(self)@),
        ensures
            final(self)@ == with_parts(old(self)@, queue_paused(old(self)@.queue), old(self)@.subs),
            session_wf(final(self)@),
            effects@ == seq![Effect::PauseQueue],
    {
        self.queue.pause();
        let mut effects: Vec<Effect> = Vec::new();
        effects.push(Effect::PauseQueue);
        proof {
            assert(effects@ =~= seq![Effect::PauseQueue]);
        }
        effects
    }

    /// Lets the queue play again; returns the effects for the media engine.
    pub fn resume(&mut self) -> (effects: Vec<Effect>)
        requires
            session_wf(old(self)@),
        ensures
            final(self)@ == with_parts(old(self)@, queue_resumed(old(self)@.queue), old(self)@.subs),
            session_wf(final(self)@),
            effects@ == seq![Effect::ResumeQueue],
    {
        self.queue.resume();
        let mut effects: Vec<Effect> = Vec::new();
        effects.push(Effect::ResumeQueue);
        proof {
            assert(effects@ =~= seq![Effect::ResumeQueue]);
        }
        effects
    }

    /// Delivers a periodic firing of subscription `id`. A firing for a
    /// subscription that is no longer live, or that is not periodic, changes
    /// nothing and asks for nothing.
    pub fn fire_periodic(&mut self, id: u64) -> (effects: Vec<Effect>)
        requires
            session_wf(old(self)@),
        ensures
            (final(self)@, effects@) == periodic_fired(old(self)@, id),
            session_wf(final(self)@),
    {
        let n = self.subs.len();
        let mut i: usize = 0;
        while i < n && self.subs[i].id != id
            invariant
                n == self.subs@.len(),
                i <= n,
                forall|j: int| 0 <= j < i ==> #[trigger] self.subs@[j].id != id,
            decreases n - i,
        {
            i = i + 1;
        }
        if i == n {
            return Vec::new();
        }
        let sub = self.subs[i];
        proof {
            assert(first_with_id(self.subs@, id, i as int));
        }
        match sub.trigger {
            Trigger::TrackEnd => {
                proof {
                    assert forall|c: int| first_with_id(self.subs@, id, c) implies c == i as int by {
                        if c < i {
                            assert(self.subs@[c].id != id);
                        }
                        if c > i {
                            assert(self.subs@[i as int].id != id);
                        }
                    }
                }
                return Vec::new();
            },
            Trigger::Interval { .. } => {},
        }
        let ghost s0 = self@;
        proof {
            let c = choose|c: int| first_with_id(s0.subs, id, c) && s0.subs[c].trigger is Interval;
            if c < i {
                assert(s0.subs[c].id != id);
            }
            if c > i {
                assert(s0.subs[i as int].id != id);
            }
            assert(c == i);
        }
        let track = match sub.track {
            Some(t) => t,
            None => 0,
        };
        let (next, effects) = sub.handler.on_fire(track);
        match next {
            None => {
                self.subs.remove(i);
            },
            Some(g) => {
                self.subs.set(i, Subscription { id: sub.id, track: sub.track, trigger: sub.trigger, handler: g });
            },
        }
        proof {
            let s = self@;
            assert(s == periodic_fired(s0, id).0);
            assert forall|k: int| 0 <= k < s.subs.len() implies exists|m: int|
                0 <= m < s0.subs.len() && s0.subs[m].id == (#[trigger] s.subs[k]).id && s0.subs[m].track
                    == s.subs[k].track by {
                if next is None {
                    if k < i {
                        assert(s.subs[k] == s0.subs[k]);
                    } else {
                        assert(s.subs[k] == s0.subs[k + 1]);
                    }
                } else {
                    if k != i {
                        assert(s.subs[k] == s0.subs[k]);
                    } else {
                        assert(s.subs[k].id == s0.subs[k].id);
                    }
                }
            }
            assert forall|a: int, j: int|
                0 <= a < s.subs.len() && 0 <= j < s.queue.items.len() implies (#[trigger] s.subs[a]).track
                != Some((#[trigger] s.queue.items[j]).track) by {
                let m = choose|m: int|
                    0 <= m < s0.subs.len() && s0.subs[m].id == s.subs[a].id && s0.subs[m].track
                        == s.subs[a].track;
                assert(s0.subs[m].track != Some(s0.queue.items[j].track));
            }
            assert forall|a: int| 0 <= a < s.subs.len() implies #[trigger] s.subs[a].id < s.next_id by {
                let m = choose|m: int|
                    0 <= m < s0.subs.len() && s0.subs[m].id == s.subs[a].id && s0.subs[m].track
                        == s.subs[a].track;
                assert(s0.subs[m].id < s0.next_id);
            }
            assert forall|a: int|
                0 <= a < s.subs.len() && (#[trigger] s.subs[a]).track is Some implies s.subs[a].track->0
                < s.next_id by {
                let m = choose|m: int|
                    0 <= m < s0.subs.len() && s0.subs[m].id == s.subs[a].id && s0.subs[m].track
                        == s.subs[a].track;
                assert(s0.subs[m].track is Some);
            }
        }
        effects
    }

    /// The media engine reports that `track` ended. For a live track this
    /// fires the track's own end notifiers (once: they are one-shot) and the
    /// ambient ones, drops every other subscription of the track, and takes
    /// the track off the head of the queue; the ambient notifier clears the
    /// queue. For a track that is no longer live nothing changes.
    pub fn end_track(&mut self, track: u64) -> (effects: Vec<Effect>)
        requires
            session_wf(old(self)@),
        ensures
            (final(self)@, effects@) == track_ended(old(self)@, track),
            session_wf(final(self)@),
    {
        let ghost s0 = self@;
        let at_head = match self.queue.head() {
            Some(h) => h == track,
            None => false,
        };
        let n = self.subs.len();
        let mut owned = false;
        let mut k: usize = 0;
        while k < n
            invariant
                n == self.subs@.len(),
                self@ == s0,
                k <= n,
                owned == exists|j: int| 0 <= j < k && self.subs@[j].track == Some(track),
            decreases n - k,
        {
            let mine = match self.subs[k].track {
                Some(t) => t == track,
                None => false,
            };
            proof {
                if mine {
                    assert(self.subs@[k as int].track == Some(track));
                } else if !owned {
                    assert forall|j: int| 0 <= j < k + 1 implies self.subs@[j].track != Some(track) by {
                        if j < k {
                            assert(!(0 <= j < k && self.subs@[j].track == Some(track)));
                        }
                    }
                } else {
                    let w = choose|j: int| 0 <= j < k && self.subs@[j].track == Some(track);
                    assert(0 <= w < k + 1 && self.subs@[w].track == Some(track));
                }
            }
            if mine {
                owned = true;
            }
            k = k + 1;
        }
        if !at_head && !owned {
            return Vec::new();
        }
        if at_head {
            self.queue.skip();
        }
        let mut kept: Vec<Subscription> = Vec::new();
        let mut effects: Vec<Effect> = Vec::new();
        let mut stops = false;
        let mut k: usize = 0;
        while k < n
            invariant
                n == self.subs@.len(),
                self.subs@ == s0.subs,
                k <= n,
                (kept@, effects@, stops) == end_all(s0.subs.subrange(0, k as int), track),
            decreases n - k,
        {
            let (left, mut e, b) = end_one(self.subs[k], track);
            proof {
                let p = s0.subs.subrange(0, k as int + 1);
                assert(p.drop_last() =~= s0.subs.subrange(0, k as int));
                assert(p.last() == s0.subs[k as int]);
            }
            match left {
                Some(x) => kept.push(x),
                None => {},
            }
            effects.append(&mut e);
            stops = stops || b;
            k = k + 1;
        }
        proof {
            assert(s0.subs.subrange(0, n as int) =~= s0.subs);
            lemma_end_all_kept(s0.subs, track);
        }
        self.subs = kept;
        if stops {
            self.queue.stop();
        }
        proof {
            let s = self@;
            assert(s == track_ended(s0, track).0);
            assert forall|j: int| 0 <= j < s.queue.items.len() implies exists|m: int|
                0 <= m < s0.queue.items.len() && (#[trigger] s.queue.items[j]) == s0.queue.items[m] by {
                if at_head {
                    assert(s.queue.items[j] == s0.queue.items[j + 1]);
                } else {
                    assert(s.queue.items[j] == s0.queue.items[j]);
                }
            }
            assert forall|a: int, j: int|
                0 <= a < s.subs.len() && 0 <= j < s.queue.items.len() implies (#[trigger] s.subs[a]).track
                != Some((#[trigger] s.queue.items[j]).track) by {
                let m = choose|m: int|
                    0 <= m < s0.subs.len() && s0.subs[m].id == s.subs[a].id && s0.subs[m].track
                        == s.subs[a].track;
                let m2 = choose|m2: int|
                    0 <= m2 < s0.queue.items.len() && s.queue.items[j] == s0.queue.items[m2];
                assert(s0.subs[m].track != Some(s0.queue.items[m2].track));
            }
            assert forall|j: int| 0 <= j < s.queue.items.len() implies #[trigger] s.queue.items[j].track
                < s.next_id by {
                let m2 = choose|m2: int|
                    0 <= m2 < s0.queue.items.len() && s.queue.items[j] == s0.queue.items[m2];
                assert(s0.queue.items[m2].track < s0.next_id);
            }
            assert forall|a: int| 0 <= a < s.subs.len() implies #[trigger] s.subs[a].id < s.next_id by {
                let m = choose|m: int|
                    0 <= m < s0.subs.len() && s0.subs[m].id == s.subs[a].id && s0.subs[m].track
                        == s.subs[a].track;
                assert(s0.subs[m].id < s0.next_id);
            }
            assert forall|a: int|
                0 <= a < s.subs.len() && (#[trigger] s.subs[a]).track is Some implies s.subs[a].track->0
                < s.next_id by {
                let m = choose|m: int|
                    0 <= m < s0.subs.len() && s0.subs[m].id == s.subs[a].id && s0.subs[m].track
                        == s.subs[a].track;
                assert(s0.subs[m].track is Some);
            }
        }
        effects
    }
}

} // verus!
