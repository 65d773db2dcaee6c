use vstd::prelude::*;

verus! {

/// Full volume, in millionths.
pub const FULL_VOLUME: u32 = 1_000_000;

/// Where an item stands in its queue.
#[derive(Clone, Copy, Debug, PartialEq, Eq, Structural)]
pub enum PlayState {
    Playing,
    Paused,
    Queued,
}

/// One requested media source.
pub struct QueueItem {
    /// Track identifier, unique within a session.
    pub track: u64,
    pub url: String,
    /// Volume in millionths of full volume.
    pub volume: u32,
}

/// Mathematical value of a `QueueItem`.
pub struct ItemModel {
    pub track: u64,
    pub url: Seq<char>,
    pub volume: u32,
}

impl View for QueueItem {
    type V = ItemModel;

    open spec fn view(&self) -> ItemModel {
        ItemModel { track: self.track, url: self.url@, volume: self.volume }
    }
}

/// FIFO playback queue with a queue-wide paused flag. The head item is the
/// one being played, or held while paused, once it has started; an item
/// starts when it reaches the head while the queue is not paused.
pub struct PlaybackQueue {
    items: Vec<QueueItem>,
    paused: bool,
    started: bool,
}

/// Mathematical value of a `PlaybackQueue`. `started` says whether the head
/// has started playing.
pub struct QueueModel {
    pub items: Seq<ItemModel>,
    pub paused: bool,
    pub started: bool,
}

impl View for PlaybackQueue {
    type V = QueueModel;

    closed spec fn view(&self) -> QueueModel {
        QueueModel {
            items: self.items@.map_values(|i: QueueItem| i@),
            paused: self.paused,
            started: self.started,
        }
    }
}

/// State of the item at position `i` (0 is the head). An item that has not
/// started yet is queued.
pub open spec fn state_at(q: QueueModel, i: int) -> PlayState {
    if i == 0 && q.started {
        if q.paused {
            PlayState::Paused
        } else {
            PlayState::Playing
        }
    } else {
        PlayState::Queued
    }
}

/// The empty, unpaused queue.
pub open spec fn empty_queue() -> QueueModel {
    QueueModel { items: Seq::empty(), paused: false, started: false }
}

/// `q` after appending `item`: an item that lands in an empty queue starts
/// at once unless the queue is paused.
pub open spec fn queue_pushed(q: QueueModel, item: ItemModel) -> QueueModel {
    QueueModel {
        items: q.items.push(item),
        paused: q.paused,
        started: if q.items.len() == 0 { !q.paused } else { q.started },
    }
}

/// `q` after its head is ended (nothing changes on an empty queue): the next
/// item starts unless the queue is paused.
pub open spec fn queue_skipped(q: QueueModel) -> QueueModel {
    if q.items.len() == 0 {
        q
    } else {
        QueueModel {
            items: q.items.drop_first(),
            paused: q.paused,
            started: q.items.len() > 1 && !q.paused,
        }
    }
}

/// `q` without any item.
pub open spec fn queue_stopped(q: QueueModel) -> QueueModel {
    QueueModel { items: Seq::empty(), paused: q.paused, started: false }
}

/// `q` paused: items are neither removed nor moved.
pub open spec fn queue_paused(q: QueueModel) -> QueueModel {
    QueueModel { items: q.items, paused: true, started: q.started }
}

/// `q` resumed: items are neither removed nor moved, and the head starts.
pub open spec fn queue_resumed(q: QueueModel) -> QueueModel {
    QueueModel { items: q.items, paused: false, started: q.items.len() > 0 }
}

/// Number of items in state `Playing` among the first `n` positions.
pub open spec fn playing_count(q: QueueModel, n: nat) -> nat
    decreases n,
{
    if n == 0 {
        0
    } else {
        playing_count(q, (n - 1) as nat) + if state_at(q, n - 1) == PlayState::Playing {
            1nat
        } else {
            0nat
        }
    }
}

/// At most one item of a queue is playing at a time: the head, once started
/// and while the queue is not paused.
pub proof fn lemma_at_most_one_playing(q: QueueModel)
    ensures
        playing_count(q, q.items.len()) <= 1,
        playing_count(q, q.items.len()) == 1 <==> (q.items.len() > 0 && q.started && !q.paused),
{
    lemma_playing_prefix(q, q.items.len());
}

proof fn lemma_playing_prefix(q: QueueModel, n: nat)
    ensures
        playing_count(q, n) == (if n > 0 && q.started && !q.paused { 1nat } else { 0nat }),
    decreases n,
{
    if n > 0 {
        lemma_playing_prefix(q, (n - 1) as nat);
    }
}

impl PlaybackQueue {
    /// An empty, unpaused queue.
    pub fn new() -> (q: PlaybackQueue)
        ensures
            q@ == empty_queue(),
    {
        let q = PlaybackQueue { items: Vec::new(), paused: false, started: false };
        proof {
            assert(q@.items =~= Seq::<ItemModel>::empty());
        }
        q
    }

    pub fn len(&self) -> (n: usize)
        ensures
            n == self@.items.len(),
    {
        self.items.len()
    }

    pub fn is_paused(&self) -> (b: bool)
        ensures
            b == self@.paused,
    {
        self.paused
    }

    /// Whether the head has started playing.
    pub fn has_started(&self) -> (b: bool)
        ensures
            b == self@.started,
    {
        self.started
    }

    /// Track of the head item, if any.
    pub fn head(&self) -> (t: Option<u64>)
        ensures
            self@.items.len() == 0 ==> t is None,
            self@.items.len() > 0 ==> t == Some(self@.items[0].track),
    {
        if self.items.len() == 0 {
            None
        } else {
            Some(self.items[0].track)
        }
    }

    /// State of the item at position `i`.
    pub fn item_state(&self, i: usize) -> (s: PlayState)
        requires
            i < self@.items.len(),
        ensures
            s == state_at(self@, i as int),
    {
        if i == 0 && self.started {
            if self.paused {
                PlayState::Paused
            } else {
                PlayState::Playing
            }
        } else {
            PlayState::Queued
        }
    }

    /// Volume of the item at position `i`.
    pub fn item_volume(&self, i: usize) -> (v: u32)
        requires
            i < self@.items.len(),
        ensures
            v == self@.items[i as int].volume,
    {
        self.items[i].volume
    }

    /// Appends a new item at full volume and returns its 1-based position. An
    /// item that lands in an empty, unpaused queue is playing at once.
    pub fn enqueue(&mut self, track: u64, url: String) -> (pos: usize)
        requires
            old(self)@.items.len() < usize::MAX,
        ensures
            final(self)@ == queue_pushed(
                old(self)@,
                ItemModel { track, url: url@, volume: FULL_VOLUME },
            ),
            pos == final(self)@.items.len(),
    {
        if self.items.len() == 0 {
            self.started = !self.paused;
        }
        let item = QueueItem { track, url, volume: FULL_VOLUME };
        self.items.push(item);
        proof {
            assert(self@.items =~= old(self)@.items.push(item@));
        }
        self.items.len()
    }

    /// Ends the head item and promotes the next. Returns the ended track and
    /// the number of items left; on an empty queue nothing changes.
    pub fn skip(&mut self) -> (r: (Option<u64>, usize))
        ensures
            final(self)@ == queue_skipped(old(self)@),
            r.1 == final(self)@.items.len(),
            old(self)@.items.len() == 0 ==> r.0 is None,
            old(self)@.items.len() > 0 ==> r.0 == Some(old(self)@.items[0].track),
    {
        if self.items.len() == 0 {
            return (None, 0);
        }
        let gone = self.items.remove(0);
        self.started = self.items.len() > 0 && !self.paused;
        proof {
            assert(self@.items =~= old(self)@.items.drop_first());
        }
        (Some(gone.track), self.items.len())
    }

    /// Removes every item and hands them back, in queue order.
    pub fn stop(&mut self) -> (removed: Vec<QueueItem>)
        ensures
            final(self)@ == queue_stopped(old(self)@),
            removed@.map_values(|i: QueueItem| i@) == old(self)@.items,
    {
        let mut removed: Vec<QueueItem> = Vec::new();
        std::mem::swap(&mut self.items, &mut removed);
        self.started = false;
        proof {
            assert(self@.items =~= Seq::<ItemModel>::empty());
        }
        removed
    }

    /// Sets the queue-wide paused flag.
    pub fn pause(&mut self)
        ensures
            final(self)@ == queue_paused(old(self)@),
    {
        self.paused = true;
    }

    /// Clears the queue-wide paused flag; the head, if any, plays.
    pub fn resume(&mut self)
        ensures
            final(self)@ == queue_resumed(old(self)@),
    {
        self.paused = false;
        self.started = self.items.len() > 0;
    }
}

} // verus!
