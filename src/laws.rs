use vstd::prelude::*;
use crate::commands::{mute_plan, session_of, settled, with_paused, with_session, BackendCall, Plan, Reply};
use crate::events::Effect;
use crate::queue::{state_at, PlayState};
use crate::registry::{
    created, has_guild, index_of, registry_fired, registry_track_ended, registry_wf,
    removed,
};
use crate::session::{
    enqueued, session_wf, skipped, stopped, track_ended, track_live, SessionModel,
};

verus! {

/// Creating the session of a guild twice gives the first session back: the
/// registry keeps exactly one session for the guild, and stays well formed.
pub proof fn lemma_one_session_per_guild(
    r: Seq<SessionModel>,
    guild: u64,
    vc1: u64,
    tc1: u64,
    vc2: u64,
    tc2: u64,
)
    requires
        registry_wf(r),
    ensures
        registry_wf(created(r, guild, vc1, tc1)),
        has_guild(created(r, guild, vc1, tc1), guild),
        created(created(r, guild, vc1, tc1), guild, vc2, tc2) == created(r, guild, vc1, tc1),
        forall|i: int, j: int|
            0 <= i < created(r, guild, vc1, tc1).len() && 0 <= j < created(r, guild, vc1, tc1).len()
                && (#[trigger] created(r, guild, vc1, tc1)[i]).guild == guild
                && (#[trigger] created(r, guild, vc1, tc1)[j]).guild == guild ==> i == j,
{
    let c = created(r, guild, vc1, tc1);
    if !has_guild(r, guild) {
        let n = r.len() as int;
        assert(c[n].guild == guild);
        assert forall|i: int, j: int|
            0 <= i < c.len() && 0 <= j < c.len() && i != j implies (#[trigger] c[i]).guild != (#[trigger] c[j]).guild by {
            if i < n && j < n {
                assert(c[i] == r[i] && c[j] == r[j]);
            } else if i < n {
                assert(c[i] == r[i]);
            } else if j < n {
                assert(c[j] == r[j]);
            }
        }
        assert forall|i: int| 0 <= i < c.len() implies session_wf(#[trigger] c[i]) by {
            if i < n {
                assert(c[i] == r[i]);
            }
        }
    }
}

/// The queue of `s` after queueing each of `urls` in turn.
pub open spec fn enqueue_all(s: SessionModel, urls: Seq<Seq<char>>) -> SessionModel
    decreases urls.len(),
{
    if urls.len() == 0 {
        s
    } else {
        enqueued(enqueue_all(s, urls.drop_last()), urls.last())
    }
}

/// `s` after `k` skips.
pub open spec fn skip_times(s: SessionModel, k: nat) -> SessionModel
    decreases k,
{
    if k == 0 {
        s
    } else {
        skipped(skip_times(s, (k - 1) as nat))
    }
}

/// Queueing items on an empty queue leaves `k` items after the first `k`, so
/// that the next one lands at position `k + 1`; skipping a queue of `n` items `k` times leaves `n - k`, so that each
/// skip reports one fewer, and `n` skips drain it.
pub proof fn lemma_enqueue_then_skip(s: SessionModel, urls: Seq<Seq<char>>, k: nat)
    requires
        s.queue.items.len() == 0,
    ensures
        k <= urls.len() ==> enqueue_all(s, urls.take(k as int)).queue.items.len() == k,
        enqueue_all(s, urls).queue.items.len() == urls.len(),
        k <= urls.len() ==> skip_times(enqueue_all(s, urls), k).queue.items.len() == urls.len() - k,
    decreases urls.len(),
{
    lemma_enqueue_len(s, urls);
    if k <= urls.len() {
        lemma_enqueue_len(s, urls.take(k as int));
        lemma_skip_len(enqueue_all(s, urls), k);
    }
}

proof fn lemma_enqueue_len(s: SessionModel, urls: Seq<Seq<char>>)
    ensures
        enqueue_all(s, urls).queue.items.len() == s.queue.items.len() + urls.len(),
    decreases urls.len(),
{
    if urls.len() > 0 {
        lemma_enqueue_len(s, urls.drop_last());
    }
}

proof fn lemma_skip_len(s: SessionModel, k: nat)
    requires
        k <= s.queue.items.len(),
    ensures
        skip_times(s, k).queue.items.len() == s.queue.items.len() - k,
    decreases k,
{
    if k > 0 {
        lemma_skip_len(s, (k - 1) as nat);
    }
}

/// After a stop, the end of any track that was queued is no longer live:
/// reporting it changes nothing and posts nothing.
pub proof fn lemma_end_after_stop(s: SessionModel, j: int)
    requires
        session_wf(s),
        0 <= j < s.queue.items.len(),
    ensures
        !track_live(stopped(s), s.queue.items[j].track),
        track_ended(stopped(s), s.queue.items[j].track) == (stopped(s), Seq::<Effect>::empty()),
{
    let t = s.queue.items[j].track;
    let st = stopped(s);
    assert forall|i: int| 0 <= i < st.subs.len() implies st.subs[i].track != Some(t) by {
        assert(s.subs[i].track != Some(s.queue.items[j].track));
    }
}

/// Muting twice in a row: the first mute makes one backend call, and once it
/// succeeded the second reports that the session is muted already, with no
/// call.
pub proof fn lemma_mute_twice(r: Seq<SessionModel>, guild: u64, text_channel: u64)
    requires
        registry_wf(r),
        has_guild(r, guild),
        !session_of(r, guild).muted,
    ensures
        mute_plan(r, guild) == Plan::Call(BackendCall::SetMute { on: true }),
        settled(r, guild, text_channel, BackendCall::SetMute { on: true }, Ok(())).1 == Reply::Muted,
        mute_plan(settled(r, guild, text_channel, BackendCall::SetMute { on: true }, Ok(())).0, guild)
            == Plan::Reply(Reply::AlreadyMuted),
{
    let i = index_of(r, guild);
    let r2 = settled(r, guild, text_channel, BackendCall::SetMute { on: true }, Ok(())).0;
    assert(r2[i].guild == guild);
    let c = index_of(r2, guild);
    assert(r2[c].guild == guild);
    if c != i {
        assert(r[c].guild == r2[c].guild);
    }
}

/// Once a guild has left, a pending periodic firing or track end for it finds
/// no session: the registry is left as it is and nothing is asked for.
pub proof fn lemma_fire_after_leave(r: Seq<SessionModel>, guild: u64, id: u64, track: u64)
    requires
        registry_wf(r),
    ensures
        !has_guild(removed(r, guild), guild),
        registry_fired(removed(r, guild), guild, id) == (removed(r, guild), Seq::<Effect>::empty()),
        registry_track_ended(removed(r, guild), guild, track) == (removed(r, guild), Seq::<Effect>::empty()),
{
    if has_guild(r, guild) {
        let i = index_of(r, guild);
        let rr = removed(r, guild);
        assert forall|k: int| 0 <= k < rr.len() implies (#[trigger] rr[k]).guild != guild by {
            let k0 = if k < i { k } else { k + 1 };
            assert(rr[k] == r[k0]);
            assert(r[i].guild == guild);
        }
    }
}

/// Pausing then resuming a guild whose queue has a playing head leaves the
/// queue exactly as it was: same items, positions and volumes, and the head
/// playing.
pub proof fn lemma_pause_resume(r: Seq<SessionModel>, guild: u64)
    requires
        registry_wf(r),
        has_guild(r, guild),
        session_of(r, guild).queue.items.len() >= 1,
        state_at(session_of(r, guild).queue, 0) == PlayState::Playing,
    ensures
        ({
            let r2 = with_session(r, guild, with_paused(session_of(r, guild), true));
            let r3 = with_session(r2, guild, with_paused(session_of(r2, guild), false));
            &&& session_of(r3, guild).queue == session_of(r, guild).queue
            &&& state_at(session_of(r3, guild).queue, 0) == PlayState::Playing
        }),
{
    let i = index_of(r, guild);
    let r2 = with_session(r, guild, with_paused(session_of(r, guild), true));
    assert(r2[i].guild == guild);
    let c = index_of(r2, guild);
    assert(r2[c].guild == guild);
    if c != i {
        assert(r[c].guild == r2[c].guild);
    }
    let r3 = with_session(r2, guild, with_paused(session_of(r2, guild), false));
    assert(r3[i].guild == guild);
    let d = index_of(r3, guild);
    assert(r3[d].guild == guild);
    if d != i {
        assert(r[d].guild == r3[d].guild);
    }
}

} // verus!
