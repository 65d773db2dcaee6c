use vstd::prelude::*;
use crate::events::Effect;
use crate::session::{
    fresh_session, periodic_fired, session_wf, track_ended, SessionModel, VoiceSession,
};

verus! {

/// The sessions of all guilds, at most one per guild.
pub struct Registry {
    sessions: Vec<VoiceSession>,
}

impl View for Registry {
    type V = Seq<SessionModel>;

    closed spec fn view(&self) -> Seq<SessionModel> {
        self.sessions@.map_values(|s: VoiceSession| s@)
    }
}

/// No two sessions share a guild, and each session is well formed.
pub open spec fn registry_wf(r: Seq<SessionModel>) -> bool {
    &&& forall|i: int, j: int|
        0 <= i < r.len() && 0 <= j < r.len() && i != j ==> (#[trigger] r[i]).guild != (#[trigger] r[j]).guild
    &&& forall|i: int| 0 <= i < r.len() ==> session_wf(#[trigger] r[i])
}

/// Some session belongs to `guild`.
pub open spec fn has_guild(r: Seq<SessionModel>, guild: u64) -> bool {
    exists|i: int| 0 <= i < r.len() && (#[trigger] r[i]).guild == guild
}

/// Position of the session of `guild`, when there is one.
pub open spec fn index_of(r: Seq<SessionModel>, guild: u64) -> int {
    choose|i: int| 0 <= i < r.len() && (#[trigger] r[i]).guild == guild
}

/// The registry after `get_or_create` succeeds: the session of `guild` is
/// kept when there is one, else a fresh one is added.
pub open spec fn created(r: Seq<SessionModel>, guild: u64, voice_channel: u64, text_channel: u64) -> Seq<SessionModel> {
    if has_guild(r, guild) {
        r
    } else {
        r.push(fresh_session(guild, voice_channel, text_channel))
    }
}

/// The registry without the session of `guild`, and with it every
/// subscription of that session.
pub open spec fn removed(r: Seq<SessionModel>, guild: u64) -> Seq<SessionModel> {
    if has_guild(r, guild) {
        r.remove(index_of(r, guild))
    } else {
        r
    }
}

/// The registry after `r[i]` became `s`.
pub open spec fn replaced(r: Seq<SessionModel>, i: int, s: SessionModel) -> Seq<SessionModel> {
    r.update(i, s)
}

/// A periodic firing of subscription `id` of `guild`: the next registry and
/// the effects. Nothing happens where `guild` has no session.
pub open spec fn registry_fired(r: Seq<SessionModel>, guild: u64, id: u64) -> (Seq<SessionModel>, Seq<Effect>) {
    if has_guild(r, guild) {
        let i = index_of(r, guild);
        let f = periodic_fired(r[i], id);
        (r.update(i, f.0), f.1)
    } else {
        (r, Seq::empty())
    }
}

/// The end of `track` in `guild`: the next registry and the effects.
/// Nothing happens where `guild` has no session.
pub open spec fn registry_track_ended(r: Seq<SessionModel>, guild: u64, track: u64) -> (Seq<SessionModel>, Seq<Effect>) {
    if has_guild(r, guild) {
        let i = index_of(r, guild);
        let f = track_ended(r[i], track);
        (r.update(i, f.0), f.1)
    } else {
        (r, Seq::empty())
    }
}

/// In a well-formed registry the session of a guild stands at one place.
pub proof fn lemma_index_of(r: Seq<SessionModel>, guild: u64, i: int)
    requires
        registry_wf(r),
        0 <= i < r.len(),
        r[i].guild == guild,
    ensures
        has_guild(r, guild),
        index_of(r, guild) == i,
{
    let c = index_of(r, guild);
    assert(r[c].guild == guild);
}

/// Putting a well-formed session of the same guild in place of another keeps
/// the registry well formed.
pub proof fn lemma_replace_wf(r: Seq<SessionModel>, i: int, s: SessionModel)
    requires
        registry_wf(r),
        0 <= i < r.len(),
        s.guild == r[i].guild,
        session_wf(s),
    ensures
        registry_wf(r.update(i, s)),
{
    let u = r.update(i, s);
    assert forall|a: int, b: int|
        0 <= a < u.len() && 0 <= b < u.len() && a != b implies (#[trigger] u[a]).guild != (#[trigger] u[b]).guild by {
        assert(r[a].guild != r[b].guild);
    }
}

impl Registry {
    /// An empty registry.
    pub fn new() -> (r: Registry)
        ensures
            r@ == Seq::<SessionModel>::empty(),
            registry_wf(r@),
    {
        let r = Registry { sessions: Vec::new() };
        proof {
            assert(r@ =~= Seq::<SessionModel>::empty());
        }
        r
    }

    pub fn len(&self) -> (n: usize)
        ensures
            n == self@.len(),
    {
        self.sessions.len()
    }

    /// Position of the session of `guild`.
    pub fn find(&self, guild: u64) -> (r: Option<usize>)
        requires
            registry_wf(self@),
        ensures
            r is None <==> !has_guild(self@, guild),
            r is Some ==> r->0 == index_of(self@, guild) && r->0 < self@.len(),
    {
        let n = self.sessions.len();
        let mut i: usize = 0;
        while i < n
            invariant
                n == self@.len(),
                registry_wf(self@),
                i <= n,
                forall|j: int| 0 <= j < i ==> (#[trigger] self@[j]).guild != guild,
            decreases n - i,
        {
            if self.sessions[i].guild() == guild {
                proof {
                    assert(self@[i as int] == self.sessions@[i as int]@);
                    lemma_index_of(self@, guild, i as int);
                }
                return Some(i);
            }
            i = i + 1;
        }
        None
    }

    /// The session of `guild`, if any, without creating one.
    pub fn get(&self, guild: u64) -> (r: Option<&VoiceSession>)
        requires
            registry_wf(self@),
        ensures
            r is None <==> !has_guild(self@, guild),
            r is Some ==> r->0@ == self@[index_of(self@, guild)],
    {
        match self.find(guild) {
            Some(i) => Some(&self.sessions[i]),
            None => None,
        }
    }

    /// The session at position `i`.
    pub fn at(&self, i: usize) -> (s: &VoiceSession)
        requires
            i < self@.len(),
        ensures
            s@ == self@[i as int],
    {
        &self.sessions[i]
    }

    /// Returns the position of the session of `guild`. Where there is none,
    /// `connected` is the outcome of connecting to `voice_channel`: on success
    /// a fresh session is added, on failure the backend's error comes back and
    /// nothing changes.
    pub fn get_or_create(
        &mut self,
        guild: u64,
        voice_channel: u64,
        text_channel: u64,
        connected: Result<(), String>,
    ) -> (r: Result<usize, String>)
        requires
            registry_wf(old(self)@),
        ensures
            registry_wf(final(self)@),
            has_guild(old(self)@, guild) ==> final(self)@ == old(self)@ && r == Ok::<usize, String>(
                index_of(old(self)@, guild) as usize,
            ),
            !has_guild(old(self)@, guild) && connected is Ok ==> final(self)@ == created(
                old(self)@,
                guild,
                voice_channel,
                text_channel,
            ) && r == Ok::<usize, String>(old(self)@.len() as usize),
            !has_guild(old(self)@, guild) && connected is Err ==> final(self)@ == old(self)@ && r
                == Err::<usize, String>(connected->Err_0),
    {
        match self.find(guild) {
            Some(i) => Ok(i),
            None => match connected {
                Err(e) => Err(e),
                Ok(()) => {
                    let n = self.sessions.len();
                    self.sessions.push(VoiceSession::new(guild, voice_channel, text_channel));
                    proof {
                        let r0 = old(self)@;
                        assert(self@ =~= r0.push(fresh_session(guild, voice_channel, text_channel)));
                        assert forall|i: int, j: int|
                            0 <= i < self@.len() && 0 <= j < self@.len() && i != j implies (#[trigger] self@[i]).guild
                            != (#[trigger] self@[j]).guild by {
                            if i < r0.len() && j < r0.len() {
                                assert(self@[i] == r0[i] && self@[j] == r0[j]);
                            } else if i < r0.len() {
                                assert(self@[i] == r0[i]);
                            } else if j < r0.len() {
                                assert(self@[j] == r0[j]);
                            }
                        }
                        assert forall|i: int| 0 <= i < self@.len() implies session_wf(#[trigger] self@[i]) by {
                            if i < r0.len() {
                                assert(self@[i] == r0[i]);
                            }
                        }
                    }
                    Ok(n)
                },
            },
        }
    }

    /// Drops the session of `guild`, and with it all of its subscriptions, so
    /// that a later firing for the guild finds nothing to act on. Returns
    /// whether there was one.
    pub fn remove(&mut self, guild: u64) -> (r: bool)
        requires
            registry_wf(old(self)@),
        ensures
            registry_wf(final(self)@),
            final(self)@ == removed(old(self)@, guild),
            r == has_guild(old(self)@, guild),
    {
        match self.find(guild) {
            None => false,
            Some(i) => {
                self.sessions.remove(i);
                proof {
                    let r0 = old(self)@;
                    assert(self@ =~= r0.remove(i as int));
                    assert forall|a: int, b: int|
                        0 <= a < self@.len() && 0 <= b < self@.len() && a != b implies (#[trigger] self@[a]).guild
                        != (#[trigger] self@[b]).guild by {
                        let a0 = if a < i { a } else { a + 1 };
                        let b0 = if b < i { b } else { b + 1 };
                        assert(self@[a] == r0[a0] && self@[b] == r0[b0]);
                    }
                    assert forall|a: int| 0 <= a < self@.len() implies session_wf(#[trigger] self@[a]) by {
                        let a0 = if a < i { a } else { a + 1 };
                        assert(self@[a] == r0[a0]);
                    }
                }
                true
            },
        }
    }

    /// The session at position `i`, to change in place.
    pub(crate) fn at_mut(&mut self, i: usize) -> (s: &mut VoiceSession)
        requires
            i < old(self)@.len(),
        ensures
            s@ == old(self)@[i as int],
            final(self)@ == old(self)@.update(i as int, final(s)@),
    {
        let s = &mut self.sessions[i];
        s
    }

    /// Delivers a periodic firing of subscription `id` of `guild`. The
    /// session is looked up first: a firing for a guild that has left does
    /// nothing at all.
    pub fn fire(&mut self, guild: u64, id: u64) -> (effects: Vec<Effect>)
        requires
            registry_wf(old(self)@),
        ensures
            registry_wf(final(self)@),
            (final(self)@, effects@) == registry_fired(old(self)@, guild, id),
    {
        match self.find(guild) {
            None => Vec::new(),
            Some(i) => {
                let s = self.at_mut(i);
                let effects = s.fire_periodic(id);
                proof {
                    lemma_replace_wf(old(self)@, i as int, self@[i as int]);
                }
                effects
            },
        }
    }

    /// Reports the end of `track` in `guild` to its session; nothing happens
    /// for a guild that has left.
    pub fn end_track(&mut self, guild: u64, track: u64) -> (effects: Vec<Effect>)
        requires
            registry_wf(old(self)@),
        ensures
            registry_wf(final(self)@),
            (final(self)@, effects@) == registry_track_ended(old(self)@, guild, track),
    {
        match self.find(guild) {
            None => Vec::new(),
            Some(i) => {
                let s = self.at_mut(i);
                let effects = s.end_track(track);
                proof {
                    lemma_replace_wf(old(self)@, i as int, self@[i as int]);
                }
                effects
            },
        }
    }
}

} // verus!
