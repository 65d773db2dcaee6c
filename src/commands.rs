use vstd::prelude::*;
use vstd::std_specs::iter::IteratorSpec;
use crate::events::Effect;
use crate::registry::{created, has_guild, index_of, registry_wf, removed, lemma_replace_wf, Registry};
use crate::session::{end_notice, enqueued, fade_started, has_room, skipped, stopped, with_flags, with_parts, SessionModel};
use crate::queue::{queue_paused, queue_resumed};

verus! {

broadcast use vstd::string::group_string_axioms;

/// A source locator is accepted when it starts with `http`.
pub open spec fn url_ok(url: Seq<char>) -> bool {
    url.len() >= 4 && url[0] == 'h' && url[1] == 't' && url[2] == 't' && url[3] == 'p'
}

/// Whether `url` starts with `http`.
pub fn is_valid_url(url: &String) -> (b: bool)
    ensures
        b == url_ok(url@),
{
    let mut chars = url.as_str().chars();
    let expected = ['h', 't', 't', 'p'];
    let mut k: usize = 0;
    while k < 4
        invariant
            k <= 4,
            expected@ == seq!['h', 't', 't', 'p'],
            IteratorSpec::remaining(&chars) == url@.skip(k as int),
            chars.obeys_prophetic_iter_laws(),
            url@.len() >= k,
            forall|j: int| 0 <= j < k ==> url@[j] == expected@[j],
        decreases 4 - k,
    {
        match chars.next() {
            Some(c) => {
                if c != expected[k] {
                    return false;
                }
            },
            None => {
                return false;
            },
        }
        k = k + 1;
    }
    true
}


/// What a command reports to the user.
#[derive(Clone, Debug, PartialEq, Eq)]
pub enum Reply {
    /// The guild has no session.
    NotConnected,
    /// The user who asked to join is in no voice channel.
    UserNotInVoice,
    /// The source locator does not start with `http`.
    InvalidUrl,
    /// The session has no room for another track.
    NoRoom,
    Joined { channel: u64 },
    /// The guild has a session already, connected to `channel`.
    AlreadyJoined { channel: u64 },
    Left,
    AlreadyMuted,
    Muted,
    Unmuted,
    AlreadyDeafened,
    Deafened,
    Undeafened,
    /// A backend call failed.
    Failed { reason: String },
    /// The media source could not be resolved.
    SourceFailed { reason: String },
    /// Queued at the 1-based `position`.
    Enqueued { position: usize, track: u64 },
    /// Playing at once, outside the queue, fading out.
    PlayingFaded { track: u64 },
    Skipped { remaining: usize },
    Stopped,
    Paused,
    Resumed,
}

/// A call on the voice backend or the media-source resolver that a command
/// needs before it can finish.
#[derive(Clone, Debug, PartialEq, Eq)]
pub enum BackendCall {
    Join { channel: u64 },
    Leave,
    SetMute { on: bool },
    SetDeaf { on: bool },
    Resolve { url: String, fade: bool },
}

/// The first step of a command: a reply at once, or a backend call whose
/// outcome goes to `settle`.
#[derive(Clone, Debug, PartialEq, Eq)]
pub enum Plan {
    Reply(Reply),
    Call(BackendCall),
}

/// A reply, and what the media engine is asked to do.
pub struct Outcome {
    pub reply: Reply,
    pub effects: Vec<Effect>,
}

/// The session of `guild`.
pub open spec fn session_of(r: Seq<SessionModel>, guild: u64) -> SessionModel {
    r[index_of(r, guild)]
}

/// `r` with the session of `guild` replaced by `s`.
pub open spec fn with_session(r: Seq<SessionModel>, guild: u64, s: SessionModel) -> Seq<SessionModel> {
    r.update(index_of(r, guild), s)
}

/// The registry and the reply once `call`, made for `guild` from
/// `text_channel`, came back with `outcome`.
pub open spec fn settled(
    r: Seq<SessionModel>,
    guild: u64,
    text_channel: u64,
    call: BackendCall,
    outcome: Result<(), String>,
) -> (Seq<SessionModel>, Reply) {
    let s = session_of(r, guild);
    match call {
        BackendCall::Join { channel } => match outcome {
            Ok(_) => (created(r, guild, channel, text_channel), Reply::Joined { channel }),
            Err(e) => (r, Reply::Failed { reason: e }),
        },
        BackendCall::Leave => {
            if !has_guild(r, guild) {
                (r, Reply::NotConnected)
            } else {
                match outcome {
                    Ok(_) => (removed(r, guild), Reply::Left),
                    Err(e) => (r, Reply::Failed { reason: e }),
                }
            }
        },
        BackendCall::SetMute { on } => {
            if !has_guild(r, guild) {
                (r, Reply::NotConnected)
            } else {
                match outcome {
                    Ok(_) => (
                        with_session(r, guild, with_flags(s, on, s.deafened)),
                        if on { Reply::Muted } else { Reply::Unmuted },
                    ),
                    Err(e) => (r, Reply::Failed { reason: e }),
                }
            }
        },
        BackendCall::SetDeaf { on } => {
            if !has_guild(r, guild) {
                (r, Reply::NotConnected)
            } else {
                match outcome {
                    Ok(_) => (
                        with_session(r, guild, with_flags(s, s.muted, on)),
                        if on { Reply::Deafened } else { Reply::Undeafened },
                    ),
                    Err(e) => (r, Reply::Failed { reason: e }),
                }
            }
        },
        BackendCall::Resolve { url, fade } => {
            if !has_guild(r, guild) {
                (r, Reply::NotConnected)
            } else {
                match outcome {
                    Err(e) => (r, Reply::SourceFailed { reason: e }),
                    Ok(_) => {
                        if !has_room(s) {
                            (r, Reply::NoRoom)
                        } else if fade {
                            (with_session(r, guild, fade_started(s)), Reply::PlayingFaded { track: s.next_id })
                        } else {
                            (
                                with_session(r, guild, enqueued(s, url@)),
                                Reply::Enqueued {
                                    position: (s.queue.items.len() + 1) as usize,
                                    track: s.next_id,
                                },
                            )
                        }
                    },
                }
            }
        },
    }
}

/// Finishes a command whose backend `call` for `guild` came back with
/// `outcome`: the registry changes only where the call succeeded, so that a
/// failed call can be retried.
pub fn settle(
    reg: &mut Registry,
    guild: u64,
    text_channel: u64,
    call: BackendCall,
    outcome: Result<(), String>,
) -> (reply: Reply)
    requires
        registry_wf(old(reg)@),
    ensures
        registry_wf(final(reg)@),
        (final(reg)@, reply) == settled(old(reg)@, guild, text_channel, call, outcome),
{
    match call {
        BackendCall::Join { channel } => match outcome {
            Err(e) => Reply::Failed { reason: e },
            Ok(()) => match reg.get_or_create(guild, channel, text_channel, Ok(())) {
                Ok(_) => Reply::Joined { channel },
                Err(e) => Reply::Failed { reason: e },
            },
        },
        BackendCall::Leave => {
            if reg.find(guild).is_none() {
                Reply::NotConnected
            } else {
                match outcome {
                    Err(e) => Reply::Failed { reason: e },
                    Ok(()) => {
                        reg.remove(guild);
                        Reply::Left
                    },
                }
            }
        },
        BackendCall::SetMute { on } => {
            let i = match reg.find(guild) {
                Some(i) => i,
                None => {
                    return Reply::NotConnected;
                },
            };
            match outcome {
                Err(e) => Reply::Failed { reason: e },
                Ok(()) => {
                    let s = reg.at_mut(i);
                    s.set_muted(on);
                    proof {
                        lemma_replace_wf(old(reg)@, i as int, reg@[i as int]);
                    }
                    if on {
                        Reply::Muted
                    } else {
                        Reply::Unmuted
                    }
                },
            }
        },
        BackendCall::SetDeaf { on } => {
            let i = match reg.find(guild) {
                Some(i) => i,
                None => {
                    return Reply::NotConnected;
                },
            };
            match outcome {
                Err(e) => Reply::Failed { reason: e },
                Ok(()) => {
                    let s = reg.at_mut(i);
                    s.set_deafened(on);
                    proof {
                        lemma_replace_wf(old(reg)@, i as int, reg@[i as int]);
                    }
                    if on {
                        Reply::Deafened
                    } else {
                        Reply::Undeafened
                    }
                },
            }
        },
        BackendCall::Resolve { url, fade } => {
            let i = match reg.find(guild) {
                Some(i) => i,
                None => {
                    return Reply::NotConnected;
                },
            };
            match outcome {
                Err(e) => Reply::SourceFailed { reason: e },
                Ok(()) => {
                    if !reg.at(i).has_room() {
                        return Reply::NoRoom;
                    }
                    let s = reg.at_mut(i);
                    if fade {
                        let track = s.start_faded();
                        proof {
                            lemma_replace_wf(old(reg)@, i as int, reg@[i as int]);
                        }
                        Reply::PlayingFaded { track }
                    } else {
                        let (position, track) = s.enqueue(url);
                        proof {
                            lemma_replace_wf(old(reg)@, i as int, reg@[i as int]);
                        }
                        Reply::Enqueued { position, track }
                    }
                },
            }
        },
    }
}


/// Joining: the user must be in a voice channel. A guild that has a session
/// keeps it, with no new connection; otherwise the user's channel is joined.
pub fn join(reg: &Registry, guild: u64, user_channel: Option<u64>) -> (p: Plan)
    requires
        registry_wf(reg@),
    ensures
        user_channel is None ==> p == Plan::Reply(Reply::UserNotInVoice),
        user_channel is Some && has_guild(reg@, guild) ==> p == Plan::Reply(
            Reply::AlreadyJoined { channel: session_of(reg@, guild).voice_channel },
        ),
        user_channel is Some && !has_guild(reg@, guild) ==> p == Plan::Call(
            BackendCall::Join { channel: user_channel->0 },
        ),
{
    match user_channel {
        None => Plan::Reply(Reply::UserNotInVoice),
        Some(channel) => match reg.get(guild) {
            Some(s) => Plan::Reply(Reply::AlreadyJoined { channel: s.voice_channel() }),
            None => Plan::Call(BackendCall::Join { channel }),
        },
    }
}

/// Leaving: only a guild with a session can leave.
pub fn leave(reg: &Registry, guild: u64) -> (p: Plan)
    requires
        registry_wf(reg@),
    ensures
        !has_guild(reg@, guild) ==> p == Plan::Reply(Reply::NotConnected),
        has_guild(reg@, guild) ==> p == Plan::Call(BackendCall::Leave),
{
    match reg.find(guild) {
        Some(_) => Plan::Call(BackendCall::Leave),
        None => Plan::Reply(Reply::NotConnected),
    }
}

/// First step of muting `guild`.
pub open spec fn mute_plan(r: Seq<SessionModel>, guild: u64) -> Plan {
    if !has_guild(r, guild) {
        Plan::Reply(Reply::NotConnected)
    } else if session_of(r, guild).muted {
        Plan::Reply(Reply::AlreadyMuted)
    } else {
        Plan::Call(BackendCall::SetMute { on: true })
    }
}

/// First step of deafening `guild`.
pub open spec fn deafen_plan(r: Seq<SessionModel>, guild: u64) -> Plan {
    if !has_guild(r, guild) {
        Plan::Reply(Reply::NotConnected)
    } else if session_of(r, guild).deafened {
        Plan::Reply(Reply::AlreadyDeafened)
    } else {
        Plan::Call(BackendCall::SetDeaf { on: true })
    }
}

/// Muting: a session that is muted already needs no backend call.
pub fn mute(reg: &Registry, guild: u64) -> (p: Plan)
    requires
        registry_wf(reg@),
    ensures
        p == mute_plan(reg@, guild),
{
    match reg.get(guild) {
        None => Plan::Reply(Reply::NotConnected),
        Some(s) => {
            if s.is_muted() {
                Plan::Reply(Reply::AlreadyMuted)
            } else {
                Plan::Call(BackendCall::SetMute { on: true })
            }
        },
    }
}

/// Unmuting: always a backend call, where there is a session.
pub fn unmute(reg: &Registry, guild: u64) -> (p: Plan)
    requires
        registry_wf(reg@),
    ensures
        !has_guild(reg@, guild) ==> p == Plan::Reply(Reply::NotConnected),
        has_guild(reg@, guild) ==> p == Plan::Call(BackendCall::SetMute { on: false }),
{
    match reg.find(guild) {
        Some(_) => Plan::Call(BackendCall::SetMute { on: false }),
        None => Plan::Reply(Reply::NotConnected),
    }
}

/// Deafening: a session that is deafened already needs no backend call.
pub fn deafen(reg: &Registry, guild: u64) -> (p: Plan)
    requires
        registry_wf(reg@),
    ensures
        p == deafen_plan(reg@, guild),
{
    match reg.get(guild) {
        None => Plan::Reply(Reply::NotConnected),
        Some(s) => {
            if s.is_deafened() {
                Plan::Reply(Reply::AlreadyDeafened)
            } else {
                Plan::Call(BackendCall::SetDeaf { on: true })
            }
        },
    }
}

/// Undeafening: always a backend call, where there is a session.
pub fn undeafen(reg: &Registry, guild: u64) -> (p: Plan)
    requires
        registry_wf(reg@),
    ensures
        !has_guild(reg@, guild) ==> p == Plan::Reply(Reply::NotConnected),
        has_guild(reg@, guild) ==> p == Plan::Call(BackendCall::SetDeaf { on: false }),
{
    match reg.find(guild) {
        Some(_) => Plan::Call(BackendCall::SetDeaf { on: false }),
        None => Plan::Reply(Reply::NotConnected),
    }
}

/// Shared first step of `play` and `play_fade`.
fn plan_source(reg: &Registry, guild: u64, url: String, fade: bool) -> (p: Plan)
    requires
        registry_wf(reg@),
    ensures
        !url_ok(url@) ==> p == Plan::Reply(Reply::InvalidUrl),
        url_ok(url@) && !has_guild(reg@, guild) ==> p == Plan::Reply(Reply::NotConnected),
        url_ok(url@) && has_guild(reg@, guild) ==> p == Plan::Call(BackendCall::Resolve { url, fade }),
{
    if !is_valid_url(&url) {
        return Plan::Reply(Reply::InvalidUrl);
    }
    match reg.find(guild) {
        Some(_) => Plan::Call(BackendCall::Resolve { url, fade }),
        None => Plan::Reply(Reply::NotConnected),
    }
}

/// Queueing `url`: it must start with `http`, and the guild needs a session;
/// then the source is resolved.
pub fn play(reg: &Registry, guild: u64, url: String) -> (p: Plan)
    requires
        registry_wf(reg@),
    ensures
        !url_ok(url@) ==> p == Plan::Reply(Reply::InvalidUrl),
        url_ok(url@) && !has_guild(reg@, guild) ==> p == Plan::Reply(Reply::NotConnected),
        url_ok(url@) && has_guild(reg@, guild) ==> p == Plan::Call(BackendCall::Resolve { url, fade: false }),
{
    plan_source(reg, guild, url, false)
}

/// Playing `url` at once, outside the queue, with a fade-out: the same
/// checks as `play`.
pub fn play_fade(reg: &Registry, guild: u64, url: String) -> (p: Plan)
    requires
        registry_wf(reg@),
    ensures
        !url_ok(url@) ==> p == Plan::Reply(Reply::InvalidUrl),
        url_ok(url@) && !has_guild(reg@, guild) ==> p == Plan::Reply(Reply::NotConnected),
        url_ok(url@) && has_guild(reg@, guild) ==> p == Plan::Call(BackendCall::Resolve { url, fade: true }),
{
    plan_source(reg, guild, url, true)
}

/// Skipping the head of the queue of `guild`; reports how many items are left.
pub fn skip(reg: &mut Registry, guild: u64) -> (o: Outcome)
    requires
        registry_wf(old(reg)@),
    ensures
        registry_wf(final(reg)@),
        !has_guild(old(reg)@, guild) ==> final(reg)@ == old(reg)@ && o.reply == Reply::NotConnected
            && o.effects@.len() == 0,
        has_guild(old(reg)@, guild) ==> {
            let s = session_of(old(reg)@, guild);
            &&& final(reg)@ == with_session(old(reg)@, guild, skipped(s))
            &&& o.reply == Reply::Skipped { remaining: skipped(s).queue.items.len() as usize }
            &&& o.effects@ == if s.queue.items.len() == 0 {
                Seq::<Effect>::empty()
            } else {
                seq![Effect::SkipCurrent] + end_notice(s)
            }
        },
{
    match reg.find(guild) {
        None => Outcome { reply: Reply::NotConnected, effects: Vec::new() },
        Some(i) => {
            let s = reg.at_mut(i);
            let (remaining, effects) = s.skip();
            proof {
                lemma_replace_wf(old(reg)@, i as int, reg@[i as int]);
            }
            Outcome { reply: Reply::Skipped { remaining }, effects }
        },
    }
}

/// Stopping the queue of `guild`: every item goes.
pub fn stop(reg: &mut Registry, guild: u64) -> (o: Outcome)
    requires
        registry_wf(old(reg)@),
    ensures
        registry_wf(final(reg)@),
        !has_guild(old(reg)@, guild) ==> final(reg)@ == old(reg)@ && o.reply == Reply::NotConnected
            && o.effects@.len() == 0,
        has_guild(old(reg)@, guild) ==> {
            &&& final(reg)@ == with_session(old(reg)@, guild, stopped(session_of(old(reg)@, guild)))
            &&& o.reply == Reply::Stopped
            &&& o.effects@ == seq![Effect::StopQueue] + end_notice(session_of(old(reg)@, guild))
        },
{
    match reg.find(guild) {
        None => Outcome { reply: Reply::NotConnected, effects: Vec::new() },
        Some(i) => {
            let s = reg.at_mut(i);
            let effects = s.stop();
            proof {
                lemma_replace_wf(old(reg)@, i as int, reg@[i as int]);
            }
            Outcome { reply: Reply::Stopped, effects }
        },
    }
}

/// `s` with its queue paused or not.
pub open spec fn with_paused(s: SessionModel, paused: bool) -> SessionModel {
    with_parts(s, if paused { queue_paused(s.queue) } else { queue_resumed(s.queue) }, s.subs)
}

/// Pausing the queue of `guild`; an empty queue pauses too.
pub fn pause(reg: &mut Registry, guild: u64) -> (o: Outcome)
    requires
        registry_wf(old(reg)@),
    ensures
        registry_wf(final(reg)@),
        !has_guild(old(reg)@, guild) ==> final(reg)@ == old(reg)@ && o.reply == Reply::NotConnected
            && o.effects@.len() == 0,
        has_guild(old(reg)@, guild) ==> {
            &&& final(reg)@ == with_session(old(reg)@, guild, with_paused(session_of(old(reg)@, guild), true))
            &&& o.reply == Reply::Paused
            &&& o.effects@ == seq![Effect::PauseQueue]
        },
{
    match reg.find(guild) {
        None => Outcome { reply: Reply::NotConnected, effects: Vec::new() },
        Some(i) => {
            let s = reg.at_mut(i);
            let effects = s.pause();
            proof {
                lemma_replace_wf(old(reg)@, i as int, reg@[i as int]);
            }
            Outcome { reply: Reply::Paused, effects }
        },
    }
}

/// Resuming the queue of `guild`.
pub fn resume(reg: &mut Registry, guild: u64) -> (o: Outcome)
    requires
        registry_wf(old(reg)@),
    ensures
        registry_wf(final(reg)@),
        !has_guild(old(reg)@, guild) ==> final(reg)@ == old(reg)@ && o.reply == Reply::NotConnected
            && o.effects@.len() == 0,
        has_guild(old(reg)@, guild) ==> {
            &&& final(reg)@ == with_session(old(reg)@, guild, with_paused(session_of(old(reg)@, guild), false))
            &&& o.reply == Reply::Resumed
            &&& o.effects@ == seq![Effect::ResumeQueue]
        },
{
    match reg.find(guild) {
        None => Outcome { reply: Reply::NotConnected, effects: Vec::new() },
        Some(i) => {
            let s = reg.at_mut(i);
            let effects = s.resume();
            proof {
                lemma_replace_wf(old(reg)@, i as int, reg@[i as int]);
            }
            Outcome { reply: Reply::Resumed, effects }
        },
    }
}

} // verus!
