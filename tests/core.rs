use voice_session::commands::{
    deafen, is_valid_url, join, leave, mute, pause, play, play_fade, resume, settle, skip, stop,
    undeafen, unmute, BackendCall, Plan, Reply,
};
use voice_session::events::{Effect, Handler, Notice, Trigger, FADE_FLOOR};
use voice_session::queue::{PlayState, PlaybackQueue, FULL_VOLUME};
use voice_session::registry::Registry;
use voice_session::session::VoiceSession;

const GUILD: u64 = 7;
const VOICE: u64 = 100;
const TEXT: u64 = 200;

fn joined() -> Registry {
    let mut reg = Registry::new();
    let reply = settle(&mut reg, GUILD, TEXT, BackendCall::Join { channel: VOICE }, Ok(()));
    assert_eq!(reply, Reply::Joined { channel: VOICE });
    reg
}

fn call_of(p: Plan) -> BackendCall {
    match p {
        Plan::Call(c) => c,
        Plan::Reply(r) => panic!("expected a backend call, got {:?}", r),
    }
}

#[test]
fn enqueue_three_then_skip_three() {
    let mut q = PlaybackQueue::new();
    assert_eq!(q.enqueue(1, "http://a".to_string()), 1);
    assert_eq!(q.enqueue(2, "http://b".to_string()), 2);
    assert_eq!(q.enqueue(3, "http://c".to_string()), 3);
    assert_eq!(q.skip(), (Some(1), 2));
    assert_eq!(q.skip(), (Some(2), 1));
    assert_eq!(q.skip(), (Some(3), 0));
    assert_eq!(q.skip(), (None, 0));
    assert_eq!(q.len(), 0);
}

#[test]
fn play_three_then_skip_three_through_commands() {
    let mut reg = joined();
    for (k, url) in ["http://a", "http://b", "http://c"].iter().enumerate() {
        let c = call_of(play(&reg, GUILD, url.to_string()));
        match settle(&mut reg, GUILD, TEXT, c, Ok(())) {
            Reply::Enqueued { position, .. } => assert_eq!(position, k + 1),
            r => panic!("unexpected {:?}", r),
        }
    }
    for left in [2usize, 1, 0] {
        let o = skip(&mut reg, GUILD);
        assert_eq!(o.reply, Reply::Skipped { remaining: left });
        assert_eq!(o.effects, vec![Effect::SkipCurrent, Effect::Say(Notice::TrackEnded)]);
    }
    let o = skip(&mut reg, GUILD);
    assert_eq!(o.reply, Reply::Skipped { remaining: 0 });
    assert!(o.effects.is_empty());
}

#[test]
fn head_plays_unless_paused() {
    let mut q = PlaybackQueue::new();
    q.enqueue(1, "http://a".to_string());
    q.enqueue(2, "http://b".to_string());
    assert_eq!(q.item_state(0), PlayState::Playing);
    assert_eq!(q.item_state(1), PlayState::Queued);
    q.pause();
    assert_eq!(q.item_state(0), PlayState::Paused);
    q.resume();
    assert_eq!(q.item_state(0), PlayState::Playing);
    assert_eq!(q.item_volume(0), FULL_VOLUME);
    assert_eq!(q.head(), Some(1));
}

#[test]
fn pause_then_resume_keeps_playing_item() {
    let mut reg = joined();
    let c = call_of(play(&reg, GUILD, "http://a".to_string()));
    settle(&mut reg, GUILD, TEXT, c, Ok(()));
    let o = pause(&mut reg, GUILD);
    assert_eq!(o.reply, Reply::Paused);
    assert_eq!(o.effects, vec![Effect::PauseQueue]);
    let o = resume(&mut reg, GUILD);
    assert_eq!(o.reply, Reply::Resumed);
    assert_eq!(o.effects, vec![Effect::ResumeQueue]);
    let q = reg.get(GUILD).unwrap().queue();
    assert_eq!(q.len(), 1);
    assert_eq!(q.item_state(0), PlayState::Playing);
    assert_eq!(q.item_volume(0), FULL_VOLUME);
}

#[test]
fn pause_on_empty_queue_is_acknowledged() {
    let mut reg = joined();
    assert_eq!(pause(&mut reg, GUILD).reply, Reply::Paused);
    assert!(reg.get(GUILD).unwrap().queue().is_paused());
}

#[test]
fn enqueue_while_paused_waits() {
    let mut reg = joined();
    pause(&mut reg, GUILD);
    let c = call_of(play(&reg, GUILD, "http://a".to_string()));
    settle(&mut reg, GUILD, TEXT, c, Ok(()));
    assert_eq!(reg.get(GUILD).unwrap().queue().item_state(0), PlayState::Queued);
    let c = call_of(play(&reg, GUILD, "http://b".to_string()));
    settle(&mut reg, GUILD, TEXT, c, Ok(()));
    assert_eq!(reg.get(GUILD).unwrap().queue().item_state(1), PlayState::Queued);
    let o = stop(&mut reg, GUILD);
    assert_eq!(o.effects, vec![Effect::StopQueue]);
    let c = call_of(play(&reg, GUILD, "http://a".to_string()));
    settle(&mut reg, GUILD, TEXT, c, Ok(()));
    assert_eq!(reg.get(GUILD).unwrap().queue().item_state(0), PlayState::Queued);
    resume(&mut reg, GUILD);
    assert_eq!(reg.get(GUILD).unwrap().queue().item_state(0), PlayState::Playing);
}

#[test]
fn fader_stops_on_seventh_firing_once() {
    let mut h = Some(Handler::Fader { volume: FULL_VOLUME });
    let mut stops = 0;
    let mut volumes = Vec::new();
    let mut cancelled_at = 0;
    for firing in 1..=12 {
        if let Some(g) = h {
            let (next, effects) = g.on_fire(9);
            for e in &effects {
                match e {
                    Effect::SetVolume { volume, .. } => volumes.push(*volume),
                    Effect::Say(Notice::StoppingSong) => stops += 1,
                    _ => {}
                }
            }
            if next.is_none() {
                cancelled_at = firing;
                assert!(effects.contains(&Effect::StopTrack { track: 9 }));
            }
            h = next;
        }
    }
    assert_eq!(cancelled_at, 7);
    assert_eq!(stops, 1);
    assert_eq!(volumes, vec![500_000, 250_000, 125_000, 62_500, 31_250, 15_625, 7_812]);
    assert!(7_812 < FADE_FLOOR);
}

#[test]
fn fader_reduces_volume_above_floor() {
    let (next, effects) = Handler::Fader { volume: 40_000 }.on_fire(3);
    assert_eq!(next, Some(Handler::Fader { volume: 20_000 }));
    assert_eq!(
        effects,
        vec![Effect::SetVolume { track: 3, volume: 20_000 }, Effect::Say(Notice::VolumeReduced)]
    );
}

#[test]
fn faded_play_through_session_events() {
    let mut reg = joined();
    let c = call_of(play_fade(&reg, GUILD, "https://song".to_string()));
    let track = match settle(&mut reg, GUILD, TEXT, c, Ok(())) {
        Reply::PlayingFaded { track } => track,
        r => panic!("unexpected {:?}", r),
    };
    let s = reg.get(GUILD).unwrap();
    assert_eq!(s.queue().len(), 0);
    let mut fader = None;
    for i in 0..s.subscription_count() {
        let sub = s.subscription_at(i);
        if sub.track == Some(track) {
            if let Trigger::Interval { period_secs, jitter_secs } = sub.trigger {
                assert_eq!((period_secs, jitter_secs), (5, Some(7)));
                fader = Some(sub.id);
            }
        }
    }
    let fader = fader.expect("fader subscription");
    let mut stops = 0;
    for _ in 0..10 {
        for e in reg.fire(GUILD, fader) {
            if e == Effect::Say(Notice::StoppingSong) {
                stops += 1;
            }
        }
    }
    assert_eq!(stops, 1);
    let effects = reg.end_track(GUILD, track);
    assert_eq!(
        effects,
        vec![
            Effect::Say(Notice::TrackEnded),
            Effect::StopQueue,
            Effect::Say(Notice::SongFadedOut),
        ]
    );
    assert!(reg.end_track(GUILD, track).is_empty());
}

#[test]
fn track_end_after_stop_is_ignored() {
    let mut reg = joined();
    let mut tracks = Vec::new();
    for url in ["http://a", "http://b"] {
        let c = call_of(play(&reg, GUILD, url.to_string()));
        if let Reply::Enqueued { track, .. } = settle(&mut reg, GUILD, TEXT, c, Ok(())) {
            tracks.push(track);
        }
    }
    let o = stop(&mut reg, GUILD);
    assert_eq!(o.reply, Reply::Stopped);
    assert_eq!(o.effects, vec![Effect::StopQueue, Effect::Say(Notice::TrackEnded)]);
    assert_eq!(reg.get(GUILD).unwrap().queue().len(), 0);
    for t in tracks {
        assert!(reg.end_track(GUILD, t).is_empty());
    }
}

#[test]
fn natural_end_of_head_announces_and_clears() {
    let mut reg = joined();
    let mut tracks = Vec::new();
    for url in ["http://a", "http://b"] {
        let c = call_of(play(&reg, GUILD, url.to_string()));
        if let Reply::Enqueued { track, .. } = settle(&mut reg, GUILD, TEXT, c, Ok(())) {
            tracks.push(track);
        }
    }
    assert!(reg.end_track(GUILD, tracks[1]).is_empty());
    let effects = reg.end_track(GUILD, tracks[0]);
    assert_eq!(effects, vec![Effect::Say(Notice::TrackEnded), Effect::StopQueue]);
    assert_eq!(reg.get(GUILD).unwrap().queue().len(), 0);
}

#[test]
fn mute_twice_calls_backend_once() {
    let mut reg = joined();
    let c = call_of(mute(&reg, GUILD));
    assert_eq!(c, BackendCall::SetMute { on: true });
    assert_eq!(settle(&mut reg, GUILD, TEXT, c, Ok(())), Reply::Muted);
    assert_eq!(mute(&reg, GUILD), Plan::Reply(Reply::AlreadyMuted));
    let c = call_of(unmute(&reg, GUILD));
    assert_eq!(settle(&mut reg, GUILD, TEXT, c, Ok(())), Reply::Unmuted);
    assert!(!reg.get(GUILD).unwrap().is_muted());
}

#[test]
fn deafen_twice_calls_backend_once() {
    let mut reg = joined();
    let c = call_of(deafen(&reg, GUILD));
    assert_eq!(c, BackendCall::SetDeaf { on: true });
    assert_eq!(settle(&mut reg, GUILD, TEXT, c, Ok(())), Reply::Deafened);
    assert_eq!(deafen(&reg, GUILD), Plan::Reply(Reply::AlreadyDeafened));
    let c = call_of(undeafen(&reg, GUILD));
    assert_eq!(settle(&mut reg, GUILD, TEXT, c, Ok(())), Reply::Undeafened);
}

#[test]
fn failed_mute_leaves_flag() {
    let mut reg = joined();
    let c = call_of(mute(&reg, GUILD));
    let reply = settle(&mut reg, GUILD, TEXT, c, Err("timeout".to_string()));
    assert_eq!(reply, Reply::Failed { reason: "timeout".to_string() });
    assert!(!reg.get(GUILD).unwrap().is_muted());
}

#[test]
fn commands_without_session_report_not_connected() {
    let mut reg = Registry::new();
    assert_eq!(mute(&reg, GUILD), Plan::Reply(Reply::NotConnected));
    assert_eq!(unmute(&reg, GUILD), Plan::Reply(Reply::NotConnected));
    assert_eq!(deafen(&reg, GUILD), Plan::Reply(Reply::NotConnected));
    assert_eq!(undeafen(&reg, GUILD), Plan::Reply(Reply::NotConnected));
    assert_eq!(leave(&reg, GUILD), Plan::Reply(Reply::NotConnected));
    assert_eq!(play(&reg, GUILD, "http://a".to_string()), Plan::Reply(Reply::NotConnected));
    assert_eq!(skip(&mut reg, GUILD).reply, Reply::NotConnected);
    assert_eq!(stop(&mut reg, GUILD).reply, Reply::NotConnected);
    assert_eq!(pause(&mut reg, GUILD).reply, Reply::NotConnected);
    assert_eq!(resume(&mut reg, GUILD).reply, Reply::NotConnected);
    assert_eq!(
        settle(&mut reg, GUILD, TEXT, BackendCall::SetMute { on: true }, Ok(())),
        Reply::NotConnected
    );
}

#[test]
fn urls_must_start_with_http() {
    let reg = joined();
    assert!(is_valid_url(&"http://x".to_string()));
    assert!(is_valid_url(&"https://x".to_string()));
    assert!(is_valid_url(&"http".to_string()));
    assert!(!is_valid_url(&"htt".to_string()));
    assert!(!is_valid_url(&"ftp://x".to_string()));
    assert!(!is_valid_url(&"".to_string()));
    assert_eq!(play(&reg, GUILD, "song".to_string()), Plan::Reply(Reply::InvalidUrl));
    assert_eq!(play_fade(&reg, GUILD, "ftp://x".to_string()), Plan::Reply(Reply::InvalidUrl));
    assert_eq!(reg.get(GUILD).unwrap().queue().len(), 0);
}

#[test]
fn unresolvable_source_leaves_queue() {
    let mut reg = joined();
    let c = call_of(play(&reg, GUILD, "http://bad".to_string()));
    let reply = settle(&mut reg, GUILD, TEXT, c, Err("no stream".to_string()));
    assert_eq!(reply, Reply::SourceFailed { reason: "no stream".to_string() });
    assert_eq!(reg.get(GUILD).unwrap().queue().len(), 0);
}

#[test]
fn join_needs_user_channel() {
    let reg = Registry::new();
    assert_eq!(join(&reg, GUILD, None), Plan::Reply(Reply::UserNotInVoice));
    assert_eq!(join(&reg, GUILD, Some(5)), Plan::Call(BackendCall::Join { channel: 5 }));
}

#[test]
fn join_with_session_makes_no_call() {
    let reg = joined();
    assert_eq!(join(&reg, GUILD, Some(5)), Plan::Reply(Reply::AlreadyJoined { channel: VOICE }));
    assert_eq!(join(&reg, GUILD, None), Plan::Reply(Reply::UserNotInVoice));
    assert_eq!(reg.len(), 1);
}

#[test]
fn failed_join_with_session_reports_failure() {
    let mut reg = joined();
    let reply = settle(&mut reg, GUILD, TEXT, BackendCall::Join { channel: 5 }, Err("denied".to_string()));
    assert_eq!(reply, Reply::Failed { reason: "denied".to_string() });
    assert_eq!(reg.get(GUILD).unwrap().voice_channel(), VOICE);
    assert_eq!(reg.len(), 1);
}

#[test]
fn join_failure_creates_nothing() {
    let mut reg = Registry::new();
    let reply = settle(&mut reg, GUILD, TEXT, BackendCall::Join { channel: VOICE }, Err("denied".to_string()));
    assert_eq!(reply, Reply::Failed { reason: "denied".to_string() });
    assert_eq!(reg.len(), 0);
}

#[test]
fn get_or_create_reuses_session() {
    let mut reg = Registry::new();
    assert_eq!(reg.get_or_create(GUILD, VOICE, TEXT, Ok(())), Ok(0));
    assert_eq!(reg.get_or_create(GUILD, 999, 998, Ok(())), Ok(0));
    assert_eq!(reg.get_or_create(GUILD, VOICE, TEXT, Err("x".to_string())), Ok(0));
    assert_eq!(reg.len(), 1);
    assert_eq!(reg.get(GUILD).unwrap().voice_channel(), VOICE);
    assert_eq!(reg.get_or_create(8, VOICE, TEXT, Ok(())), Ok(1));
    assert_eq!(reg.len(), 2);
    assert_eq!(reg.get_or_create(9, VOICE, TEXT, Err("denied".to_string())), Err("denied".to_string()));
    assert_eq!(reg.len(), 2);
}

#[test]
fn firing_after_leave_does_nothing() {
    let mut reg = joined();
    let presence = reg.get(GUILD).unwrap().subscription_at(1).id;
    assert_eq!(call_of(leave(&reg, GUILD)), BackendCall::Leave);
    assert_eq!(settle(&mut reg, GUILD, TEXT, BackendCall::Leave, Ok(())), Reply::Left);
    assert!(reg.get(GUILD).is_none());
    assert!(reg.fire(GUILD, presence).is_empty());
    assert!(reg.end_track(GUILD, 0).is_empty());
    assert_eq!(reg.len(), 0);
}

#[test]
fn failed_leave_keeps_session_for_retry() {
    let mut reg = joined();
    let reply = settle(&mut reg, GUILD, TEXT, BackendCall::Leave, Err("gone".to_string()));
    assert_eq!(reply, Reply::Failed { reason: "gone".to_string() });
    assert!(reg.get(GUILD).is_some());
    assert_eq!(call_of(leave(&reg, GUILD)), BackendCall::Leave);
    assert_eq!(settle(&mut reg, GUILD, TEXT, BackendCall::Leave, Ok(())), Reply::Left);
    assert!(reg.get(GUILD).is_none());
}

#[test]
fn skip_while_paused_leaves_next_queued() {
    let mut reg = joined();
    for url in ["http://a", "http://b"] {
        let c = call_of(play(&reg, GUILD, url.to_string()));
        settle(&mut reg, GUILD, TEXT, c, Ok(()));
    }
    pause(&mut reg, GUILD);
    assert_eq!(reg.get(GUILD).unwrap().queue().item_state(0), PlayState::Paused);
    let o = skip(&mut reg, GUILD);
    assert_eq!(o.reply, Reply::Skipped { remaining: 1 });
    assert_eq!(o.effects, vec![Effect::SkipCurrent, Effect::Say(Notice::TrackEnded)]);
    assert_eq!(reg.get(GUILD).unwrap().queue().item_state(0), PlayState::Queued);
    let o = skip(&mut reg, GUILD);
    assert_eq!(o.effects, vec![Effect::SkipCurrent]);
}

#[test]
fn fader_from_lower_volume_stops_sooner() {
    let mut h = Some(Handler::Fader { volume: 100_000 });
    let mut stops = 0;
    let mut cancelled_at = 0;
    for firing in 1..=10 {
        if let Some(g) = h {
            let (next, effects) = g.on_fire(1);
            stops += effects.iter().filter(|e| **e == Effect::Say(Notice::StoppingSong)).count();
            if next.is_none() {
                cancelled_at = firing;
            }
            h = next;
        }
    }
    assert_eq!(cancelled_at, 4);
    assert_eq!(stops, 1);
}

#[test]
fn presence_counts_minutes() {
    let mut reg = joined();
    let s = reg.get(GUILD).unwrap();
    let sub = s.subscription_at(1);
    assert_eq!(sub.trigger, Trigger::Interval { period_secs: 60, jitter_secs: None });
    let id = sub.id;
    for m in 1..=3u64 {
        let effects = reg.fire(GUILD, id);
        assert_eq!(effects, vec![Effect::Log(Notice::Presence { channel: VOICE, minutes: m })]);
    }
    assert_eq!(reg.get(GUILD).unwrap().subscription_count(), 2);
}

#[test]
fn unknown_subscription_firing_is_ignored() {
    let mut reg = joined();
    assert!(reg.fire(GUILD, 12345).is_empty());
    let end_id = reg.get(GUILD).unwrap().subscription_at(0).id;
    assert!(reg.fire(GUILD, end_id).is_empty());
}

#[test]
fn fresh_session_state() {
    let s = VoiceSession::new(1, 2, 3);
    assert_eq!((s.guild(), s.voice_channel(), s.text_channel()), (1, 2, 3));
    assert!(!s.is_muted() && !s.is_deafened());
    assert_eq!(s.subscription_count(), 2);
    assert_eq!(s.subscription_at(0).handler, Handler::QueueEndNotifier);
    assert!(s.has_room());
}

#[test]
fn find_locates_each_guild() {
    let mut reg = Registry::new();
    reg.get_or_create(3, VOICE, TEXT, Ok(())).unwrap();
    reg.get_or_create(4, VOICE + 1, TEXT, Ok(())).unwrap();
    assert_eq!(reg.find(3), Some(0));
    assert_eq!(reg.find(4), Some(1));
    assert_eq!(reg.find(5), None);
    assert_eq!(reg.at(1).voice_channel(), VOICE + 1);
    assert!(reg.remove(3));
    assert!(!reg.remove(3));
    assert_eq!(reg.find(4), Some(0));
}
