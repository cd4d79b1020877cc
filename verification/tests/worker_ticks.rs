use music_lib_manager::music_library::Song;
use music_lib_manager::player::PlayerState;
use music_lib_manager::queue::Queue;
use music_lib_manager::worker::{plan_tick, reconcile_tick, TickPlan};

fn song(name: &str) -> Song {
    Song {
        name: name.to_string(),
        artist: "Artist".to_string(),
        album: "Album".to_string(),
        duration: 60,
        path: format!("/music/{name}.mp3"),
    }
}

#[test]
fn finished_track_advances_to_the_queue_head() {
    // Playing(song_a), the sink just ran dry, queue [song_b, song_c]:
    // one tick begins song_b and leaves [song_c] waiting.
    let state = PlayerState::Playing(song("song_a"));
    let mut queue = Queue::new();
    queue.add_song(song("song_b"));
    queue.add_song(song("song_c"));
    let out = reconcile_tick(&state, false, true, &mut queue, true);
    match out.write {
        Some(PlayerState::Playing(s)) => assert_eq!(s.name, "song_b"),
        _ => panic!("the tick must commit Playing(song_b)"),
    }
    match out.begin_song {
        Some(s) => assert_eq!(s.name, "song_b"),
        None => panic!("the tick must hand song_b to the sink"),
    }
    assert!(out.persist_queue);
    assert!(!out.terminate);
    let rest = queue.pop().expect("song_c must still wait");
    assert_eq!(rest.name, "song_c");
    assert!(queue.pop().is_none());
}

#[test]
fn skip_with_empty_queue_stops_and_terminates() {
    // Skip(song_a) against an empty queue: one tick writes Stopped and the
    // worker leaves its loop.
    let state = PlayerState::Skip(song("song_a"));
    let mut queue = Queue::new();
    let out = reconcile_tick(&state, false, false, &mut queue, false);
    assert!(matches!(out.write, Some(PlayerState::Stopped)));
    assert!(out.terminate);
    assert!(out.stop_sink);
}

#[test]
fn undecodable_song_is_skipped_not_requeued() {
    // Playing(song_a) whose file cannot be opened, queue [song_b]: the tick
    // consumes the head without halting; the following sweep reaches
    // song_b. song_a never re-enters the queue.
    let state = PlayerState::Playing(song("song_a"));
    let mut queue = Queue::new();
    queue.add_song(song("song_b"));
    let out = reconcile_tick(&state, false, true, &mut queue, false);
    match &out.write {
        Some(PlayerState::Skip(s)) => assert_eq!(s.name, "song_b"),
        _ => panic!("a failed decode out of Playing must record a skip"),
    }
    assert!(out.begin_song.is_none());
    assert!(!out.persist_queue);
    assert!(!out.terminate);
    assert!(queue.pop().is_none());

    // The sweep that follows, with the store still holding [song_b] (the
    // pop above was not persisted) and song_b's file opening fine.
    let state = match out.write {
        Some(st) => st,
        None => unreachable!(),
    };
    let mut store = Queue::new();
    store.add_song(song("song_b"));
    let out = reconcile_tick(&state, false, true, &mut store, true);
    match out.write {
        Some(PlayerState::Playing(s)) => assert_eq!(s.name, "song_b"),
        _ => panic!("the sweep must reach song_b"),
    }
    assert!(out.persist_queue);
    assert!(!out.terminate);
}

#[test]
fn skip_sweep_persists_the_pop_of_a_bad_entry() {
    let state = PlayerState::Skip(song("song_a"));
    let mut queue = Queue::new();
    queue.add_song(song("broken"));
    queue.add_song(song("song_b"));
    let out = reconcile_tick(&state, false, false, &mut queue, false);
    match out.write {
        Some(PlayerState::Skip(s)) => assert_eq!(s.name, "broken"),
        _ => panic!("the sweep must record the bad entry as skipped"),
    }
    assert!(out.persist_queue, "the bad entry must not re-enter the queue");
    assert!(out.stop_sink);
    assert!(!out.terminate);
}

#[test]
fn playing_with_empty_queue_and_dry_sink_shuts_down() {
    let state = PlayerState::Playing(song("last"));
    let mut queue = Queue::new();
    let out = reconcile_tick(&state, false, true, &mut queue, false);
    assert!(matches!(out.write, Some(PlayerState::Stopped)));
    assert!(out.stop_sink);
    assert!(out.terminate);
}

#[test]
fn paused_state_pauses_a_running_sink_once() {
    let state = PlayerState::Paused(song("a"));
    assert_eq!(plan_tick(&state, false, false), TickPlan::PauseSink);
    assert_eq!(plan_tick(&state, true, false), TickPlan::Wait);
}

#[test]
fn playing_resumes_a_paused_sink() {
    let state = PlayerState::Playing(song("a"));
    assert_eq!(plan_tick(&state, true, false), TickPlan::ResumeSink);
    assert_eq!(plan_tick(&state, false, false), TickPlan::Wait);
    assert_eq!(plan_tick(&state, false, true), TickPlan::AdvanceQueue { from_skip: false });
}

#[test]
fn stopped_state_flushes_and_terminates() {
    let state = PlayerState::Stopped;
    assert_eq!(plan_tick(&state, false, false), TickPlan::Shutdown { stop_sink: true });
    assert_eq!(plan_tick(&state, false, true), TickPlan::Shutdown { stop_sink: false });
    let mut queue = Queue::new();
    let out = reconcile_tick(&state, false, false, &mut queue, false);
    assert!(out.stop_sink);
    assert!(out.terminate);
    assert!(out.write.is_none());
}

#[test]
fn starting_state_waits_for_the_dispatcher() {
    let state = PlayerState::Starting;
    assert_eq!(plan_tick(&state, false, true), TickPlan::Wait);
    let mut queue = Queue::new();
    queue.add_song(song("waiting"));
    let out = reconcile_tick(&state, false, true, &mut queue, true);
    assert!(out.write.is_none());
    assert!(!out.terminate);
    assert_eq!(queue.len(), 1);
}
