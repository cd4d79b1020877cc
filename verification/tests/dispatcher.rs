use music_lib_manager::cli::{playback_verb, Commands};
use music_lib_manager::music_library::Song;
use music_lib_manager::player::{
    CommandOutcome, Message, PeekResult, Player, PlayerAction, PlayerState, Verb, WorkerHandle,
    render_message, render_status, worker_start_allowed,
};

fn song(name: &str, artist: &str) -> Song {
    Song {
        name: name.to_string(),
        artist: artist.to_string(),
        album: "Album".to_string(),
        duration: 180,
        path: format!("/music/{name}.mp3"),
    }
}

fn assert_no_write(outcome: &CommandOutcome) {
    assert!(outcome.write.is_none());
    assert!(!outcome.start_worker);
}

#[test]
fn play_from_stopped_with_queue_starts_playing() {
    let player = Player::load(PlayerState::Stopped);
    let head = song("First", "Band");
    let outcome = player.play(PeekResult::Head(head));
    match outcome.write {
        Some(PlayerState::Playing(s)) => {
            assert_eq!(s.name, "First");
            assert_eq!(s.artist, "Band");
        }
        _ => panic!("play from Stopped with a queued song must write Playing"),
    }
    assert!(outcome.start_worker);
    assert_eq!(outcome.message, Some(Message::StartingPlayback));
}

#[test]
fn play_on_empty_queue_is_a_pure_no_op() {
    let player = Player::load(PlayerState::Stopped);
    let outcome = player.play(PeekResult::Empty);
    assert_no_write(&outcome);
    assert_eq!(outcome.message, Some(Message::QueueEmpty));
}

#[test]
fn play_with_unreadable_queue_reports_and_leaves_state() {
    let player = Player::load(PlayerState::Stopped);
    let outcome = player.play(PeekResult::Unavailable);
    assert_no_write(&outcome);
    assert_eq!(outcome.message, Some(Message::QueueUnavailable));
}

#[test]
fn play_while_playing_reports_already_playing() {
    let player = Player::load(PlayerState::Playing(song("A", "B")));
    let outcome = player.play(PeekResult::Empty);
    assert_no_write(&outcome);
    assert_eq!(outcome.message, Some(Message::AlreadyPlaying));
}

#[test]
fn play_while_paused_resumes() {
    let player = Player::load(PlayerState::Paused(song("A", "B")));
    let outcome = player.play(PeekResult::Empty);
    match outcome.write {
        Some(PlayerState::Playing(s)) => assert_eq!(s.name, "A"),
        _ => panic!("play from Paused must resume"),
    }
    assert!(!outcome.start_worker);
}

#[test]
fn pause_while_playing_writes_paused() {
    let player = Player::load(PlayerState::Playing(song("A", "B")));
    let outcome = player.pause();
    match outcome.write {
        Some(PlayerState::Paused(s)) => assert_eq!(s.name, "A"),
        _ => panic!("pause from Playing must write Paused"),
    }
}

#[test]
fn pause_while_stopped_never_mutates() {
    let player = Player::load(PlayerState::Stopped);
    let outcome = player.pause();
    assert_no_write(&outcome);
    assert_eq!(outcome.message, Some(Message::NoSongPlaying));
}

#[test]
fn pause_while_paused_reports_already_paused() {
    let player = Player::load(PlayerState::Paused(song("A", "B")));
    let outcome = player.pause();
    assert_no_write(&outcome);
    assert_eq!(outcome.message, Some(Message::AlreadyPaused));
}

#[test]
fn resume_while_paused_writes_playing() {
    let player = Player::load(PlayerState::Paused(song("A", "B")));
    let outcome = player.resume();
    match outcome.write {
        Some(PlayerState::Playing(s)) => assert_eq!(s.name, "A"),
        _ => panic!("resume from Paused must write Playing"),
    }
}

#[test]
fn resume_while_stopped_never_mutates() {
    let player = Player::load(PlayerState::Stopped);
    let outcome = player.resume();
    assert_no_write(&outcome);
    assert_eq!(outcome.message, Some(Message::NoSongPlaying));
}

#[test]
fn skip_while_playing_writes_skip_of_the_active_song() {
    let player = Player::load(PlayerState::Playing(song("A", "B")));
    let outcome = player.skip();
    match outcome.write {
        Some(PlayerState::Skip(s)) => assert_eq!(s.name, "A"),
        _ => panic!("skip from Playing must write Skip"),
    }
}

#[test]
fn skip_while_paused_writes_skip() {
    let player = Player::load(PlayerState::Paused(song("A", "B")));
    let outcome = player.skip();
    assert!(matches!(outcome.write, Some(PlayerState::Skip(_))));
}

#[test]
fn skip_while_stopped_never_mutates() {
    let player = Player::load(PlayerState::Stopped);
    let outcome = player.skip();
    assert_no_write(&outcome);
    assert_eq!(outcome.message, Some(Message::NoSongPlaying));
}

#[test]
fn stop_writes_stopped_from_every_state() {
    let states = [
        PlayerState::Stopped,
        PlayerState::Starting,
        PlayerState::Playing(song("A", "B")),
        PlayerState::Paused(song("A", "B")),
        PlayerState::Skip(song("A", "B")),
    ];
    for st in states {
        let player = Player::load(st);
        let outcome = player.stop();
        assert!(matches!(outcome.write, Some(PlayerState::Stopped)));
        assert!(outcome.message.is_none());
    }
}

#[test]
fn stop_twice_in_a_row_is_stopped_both_times_without_error() {
    let player = Player::load(PlayerState::Playing(song("A", "B")));
    let first = player.stop();
    let first_written = match first.write {
        Some(st) => st,
        None => panic!("first stop must write"),
    };
    assert!(matches!(first_written, PlayerState::Stopped));
    assert!(first.message.is_none());
    let player = Player::load(first_written);
    let second = player.stop();
    assert!(matches!(second.write, Some(PlayerState::Stopped)));
    assert!(second.message.is_none());
}

#[test]
fn transient_states_answer_busy_and_stay_put() {
    for st in [PlayerState::Starting, PlayerState::Skip(song("A", "B"))] {
        let player = Player::load(st);
        let outcome = player.play(PeekResult::Head(song("X", "Y")));
        assert_no_write(&outcome);
        assert_eq!(outcome.message, Some(Message::Busy));
        let outcome = player.pause();
        assert_no_write(&outcome);
        assert_eq!(outcome.message, Some(Message::Busy));
        let outcome = player.resume();
        assert_no_write(&outcome);
        let outcome = player.skip();
        assert_no_write(&outcome);
    }
}

#[test]
fn status_is_a_pure_read() {
    let player = Player::load(PlayerState::Playing(song("A", "B")));
    match player.status() {
        PlayerState::Playing(s) => assert_eq!(s.name, "A"),
        _ => panic!("status must render the current state"),
    }
}

#[test]
fn status_lines_name_the_active_song() {
    assert_eq!(
        render_status(&PlayerState::Playing(song("Tune", "Band"))),
        "Playing: Tune by Band"
    );
    assert_eq!(
        render_status(&PlayerState::Paused(song("Tune", "Band"))),
        "Paused: Tune by Band"
    );
    assert_eq!(render_status(&PlayerState::Stopped), "No songs playing");
}

#[test]
fn messages_render_as_the_user_sees_them() {
    let st = PlayerState::Playing(song("Tune", "Band"));
    assert_eq!(
        render_message(&st, Message::AlreadyPlaying),
        "Tune by Band is already playing"
    );
    assert_eq!(render_message(&PlayerState::Stopped, Message::QueueEmpty), "Queue is empty!");
    assert_eq!(
        render_message(&PlayerState::Stopped, Message::QueueUnavailable),
        "Error loading queue"
    );
    assert_eq!(
        render_message(&PlayerState::Stopped, Message::NoSongPlaying),
        "No song playing"
    );
}

#[test]
fn a_live_worker_handle_blocks_a_second_worker() {
    let handle = Some(WorkerHandle { pid: 4242 });
    assert!(!worker_start_allowed(&handle, true));
}

#[test]
fn a_stale_worker_handle_does_not_block() {
    let handle = Some(WorkerHandle { pid: 4242 });
    assert!(worker_start_allowed(&handle, false));
    assert!(worker_start_allowed(&None, false));
}

#[test]
fn playback_verbs_map_from_the_command_line() {
    assert_eq!(playback_verb(&Commands::Play), Some(Verb::Play));
    assert_eq!(playback_verb(&Commands::Stop), Some(Verb::Stop));
    assert_eq!(playback_verb(&Commands::Status), Some(Verb::Status));
    assert_eq!(playback_verb(&Commands::Scan { directory: "/m".to_string() }), None);
}
