use music_lib_manager::codec::{decode_queue, decode_state, encode_queue, encode_state,
    recover_state};
use music_lib_manager::queue::Queue;
use music_lib_manager::music_library::Song;
use music_lib_manager::player::PlayerState;

fn song(name: &str, artist: &str, album: &str, duration: u64, path: &str) -> Song {
    Song {
        name: name.to_string(),
        artist: artist.to_string(),
        album: album.to_string(),
        duration,
        path: path.to_string(),
    }
}

fn assert_songs_equal(a: &Song, b: &Song) {
    assert_eq!(a.name, b.name);
    assert_eq!(a.artist, b.artist);
    assert_eq!(a.album, b.album);
    assert_eq!(a.duration, b.duration);
    assert_eq!(a.path, b.path);
}

#[test]
fn stopped_encodes_exactly() {
    assert_eq!(encode_state(&PlayerState::Stopped), "\"Stopped\"");
}

#[test]
fn starting_encodes_exactly() {
    assert_eq!(encode_state(&PlayerState::Starting), "\"Starting\"");
}

#[test]
fn playing_encodes_exactly() {
    let st = PlayerState::Playing(song("Tune", "Band", "Record", 215, "/m/tune.mp3"));
    assert_eq!(
        encode_state(&st),
        "{\"Playing\":{\"name\":\"Tune\",\"artist\":\"Band\",\"album\":\"Record\",\"duration\":215,\"path\":\"/m/tune.mp3\"}}"
    );
}

#[test]
fn every_variant_round_trips() {
    let s = song("Tune", "Band", "Record", 215, "/m/tune.mp3");
    let variants = [
        PlayerState::Stopped,
        PlayerState::Starting,
        PlayerState::Playing(s.clone()),
        PlayerState::Paused(s.clone()),
        PlayerState::Skip(s.clone()),
    ];
    for st in &variants {
        let text = encode_state(st);
        let back = decode_state(&text).expect("a written state must read back");
        match (st, &back) {
            (PlayerState::Stopped, PlayerState::Stopped) => {}
            (PlayerState::Starting, PlayerState::Starting) => {}
            (PlayerState::Playing(a), PlayerState::Playing(b)) => assert_songs_equal(a, b),
            (PlayerState::Paused(a), PlayerState::Paused(b)) => assert_songs_equal(a, b),
            (PlayerState::Skip(a), PlayerState::Skip(b)) => assert_songs_equal(a, b),
            _ => panic!("round trip changed the variant"),
        }
    }
}

#[test]
fn awkward_characters_in_fields_round_trip() {
    let s = song(
        "A \"quoted\" name \\ with backslash",
        "Artist, with: punctuation}{",
        "",
        u64::MAX,
        "/m/weird \"dir\"/song.mp3",
    );
    let st = PlayerState::Paused(s);
    let text = encode_state(&st);
    match decode_state(&text) {
        Some(PlayerState::Paused(b)) => {
            assert_eq!(b.name, "A \"quoted\" name \\ with backslash");
            assert_eq!(b.artist, "Artist, with: punctuation}{");
            assert_eq!(b.album, "");
            assert_eq!(b.duration, u64::MAX);
            assert_eq!(b.path, "/m/weird \"dir\"/song.mp3");
        }
        _ => panic!("escaped characters must survive the round trip"),
    }
}

#[test]
fn malformed_documents_read_as_nothing() {
    for text in [
        "",
        "garbage",
        "\"Stopped",
        "\"Stopped\" ",
        "{\"Playing\":}",
        "{\"Playing\":{\"name\":\"x\"}}",
        "{\"Playing\":{\"name\":\"x\",\"artist\":\"y\",\"album\":\"z\",\"duration\":12,\"path\":\"p\"}",
        "{\"Playing\":{\"name\":\"x\",\"artist\":\"y\",\"album\":\"z\",\"duration\":,\"path\":\"p\"}}",
        "{\"Paused\":{\"name\":\"x\",\"artist\":\"y\",\"album\":\"z\",\"duration\":12,\"path\":\"p\"}}tail",
    ] {
        assert!(decode_state(text).is_none(), "{text:?} must not decode");
    }
}

#[test]
fn a_duration_too_large_for_the_machine_reads_as_nothing() {
    let text =
        "{\"Playing\":{\"name\":\"x\",\"artist\":\"y\",\"album\":\"z\",\"duration\":18446744073709551616,\"path\":\"p\"}}";
    assert!(decode_state(text).is_none());
}

#[test]
fn the_largest_duration_still_reads() {
    let text =
        "{\"Playing\":{\"name\":\"x\",\"artist\":\"y\",\"album\":\"z\",\"duration\":18446744073709551615,\"path\":\"p\"}}";
    match decode_state(text) {
        Some(PlayerState::Playing(s)) => assert_eq!(s.duration, u64::MAX),
        _ => panic!("u64::MAX must decode"),
    }
}

#[test]
fn recovery_defaults_a_missing_record_to_stopped() {
    let (st, rewrite) = recover_state(None);
    assert!(matches!(st, PlayerState::Stopped));
    assert!(rewrite);
}

#[test]
fn recovery_defaults_a_corrupt_record_to_stopped() {
    let (st, rewrite) = recover_state(Some("{not json"));
    assert!(matches!(st, PlayerState::Stopped));
    assert!(rewrite);
}

#[test]
fn recovery_keeps_a_well_formed_record() {
    let text = encode_state(&PlayerState::Playing(song("T", "B", "R", 7, "/p")));
    let (st, rewrite) = recover_state(Some(&text));
    match st {
        PlayerState::Playing(s) => assert_eq!(s.duration, 7),
        _ => panic!("a well-formed record must read as itself"),
    }
    assert!(!rewrite);
}

#[test]
fn an_empty_queue_round_trips() {
    let q = Queue::new();
    let text = encode_queue(&q);
    assert_eq!(text, "{\"count\":0,\"songs\":[]}");
    let back = decode_queue(&text).expect("an empty queue must read back");
    assert_eq!(back.len(), 0);
}

#[test]
fn a_full_queue_round_trips_in_order() {
    let mut q = Queue::new();
    q.add_song(song("One", "A", "R", 1, "/m/1.mp3"));
    q.add_song(song("Two \"quoted\"", "B\\", "R", u64::MAX, "/m/2.mp3"));
    q.add_song(song("Three", "C", "R", 3, "/m/3.mp3"));
    let text = encode_queue(&q);
    let mut back = decode_queue(&text).expect("a written queue must read back");
    assert_eq!(back.len(), 3);
    assert_eq!(back.pop().unwrap().name, "One");
    let second = back.pop().unwrap();
    assert_eq!(second.name, "Two \"quoted\"");
    assert_eq!(second.artist, "B\\");
    assert_eq!(second.duration, u64::MAX);
    assert_eq!(back.pop().unwrap().name, "Three");
}

#[test]
fn malformed_queue_documents_read_as_nothing() {
    for text in [
        "",
        "{\"count\":2,\"songs\":[]}",
        "{\"count\":0,\"songs\":[]}trailing",
        "{\"count\":1,\"songs\":[]}",
        "{\"songs\":[]}",
    ] {
        assert!(decode_queue(text).is_none(), "{text:?} must not decode");
    }
}
