use music_lib_manager::cli::{EditPlaylist, EditSong};
use music_lib_manager::metadata::{
    build_music_file, build_song, extension_of, file_stem_of, format_music_file_line,
    is_music_file, scanner_accepts,
};
use music_lib_manager::music_library::{LibraryEditOutcome, MusicLibrary, Playlist, Song};
use music_lib_manager::queue::Queue;

fn song(name: &str) -> Song {
    Song {
        name: name.to_string(),
        artist: "Artist".to_string(),
        album: "Album".to_string(),
        duration: 60,
        path: format!("/music/{name}.mp3"),
    }
}

#[test]
fn queue_is_first_in_first_out() {
    let mut q = Queue::new();
    q.add_song(song("one"));
    q.add_song(song("two"));
    q.add_song(song("three"));
    assert_eq!(q.len(), 3);
    assert_eq!(q.pop().unwrap().name, "one");
    assert_eq!(q.pop().unwrap().name, "two");
    assert_eq!(q.pop().unwrap().name, "three");
    assert!(q.pop().is_none());
}

#[test]
fn queue_peek_leaves_the_head_in_place() {
    let mut q = Queue::new();
    q.add_song(song("head"));
    assert_eq!(q.peek().unwrap().name, "head");
    assert_eq!(q.len(), 1);
    assert!(Queue::new().peek().is_none());
}

#[test]
fn queue_takes_a_whole_playlist_in_order() {
    let pl = Playlist {
        name: "mix".to_string(),
        songs: vec![song("a"), song("b")],
    };
    let mut q = Queue::new();
    q.add_song(song("z"));
    q.add_playlist(pl);
    assert_eq!(q.pop().unwrap().name, "z");
    assert_eq!(q.pop().unwrap().name, "a");
    assert_eq!(q.pop().unwrap().name, "b");
}

#[test]
fn queue_removes_by_index_and_refuses_past_the_end() {
    let mut q = Queue::new();
    q.add_song(song("a"));
    q.add_song(song("b"));
    q.add_song(song("c"));
    let removed = q.remove_song(1).unwrap();
    assert_eq!(removed.name, "b");
    assert_eq!(q.len(), 2);
    assert!(q.remove_song(2).is_none());
    assert_eq!(q.len(), 2);
}

#[test]
fn queue_clear_empties_it() {
    let mut q = Queue::new();
    q.add_song(song("a"));
    q.clear();
    assert_eq!(q.len(), 0);
}

#[test]
fn library_add_and_get_songs_by_name() {
    let mut lib = MusicLibrary::new();
    assert!(lib.add_song(song("a")));
    assert!(!lib.add_song(song("a")), "a second song of the same name is refused");
    assert!(lib.get_song(&"a".to_string()).is_some());
    assert!(lib.get_song(&"b".to_string()).is_none());
}

#[test]
fn library_edits_one_field_at_a_time() {
    let mut lib = MusicLibrary::new();
    lib.add_song(song("a"));
    lib.add_song(song("b"));
    assert!(lib.edit_song(&"a".to_string(), EditSong::Artist, "Someone".to_string()));
    assert_eq!(lib.get_song(&"a".to_string()).unwrap().artist, "Someone");
    assert!(lib.edit_song(&"a".to_string(), EditSong::Name, "c".to_string()));
    assert!(lib.get_song(&"c".to_string()).is_some());
    assert!(
        !lib.edit_song(&"c".to_string(), EditSong::Name, "b".to_string()),
        "a rename onto a taken name is refused"
    );
    assert!(!lib.edit_song(&"ghost".to_string(), EditSong::Album, "X".to_string()));
}

#[test]
fn library_removes_songs_by_name() {
    let mut lib = MusicLibrary::new();
    lib.add_song(song("a"));
    assert!(lib.remove_song(&"a".to_string()));
    assert!(!lib.remove_song(&"a".to_string()));
    assert!(lib.get_song(&"a".to_string()).is_none());
}

#[test]
fn playlists_are_created_filled_and_emptied() {
    let mut lib = MusicLibrary::new();
    lib.add_song(song("a"));
    lib.add_song(song("b"));
    lib.create_playlist("mix".to_string());
    assert_eq!(
        lib.add_song_playlist(&"mix".to_string(), &"a".to_string()),
        LibraryEditOutcome::Done
    );
    assert_eq!(
        lib.add_song_playlist(&"mix".to_string(), &"ghost".to_string()),
        LibraryEditOutcome::NoSong
    );
    assert_eq!(
        lib.add_song_playlist(&"nope".to_string(), &"a".to_string()),
        LibraryEditOutcome::NoPlaylist
    );
    let pl = lib.get_playlist(&"mix".to_string()).unwrap();
    assert_eq!(pl.songs.len(), 1);
    // Creating the playlist again starts it afresh.
    lib.create_playlist("mix".to_string());
    assert_eq!(lib.get_playlist(&"mix".to_string()).unwrap().songs.len(), 0);
}

#[test]
fn playlist_song_removal_swaps_from_the_back() {
    let mut lib = MusicLibrary::new();
    for n in ["a", "b", "c"] {
        lib.add_song(song(n));
    }
    lib.create_playlist("mix".to_string());
    for n in ["a", "b", "c"] {
        lib.add_song_playlist(&"mix".to_string(), &n.to_string());
    }
    assert_eq!(
        lib.remove_playlist_song(&"mix".to_string(), &"a".to_string()),
        LibraryEditOutcome::Done
    );
    let pl = lib.get_playlist(&"mix".to_string()).unwrap();
    let names: Vec<&str> = pl.songs.iter().map(|s| s.name.as_str()).collect();
    assert_eq!(names, ["c", "b"], "the last song fills the hole");
    assert_eq!(
        lib.remove_playlist_song(&"mix".to_string(), &"ghost".to_string()),
        LibraryEditOutcome::NoSong
    );
}

#[test]
fn playlists_rename_and_delete() {
    let mut lib = MusicLibrary::new();
    lib.create_playlist("old".to_string());
    lib.create_playlist("other".to_string());
    assert!(lib.edit_playist(&"old".to_string(), EditPlaylist::Name, "new".to_string()));
    assert!(lib.get_playlist(&"new".to_string()).is_some());
    assert!(
        !lib.edit_playist(&"new".to_string(), EditPlaylist::Name, "other".to_string()),
        "a rename onto a taken name is refused"
    );
    assert!(lib.delete_playlist(&"new".to_string()));
    assert!(!lib.delete_playlist(&"new".to_string()));
}

#[test]
fn listing_names_follows_catalog_order() {
    let mut lib = MusicLibrary::new();
    lib.add_song(song("b"));
    lib.add_song(song("a"));
    lib.create_playlist("p1".to_string());
    assert_eq!(lib.list_songs(), ["b", "a"]);
    assert_eq!(lib.list_playlists(), ["p1"]);
}

#[test]
fn scanning_skips_files_already_catalogued_by_path() {
    let mut lib = MusicLibrary::new();
    assert!(lib.integrate_scanned(song("a")));
    assert!(!lib.integrate_scanned(song("a")), "the same file is not taken twice");
    // A fresh file under an existing name replaces the stale record.
    let mut renamed = song("a");
    renamed.path = "/elsewhere/a.mp3".to_string();
    renamed.album = "Reissue".to_string();
    assert!(lib.integrate_scanned(renamed));
    assert_eq!(lib.get_song(&"a".to_string()).unwrap().album, "Reissue");
    assert_eq!(lib.list_songs().len(), 1);
}

#[test]
fn music_files_are_told_by_their_extension() {
    assert!(is_music_file("/m/a.mp3"));
    assert!(is_music_file("b.flac"));
    assert!(is_music_file("/m/c.wav"));
    assert!(is_music_file("d.ogg"));
    assert!(!is_music_file("/m/a.txt"));
    assert!(!is_music_file("/m/mp3"));
    assert!(!is_music_file("/m/.mp3"), "a bare dot-file has no extension");
    assert!(!is_music_file("/m/song"));
}

#[test]
fn the_standalone_scanner_takes_fewer_formats() {
    assert!(scanner_accepts("/m/a.mp3"));
    assert!(scanner_accepts("/m/a.mp4"));
    assert!(!scanner_accepts("/m/a.flac"));
}

#[test]
fn stems_and_extensions_read_like_the_platform_path() {
    assert_eq!(file_stem_of("/music/dir/tune.mp3"), "tune");
    assert_eq!(file_stem_of("tune.tar.gz"), "tune.tar");
    assert_eq!(file_stem_of("/music/.hidden"), ".hidden");
    assert_eq!(file_stem_of("noext"), "noext");
    assert_eq!(extension_of("/music/dir/tune.mp3").as_deref(), Some("mp3"));
    assert_eq!(extension_of("archive.tar.gz").as_deref(), Some("gz"));
    assert_eq!(extension_of("/music/.hidden"), None);
    assert_eq!(extension_of("noext"), None);
}

#[test]
fn scanned_records_fall_back_to_stem_and_unknown() {
    let m = build_music_file("/m/tune.mp3", None, None, Some("Record".to_string()), None);
    assert_eq!(m.title, "tune");
    assert_eq!(m.artist, "Unknown");
    assert_eq!(m.album, "Record");
    assert_eq!(m.genre, "Unknown");
    assert_eq!(m.path, "/m/tune.mp3");

    let s = build_song("/m/tune.mp3", Some("Named".to_string()), None, None, 95);
    assert_eq!(s.name, "Named");
    assert_eq!(s.artist, "Unknown");
    assert_eq!(s.duration, 95);
}

#[test]
fn catalog_lines_print_in_one_shape() {
    let m = build_music_file(
        "/m/tune.mp3",
        Some("Tune".to_string()),
        Some("Band".to_string()),
        Some("Record".to_string()),
        Some("Rock".to_string()),
    );
    assert_eq!(
        format_music_file_line(&m),
        "Band - Tune [Record]\n -- path: /m/tune.mp3"
    );
}
