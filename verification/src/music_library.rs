use vstd::prelude::*;
use crate::cli::{EditPlaylist, EditSong};

verus! {

/// A song snapshot: the identifying fields copied out of the catalog at the
/// moment the song was recorded, never a live reference into it.
pub struct Song {
    pub name: String,
    pub artist: String,
    pub album: String,
    /// Length of the track in seconds.
    pub duration: u64,
    pub path: String,
}

/// The mathematical value of a song: its fields as plain sequences of
/// characters and an integer.
pub struct SongView {
    pub name: Seq<char>,
    pub artist: Seq<char>,
    pub album: Seq<char>,
    pub duration: u64,
    pub path: Seq<char>,
}

impl View for Song {
    type V = SongView;

    open spec fn view(&self) -> SongView {
        SongView {
            name: self.name@,
            artist: self.artist@,
            album: self.album@,
            duration: self.duration,
            path: self.path@,
        }
    }
}

impl Clone for Song {
    fn clone(&self) -> (r: Self)
        ensures
            r == *self,
    {
        Song {
            name: self.name.clone(),
            artist: self.artist.clone(),
            album: self.album.clone(),
            duration: self.duration,
            path: self.path.clone(),
        }
    }
}

/// A named, ordered list of songs.
pub struct Playlist {
    pub name: String,
    pub songs: Vec<Song>,
}

impl Clone for Playlist {
    fn clone(&self) -> (r: Self)
        ensures
            r.name@ == self.name@,
            r.songs@ == self.songs@,
    {
        let mut songs: Vec<Song> = Vec::new();
        let mut i: usize = 0;
        while i < self.songs.len()
            invariant
                i <= self.songs.len(),
                songs@ =~= self.songs@.subrange(0, i as int),
            decreases self.songs.len() - i,
        {
            songs.push(self.songs[i].clone());
            i = i + 1;
        }
        proof {
            assert(songs@ =~= self.songs@);
        }
        Playlist { name: self.name.clone(), songs }
    }
}

/// The catalog of known songs and playlists, each keyed by its name.
pub struct MusicLibrary {
    pub songs: Vec<Song>,
    pub playlists: Vec<Playlist>,
}

/// True when no two songs of the catalog share a name.
pub open spec fn song_names_unique(songs: Seq<Song>) -> bool {
    forall|i: int, j: int|
        0 <= i < j < songs.len() ==> songs[i].name@ != songs[j].name@
}

/// True when no two playlists of the catalog share a name.
pub open spec fn playlist_names_unique(playlists: Seq<Playlist>) -> bool {
    forall|i: int, j: int|
        0 <= i < j < playlists.len() ==> playlists[i].name@ != playlists[j].name@
}

impl MusicLibrary {
    /// A catalog is well formed when song and playlist names are unique, so
    /// that a name identifies at most one entry.
    pub open spec fn wf(&self) -> bool {
        &&& song_names_unique(self.songs@)
        &&& playlist_names_unique(self.playlists@)
    }

    pub open spec fn spec_has_song(&self, name: Seq<char>) -> bool {
        exists|i: int| 0 <= i < self.songs@.len() && self.songs@[i].name@ == name
    }

    pub open spec fn spec_has_playlist(&self, name: Seq<char>) -> bool {
        exists|i: int| 0 <= i < self.playlists@.len() && self.playlists@[i].name@ == name
    }

    pub fn new() -> (r: Self)
        ensures
            r.songs@.len() == 0,
            r.playlists@.len() == 0,
            r.wf(),
    {
        MusicLibrary { songs: Vec::new(), playlists: Vec::new() }
    }

    /// Where in the catalog the song of this name stands, if anywhere.
    pub fn find_song(&self, name: &String) -> (r: Option<usize>)
        ensures
            match r {
                Some(i) => i < self.songs@.len() && self.songs@[i as int].name@ == name@,
                None => !self.spec_has_song(name@),
            },
    {
        let mut i: usize = 0;
        while i < self.songs.len()
            invariant
                i <= self.songs.len(),
                forall|k: int| 0 <= k < i ==> self.songs@[k].name@ != name@,
            decreases self.songs.len() - i,
        {
            if self.songs[i].name.eq(name) {
                return Some(i);
            }
            i = i + 1;
        }
        None
    }

    /// Where in the catalog the playlist of this name stands, if anywhere.
    pub fn find_playlist(&self, name: &String) -> (r: Option<usize>)
        ensures
            match r {
                Some(i) => i < self.playlists@.len() && self.playlists@[i as int].name@ == name@,
                None => !self.spec_has_playlist(name@),
            },
    {
        let mut i: usize = 0;
        while i < self.playlists.len()
            invariant
                i <= self.playlists.len(),
                forall|k: int| 0 <= k < i ==> self.playlists@[k].name@ != name@,
            decreases self.playlists.len() - i,
        {
            if self.playlists[i].name.eq(name) {
                return Some(i);
            }
            i = i + 1;
        }
        None
    }

    /// The song of this name, if the catalog holds one.
    pub fn get_song(&self, name: &String) -> (r: Option<&Song>)
        ensures
            match r {
                Some(s) => exists|i: int|
                    0 <= i < self.songs@.len() && self.songs@[i] == *s && s.name@ == name@,
                None => !self.spec_has_song(name@),
            },
    {
        match self.find_song(name) {
            Some(i) => Some(&self.songs[i]),
            None => None,
        }
    }

    /// The playlist of this name, if the catalog holds one.
    pub fn get_playlist(&self, name: &String) -> (r: Option<&Playlist>)
        ensures
            match r {
                Some(p) => exists|i: int|
                    0 <= i < self.playlists@.len() && self.playlists@[i] == *p && p.name@ == name@,
                None => !self.spec_has_playlist(name@),
            },
    {
        match self.find_playlist(name) {
            Some(i) => Some(&self.playlists[i]),
            None => None,
        }
    }

    /// Take a song into the catalog. A song of the same name already there
    /// keeps its place; the newcomer is then dropped.
    pub fn add_song(&mut self, song: Song) -> (r: bool)
        requires
            old(self).wf(),
        ensures
            final(self).wf(),
            final(self).playlists@ == old(self).playlists@,
            r == !old(self).spec_has_song(song.name@),
            r ==> final(self).songs@ == old(self).songs@.push(song),
            !r ==> final(self).songs@ == old(self).songs@,
    {
        match self.find_song(&song.name) {
            Some(_) => false,
            None => {
                self.songs.push(song);
                proof {
                    assert forall|i: int, j: int|
                        0 <= i < j < self.songs@.len() implies self.songs@[i].name@
                        != self.songs@[j].name@ by {
                        if j < self.songs@.len() - 1 {
                            assert(self.songs@[i] == old(self).songs@[i]);
                            assert(self.songs@[j] == old(self).songs@[j]);
                        } else {
                            assert(self.songs@[i] == old(self).songs@[i]);
                        }
                    }
                }
                true
            },
        }
    }

    /// The edit applied to a song record: the named field replaced, the
    /// rest kept.
    pub open spec fn spec_edit_song(s: Song, field: EditSong, value: String) -> Song {
        match field {
            EditSong::Name => Song { name: value, ..s },
            EditSong::Artist => Song { artist: value, ..s },
            EditSong::Album => Song { album: value, ..s },
            EditSong::Path => Song { path: value, ..s },
        }
    }

    /// Change one field of the song of this name. Refused where no such
    /// song exists, or a rename collides with another song's name.
    pub fn edit_song(&mut self, name: &String, field: EditSong, value: String) -> (r: bool)
        requires
            old(self).wf(),
        ensures
            final(self).wf(),
            final(self).playlists@ == old(self).playlists@,
            r == (old(self).spec_has_song(name@) && !(field is Name && value@ != name@ && old(self).spec_has_song(value@))),
            r ==> exists|i: int|
                0 <= i < old(self).songs@.len() && old(self).songs@[i].name@ == name@ && final(self).songs@ == old(self).songs@.update(
                    i,
                    Self::spec_edit_song(old(self).songs@[i], field, value),
                ),
            !r ==> final(self).songs@ == old(self).songs@,
    {
        let i = match self.find_song(name) {
            Some(i) => i,
            None => {
                return false;
            },
        };
        if matches!(field, EditSong::Name) && !value.eq(name) {
            if self.find_song(&value).is_some() {
                return false;
            }
        }
        let s = self.songs[i].clone();
        let updated = match field {
            EditSong::Name => Song {
                name: value,
                artist: s.artist,
                album: s.album,
                duration: s.duration,
                path: s.path,
            },
            EditSong::Artist => Song {
                name: s.name,
                artist: value,
                album: s.album,
                duration: s.duration,
                path: s.path,
            },
            EditSong::Album => Song {
                name: s.name,
                artist: s.artist,
                album: value,
                duration: s.duration,
                path: s.path,
            },
            EditSong::Path => Song {
                name: s.name,
                artist: s.artist,
                album: s.album,
                duration: s.duration,
                path: value,
            },
        };
        self.songs.set(i, updated);
        proof {
            assert forall|a: int, b: int|
                0 <= a < b < self.songs@.len() implies self.songs@[a].name@
                != self.songs@[b].name@ by {
                if a != i as int {
                    assert(self.songs@[a] == old(self).songs@[a]);
                }
                if b != i as int {
                    assert(self.songs@[b] == old(self).songs@[b]);
                }
            }
        }
        true
    }

    /// Drop the song of this name from the catalog; says whether one was
    /// there to drop.
    pub fn remove_song(&mut self, name: &String) -> (r: bool)
        requires
            old(self).wf(),
        ensures
            final(self).wf(),
            final(self).playlists@ == old(self).playlists@,
            r == old(self).spec_has_song(name@),
            r ==> exists|i: int|
                0 <= i < old(self).songs@.len() && old(self).songs@[i].name@ == name@ && final(self).songs@ == old(self).songs@.remove(i),
            !r ==> final(self).songs@ == old(self).songs@,
    {
        match self.find_song(name) {
            Some(i) => {
                self.songs.remove(i);
                proof {
                    lemma_unique_songs_remove(old(self).songs@, i as int);
                }
                true
            },
            None => false,
        }
    }

    /// Create the playlist of this name, empty. One already there of the
    /// same name is replaced, as a fresh start.
    pub fn create_playlist(&mut self, name: String)
        requires
            old(self).wf(),
        ensures
            final(self).wf(),
            final(self).songs@ == old(self).songs@,
            final(self).spec_has_playlist(name@),
            old(self).spec_has_playlist(name@) ==> exists|i: int|
                0 <= i < old(self).playlists@.len() && old(self).playlists@[i].name@ == name@
                    && final(self).playlists@ == old(self).playlists@.update(
                    i,
                    final(self).playlists@[i],
                ) && final(self).playlists@[i].name@ == name@ && final(self).playlists@[i].songs@.len() == 0,
            !old(self).spec_has_playlist(name@) ==> final(self).playlists@.len() == old(self).playlists@.len() + 1 && final(self).playlists@.drop_last() == old(self).playlists@
                && final(self).playlists@.last().name@ == name@ && final(self).playlists@.last().songs@.len() == 0,
    {
        let fresh = Playlist { name, songs: Vec::new() };
        match self.find_playlist(&fresh.name) {
            Some(i) => {
                self.playlists.set(i, fresh);
                proof {
                    assert(old(self).playlists@[i as int].name@ == name@);
                    assert(self.playlists@[i as int].name@ == name@);
                    assert(self.playlists@[i as int].songs@.len() == 0);
                    assert(self.playlists@ == old(self).playlists@.update(
                        i as int,
                        self.playlists@[i as int],
                    ));
                    assert(self.spec_has_playlist(name@));
                    assert forall|a: int, b: int|
                        0 <= a < b < self.playlists@.len() implies self.playlists@[a].name@
                        != self.playlists@[b].name@ by {
                        if a != i as int {
                            assert(self.playlists@[a] == old(self).playlists@[a]);
                        }
                        if b != i as int {
                            assert(self.playlists@[b] == old(self).playlists@[b]);
                        }
                    }
                }
            },
            None => {
                self.playlists.push(fresh);
                proof {
                    assert(self.playlists@.drop_last() =~= old(self).playlists@);
                    assert(self.playlists@.last().name@ == name@);
                    assert(self.playlists@.last().songs@.len() == 0);
                    assert(self.spec_has_playlist(name@)) by {
                        assert(self.playlists@[self.playlists@.len() - 1].name@ == name@);
                    }
                    assert forall|a: int, b: int|
                        0 <= a < b < self.playlists@.len() implies self.playlists@[a].name@
                        != self.playlists@[b].name@ by {
                        if b < self.playlists@.len() - 1 {
                            assert(self.playlists@[a] == old(self).playlists@[a]);
                            assert(self.playlists@[b] == old(self).playlists@[b]);
                        } else {
                            assert(self.playlists@[a] == old(self).playlists@[a]);
                        }
                    }
                }
            },
        }
    }

    /// Append the named song to the named playlist.
    pub fn add_song_playlist(&mut self, name: &String, song_name: &String) -> (r:
        LibraryEditOutcome)
        requires
            old(self).wf(),
        ensures
            final(self).wf(),
            final(self).songs@ == old(self).songs@,
            r is Done == (old(self).spec_has_playlist(name@) && old(self).spec_has_song(
                song_name@,
            )),
            r is NoPlaylist == !old(self).spec_has_playlist(name@),
            r is Done ==> exists|i: int, k: int|
                {
                    &&& 0 <= i < old(self).playlists@.len()
                    &&& old(self).playlists@[i].name@ == name@
                    &&& 0 <= k < old(self).songs@.len()
                    &&& old(self).songs@[k].name@ == song_name@
                    &&& final(self).playlists@ == old(self).playlists@.update(
                        i,
                        final(self).playlists@[i],
                    )
                    &&& final(self).playlists@[i].name@ == old(self).playlists@[i].name@
                    &&& final(self).playlists@[i].songs@ == old(self).playlists@[i].songs@.push(
                        old(self).songs@[k],
                    )
                },
            !(r is Done) ==> final(self).playlists@ == old(self).playlists@,
    {
        let i = match self.find_playlist(name) {
            Some(i) => i,
            None => {
                return LibraryEditOutcome::NoPlaylist;
            },
        };
        let k = match self.find_song(song_name) {
            Some(k) => k,
            None => {
                return LibraryEditOutcome::NoSong;
            },
        };
        let song = self.songs[k].clone();
        let mut pl = self.playlists[i].clone();
        pl.songs.push(song);
        self.playlists.set(i, pl);
        proof {
            assert forall|a: int, b: int|
                0 <= a < b < self.playlists@.len() implies self.playlists@[a].name@
                != self.playlists@[b].name@ by {
                if a != i as int {
                    assert(self.playlists@[a] == old(self).playlists@[a]);
                }
                if b != i as int {
                    assert(self.playlists@[b] == old(self).playlists@[b]);
                }
            }
        }
        LibraryEditOutcome::Done
    }

    /// Rename the playlist of this name. Refused where no such playlist
    /// exists, or the new name collides with another playlist's.
    pub fn edit_playist(&mut self, name: &String, field: EditPlaylist, value: String) -> (r: bool)
        requires
            old(self).wf(),
        ensures
            final(self).wf(),
            final(self).songs@ == old(self).songs@,
            r == (old(self).spec_has_playlist(name@) && !(value@ != name@ && old(self).spec_has_playlist(value@))),
            r ==> exists|i: int|
                {
                    &&& 0 <= i < old(self).playlists@.len()
                    &&& old(self).playlists@[i].name@ == name@
                    &&& final(self).playlists@ == old(self).playlists@.update(
                        i,
                        final(self).playlists@[i],
                    )
                    &&& final(self).playlists@[i].name@ == value@
                    &&& final(self).playlists@[i].songs@ == old(self).playlists@[i].songs@
                },
            !r ==> final(self).playlists@ == old(self).playlists@,
    {
        let EditPlaylist::Name = field;
        let i = match self.find_playlist(name) {
            Some(i) => i,
            None => {
                return false;
            },
        };
        if !value.eq(name) {
            if self.find_playlist(&value).is_some() {
                return false;
            }
        }
        let pl = self.playlists[i].clone();
        self.playlists.set(i, Playlist { name: value, songs: pl.songs });
        proof {
            assert(old(self).playlists@[i as int].name@ == name@);
            assert(self.playlists@[i as int].songs@ == old(self).playlists@[i as int].songs@);
            assert(self.playlists@ == old(self).playlists@.update(
                i as int,
                self.playlists@[i as int],
            ));
            assert forall|a: int, b: int|
                0 <= a < b < self.playlists@.len() implies self.playlists@[a].name@
                != self.playlists@[b].name@ by {
                if a != i as int {
                    assert(self.playlists@[a] == old(self).playlists@[a]);
                }
                if b != i as int {
                    assert(self.playlists@[b] == old(self).playlists@[b]);
                }
            }
        }
        true
    }

    /// Take the named song out of the named playlist. The hole is filled by
    /// the playlist's last song, as a swap, so the order behind it changes.
    pub fn remove_playlist_song(&mut self, name: &String, song_name: &String) -> (r:
        LibraryEditOutcome)
        requires
            old(self).wf(),
        ensures
            final(self).wf(),
            final(self).songs@ == old(self).songs@,
            r is NoPlaylist == !old(self).spec_has_playlist(name@),
            r is Done ==> exists|i: int, k: int|
                {
                    &&& 0 <= i < old(self).playlists@.len()
                    &&& old(self).playlists@[i].name@ == name@
                    &&& 0 <= k < old(self).playlists@[i].songs@.len()
                    &&& old(self).playlists@[i].songs@[k].name@ == song_name@
                    &&& final(self).playlists@ == old(self).playlists@.update(
                        i,
                        final(self).playlists@[i],
                    )
                    &&& final(self).playlists@[i].name@ == old(self).playlists@[i].name@
                    &&& final(self).playlists@[i].songs@ == old(self).playlists@[i].songs@.update(
                        k,
                        old(self).playlists@[i].songs@.last(),
                    ).drop_last()
                },
            !(r is Done) ==> final(self).playlists@ == old(self).playlists@,
    {
        let i = match self.find_playlist(name) {
            Some(i) => i,
            None => {
                return LibraryEditOutcome::NoPlaylist;
            },
        };
        let mut pl = self.playlists[i].clone();
        let k = match position_of_song(&pl.songs, song_name) {
            Some(k) => k,
            None => {
                return LibraryEditOutcome::NoSong;
            },
        };
        pl.songs.swap_remove(k);
        self.playlists.set(i, pl);
        proof {
            assert forall|a: int, b: int|
                0 <= a < b < self.playlists@.len() implies self.playlists@[a].name@
                != self.playlists@[b].name@ by {
                if a != i as int {
                    assert(self.playlists@[a] == old(self).playlists@[a]);
                }
                if b != i as int {
                    assert(self.playlists@[b] == old(self).playlists@[b]);
                }
            }
        }
        LibraryEditOutcome::Done
    }

    /// Drop the playlist of this name; says whether one was there to drop.
    pub fn delete_playlist(&mut self, name: &String) -> (r: bool)
        requires
            old(self).wf(),
        ensures
            final(self).wf(),
            final(self).songs@ == old(self).songs@,
            r == old(self).spec_has_playlist(name@),
            r ==> exists|i: int|
                0 <= i < old(self).playlists@.len() && old(self).playlists@[i].name@ == name@
                    && final(self).playlists@ == old(self).playlists@.remove(i),
            !r ==> final(self).playlists@ == old(self).playlists@,
    {
        match self.find_playlist(name) {
            Some(i) => {
                self.playlists.remove(i);
                proof {
                    lemma_unique_playlists_remove(old(self).playlists@, i as int);
                }
                true
            },
            None => false,
        }
    }

    /// The names of all songs, in catalog order.
    pub fn list_songs(&self) -> (r: Vec<String>)
        ensures
            r@.len() == self.songs@.len(),
            forall|i: int| 0 <= i < r@.len() ==> r@[i]@ == self.songs@[i].name@,
    {
        let mut r: Vec<String> = Vec::new();
        let mut i: usize = 0;
        while i < self.songs.len()
            invariant
                i <= self.songs@.len(),
                r@.len() == i,
                forall|m: int| 0 <= m < i ==> r@[m]@ == self.songs@[m].name@,
            decreases self.songs@.len() - i,
        {
            r.push(self.songs[i].name.clone());
            i = i + 1;
        }
        r
    }

    /// The names of all playlists, in catalog order.
    pub fn list_playlists(&self) -> (r: Vec<String>)
        ensures
            r@.len() == self.playlists@.len(),
            forall|i: int| 0 <= i < r@.len() ==> r@[i]@ == self.playlists@[i].name@,
    {
        let mut r: Vec<String> = Vec::new();
        let mut i: usize = 0;
        while i < self.playlists.len()
            invariant
                i <= self.playlists@.len(),
                r@.len() == i,
                forall|m: int| 0 <= m < i ==> r@[m]@ == self.playlists@[m].name@,
            decreases self.playlists@.len() - i,
        {
            r.push(self.playlists[i].name.clone());
            i = i + 1;
        }
        r
    }

    /// True when some song of the catalog was read from this file path.
    pub open spec fn spec_has_path(&self, path: Seq<char>) -> bool {
        exists|i: int| 0 <= i < self.songs@.len() && self.songs@[i].path@ == path
    }

    /// Take a freshly scanned song into the catalog: a song whose file is
    /// already catalogued is left alone; otherwise the newcomer enters
    /// under its name, pushing aside a stale record of the same name.
    pub fn integrate_scanned(&mut self, song: Song) -> (r: bool)
        requires
            old(self).wf(),
        ensures
            final(self).wf(),
            final(self).playlists@ == old(self).playlists@,
            r == !old(self).spec_has_path(song.path@),
            !r ==> final(self).songs@ == old(self).songs@,
            r && old(self).spec_has_song(song.name@) ==> exists|i: int|
                0 <= i < old(self).songs@.len() && old(self).songs@[i].name@ == song.name@
                    && final(self).songs@ == old(self).songs@.update(i, song),
            r && !old(self).spec_has_song(song.name@) ==> final(self).songs@ == old(self).songs@.push(song),
    {
        let mut i: usize = 0;
        while i < self.songs.len()
            invariant
                i <= self.songs@.len(),
                old(self).wf(),
                self.songs@ == old(self).songs@,
                self.playlists@ == old(self).playlists@,
                forall|m: int| 0 <= m < i ==> self.songs@[m].path@ != song.path@,
            decreases self.songs@.len() - i,
        {
            if self.songs[i].path.eq(&song.path) {
                proof {
                    assert(old(self).songs@[i as int].path@ == song.path@);
                    assert(old(self).spec_has_path(song.path@));
                    assert(song_names_unique(self.songs@));
                    assert(playlist_names_unique(self.playlists@));
                }
                return false;
            }
            i = i + 1;
        }
        match self.find_song(&song.name) {
            Some(k) => {
                self.songs.set(k, song);
                proof {
                    assert forall|a: int, b: int|
                        0 <= a < b < self.songs@.len() implies self.songs@[a].name@
                        != self.songs@[b].name@ by {
                        if a != k as int {
                            assert(self.songs@[a] == old(self).songs@[a]);
                        }
                        if b != k as int {
                            assert(self.songs@[b] == old(self).songs@[b]);
                        }
                    }
                }
            },
            None => {
                self.songs.push(song);
                proof {
                    assert forall|a: int, b: int|
                        0 <= a < b < self.songs@.len() implies self.songs@[a].name@
                        != self.songs@[b].name@ by {
                        if b < self.songs@.len() - 1 {
                            assert(self.songs@[a] == old(self).songs@[a]);
                            assert(self.songs@[b] == old(self).songs@[b]);
                        } else {
                            assert(self.songs@[a] == old(self).songs@[a]);
                        }
                    }
                }
            },
        }
        true
    }
}

/// How a playlist or song edit went: done, or the named target is missing.
#[derive(Clone, Copy, PartialEq, Eq, Debug, Structural)]
pub enum LibraryEditOutcome {
    Done,
    NoPlaylist,
    NoSong,
}

/// Where in a song list the song of this name stands, if anywhere.
fn position_of_song(songs: &Vec<Song>, song_name: &String) -> (r: Option<usize>)
    ensures
        match r {
            Some(k) => k < songs@.len() && songs@[k as int].name@ == song_name@,
            None => forall|m: int| 0 <= m < songs@.len() ==> songs@[m].name@ != song_name@,
        },
{
    let mut k: usize = 0;
    while k < songs.len()
        invariant
            k <= songs@.len(),
            forall|m: int| 0 <= m < k ==> songs@[m].name@ != song_name@,
        decreases songs@.len() - k,
    {
        if songs[k].name.eq(song_name) {
            return Some(k);
        }
        k = k + 1;
    }
    None
}

/// Dropping an entry keeps the remaining song names unique.
proof fn lemma_unique_songs_remove(songs: Seq<Song>, at: int)
    requires
        song_names_unique(songs),
        0 <= at < songs.len(),
    ensures
        song_names_unique(songs.remove(at)),
{
    let r = songs.remove(at);
    assert forall|i: int, j: int| 0 <= i < j < r.len() implies r[i].name@ != r[j].name@ by {
        let oi = if i < at {
            i
        } else {
            i + 1
        };
        let oj = if j < at {
            j
        } else {
            j + 1
        };
        assert(r[i] == songs[oi]);
        assert(r[j] == songs[oj]);
    }
}

/// Dropping an entry keeps the remaining playlist names unique.
proof fn lemma_unique_playlists_remove(playlists: Seq<Playlist>, at: int)
    requires
        playlist_names_unique(playlists),
        0 <= at < playlists.len(),
    ensures
        playlist_names_unique(playlists.remove(at)),
{
    let r = playlists.remove(at);
    assert forall|i: int, j: int| 0 <= i < j < r.len() implies r[i].name@ != r[j].name@ by {
        let oi = if i < at {
            i
        } else {
            i + 1
        };
        let oj = if j < at {
            j
        } else {
            j + 1
        };
        assert(r[i] == playlists[oi]);
        assert(r[j] == playlists[oj]);
    }
}

} // verus!
