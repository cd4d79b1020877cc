use vstd::prelude::*;
use std::collections::VecDeque;
use crate::music_library::{Playlist, Song};

verus! {

/// The durable FIFO of songs awaiting playback, in memory: songs enter at
/// the tail, the worker removes from the head.
pub struct Queue {
    pub songs: VecDeque<Song>,
}

impl Queue {
    /// The queue as a plain sequence, head first.
    pub open spec fn view(&self) -> Seq<Song> {
        self.songs@
    }

    pub fn new() -> (r: Self)
        ensures
            r@.len() == 0,
    {
        Queue { songs: VecDeque::new() }
    }

    /// Append one song at the tail.
    pub fn add_song(&mut self, song: Song)
        ensures
            final(self)@ == old(self)@.push(song),
    {
        self.songs.push_back(song);
    }

    /// Append every song of the playlist at the tail, in the playlist's
    /// order.
    pub fn add_playlist(&mut self, playlist: Playlist)
        ensures
            final(self)@ == old(self)@ + playlist.songs@,
    {
        let mut i: usize = 0;
        while i < playlist.songs.len()
            invariant
                i <= playlist.songs.len(),
                self@ == old(self)@ + playlist.songs@.subrange(0, i as int),
            decreases playlist.songs.len() - i,
        {
            proof {
                assert(old(self)@ + playlist.songs@.subrange(0, i as int + 1) =~= (old(self)@
                    + playlist.songs@.subrange(0, i as int)).push(playlist.songs@[i as int]));
            }
            self.add_song(playlist.songs[i].clone());
            i = i + 1;
        }
        proof {
            assert(playlist.songs@.subrange(0, playlist.songs@.len() as int) =~= playlist.songs@);
        }
    }

    /// Remove and return the head of the queue; `None` on an empty queue.
    pub fn pop(&mut self) -> (r: Option<Song>)
        ensures
            match r {
                Some(song) => old(self)@.len() > 0 && song == old(self)@[0] && final(self)@
                    == old(self)@.drop_first(),
                None => old(self)@.len() == 0 && final(self)@ == old(self)@,
            },
    {
        let r = self.songs.pop_front();
        proof {
            if old(self)@.len() > 0 {
                assert(self@ =~= old(self)@.drop_first());
            }
        }
        r
    }

    /// The head of the queue, left in place; `None` on an empty queue.
    pub fn peek(&self) -> (r: Option<&Song>)
        ensures
            match r {
                Some(song) => self@.len() > 0 && *song == self@[0],
                None => self@.len() == 0,
            },
    {
        if self.songs.len() > 0 {
            Some(&self.songs[0])
        } else {
            None
        }
    }

    /// Remove and return the song at `index`; `None` where the index is past
    /// the end, with the queue unchanged.
    pub fn remove_song(&mut self, index: usize) -> (r: Option<Song>)
        ensures
            match r {
                Some(song) => index < old(self)@.len() && song == old(self)@[index as int]
                    && final(self)@ == old(self)@.remove(index as int),
                None => index >= old(self)@.len() && final(self)@ == old(self)@,
            },
    {
        if index < self.songs.len() {
            self.songs.remove(index)
        } else {
            None
        }
    }

    /// Empty the queue.
    pub fn clear(&mut self)
        ensures
            final(self)@.len() == 0,
    {
        self.songs.clear();
    }

    /// The song at `index`, head first; `None` past the end.
    pub fn get(&self, index: usize) -> (r: Option<&Song>)
        ensures
            match r {
                Some(song) => index < self@.len() && *song == self@[index as int],
                None => index >= self@.len(),
            },
    {
        if index < self.songs.len() {
            Some(&self.songs[index])
        } else {
            None
        }
    }

    /// How many songs are waiting.
    pub fn len(&self) -> (r: usize)
        ensures
            r == self@.len(),
    {
        self.songs.len()
    }
}

} // verus!
