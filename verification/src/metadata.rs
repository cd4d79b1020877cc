use vstd::prelude::*;
use crate::json::push_char;
use crate::music_library::Song;

verus! {

/// A scanned file's tags, as flat values; what the tag reader could not
/// supply stands as `Unknown`.
pub struct MusicFile {
    pub path: String,
    pub title: String,
    pub artist: String,
    pub album: String,
    pub genre: String,
}

/// Where the last occurrence of `c` stands in `s`; `-1` where there is
/// none.
pub open spec fn last_index_of(s: Seq<char>, c: char) -> int
    decreases s.len(),
{
    if s.len() == 0 {
        -1
    } else if s.last() == c {
        s.len() - 1
    } else {
        last_index_of(s.drop_last(), c)
    }
}

/// The file component of a path: everything after the last separator.
pub open spec fn spec_file_component(p: Seq<char>) -> Seq<char> {
    p.skip(last_index_of(p, '/') + 1)
}

/// The extension of a path: what follows the last dot of the file
/// component, unless the component has no dot or only its leading
/// character is one.
pub open spec fn spec_extension(p: Seq<char>) -> Option<Seq<char>> {
    let f = spec_file_component(p);
    let d = last_index_of(f, '.');
    if d <= 0 {
        None
    } else {
        Some(f.skip(d + 1))
    }
}

/// The stem of a path: the file component with its extension cut off.
pub open spec fn spec_file_stem(p: Seq<char>) -> Seq<char> {
    let f = spec_file_component(p);
    let d = last_index_of(f, '.');
    if d <= 0 {
        f
    } else {
        f.take(d)
    }
}

/// Where the last occurrence of `c` at or after `from` stands, as an
/// absolute position.
fn rlast(v: &Vec<char>, from: usize, c: char) -> (r: Option<usize>)
    requires
        from <= v@.len(),
    ensures
        match r {
            Some(k) => from <= k < v@.len() && last_index_of(v@.skip(from as int), c) == k - from,
            None => last_index_of(v@.skip(from as int), c) == -1,
        },
{
    let mut k: usize = v.len();
    while k > from
        invariant
            from <= k <= v@.len(),
            last_index_of(v@.skip(from as int), c) == last_index_of(
                v@.subrange(from as int, k as int),
                c,
            ),
        decreases k,
    {
        proof {
            assert(v@.subrange(from as int, k as int).last() == v@[k - 1]);
            assert(v@.subrange(from as int, k as int).drop_last() =~= v@.subrange(
                from as int,
                k as int - 1,
            ));
        }
        if v[k - 1] == c {
            return Some(k - 1);
        }
        k = k - 1;
    }
    proof {
        assert(v@.subrange(from as int, from as int) =~= Seq::<char>::empty());
    }
    None
}

/// The characters of one stretch of the input, as a text.
fn string_of_range(v: &Vec<char>, from: usize, to: usize) -> (r: String)
    requires
        from <= to <= v@.len(),
    ensures
        r@ == v@.subrange(from as int, to as int),
{
    let mut r = String::new();
    let mut k: usize = from;
    while k < to
        invariant
            from <= k <= to <= v@.len(),
            r@ =~= v@.subrange(from as int, k as int),
        decreases to - k,
    {
        proof {
            assert(v@.subrange(from as int, k as int + 1) =~= v@.subrange(
                from as int,
                k as int,
            ).push(v@[k as int]));
        }
        push_char(&mut r, v[k]);
        k = k + 1;
    }
    proof {
        assert(r@ =~= v@.subrange(from as int, to as int));
    }
    r
}

/// Split a path at its markers: the position after the last separator, and
/// the absolute position of the extension dot, if one counts.
fn path_markers(v: &Vec<char>) -> (r: (usize, Option<usize>))
    ensures
        ({
            let base = r.0;
            &&& base as int == last_index_of(v@, '/') + 1
            &&& base <= v@.len()
            &&& match r.1 {
                Some(d) => {
                    &&& base < d < v@.len()
                    &&& last_index_of(v@.skip(base as int), '.') == d - base
                    &&& spec_extension(v@) == Some(v@.skip(d as int + 1))
                    &&& spec_file_stem(v@) == v@.subrange(base as int, d as int)
                },
                None => {
                    &&& spec_extension(v@) is None
                    &&& spec_file_stem(v@) == v@.skip(base as int)
                },
            }
        }),
{
    let n = v.len();
    let base = match rlast(v, 0, '/') {
        Some(k) => k + 1,
        None => 0,
    };
    proof {
        assert(v@.skip(0) =~= v@);
    }
    let dot = rlast(v, base, '.');
    match dot {
        Some(d) => {
            if d > base {
                proof {
                    let f = spec_file_component(v@);
                    assert(f == v@.skip(base as int));
                    assert(f.skip(d - base + 1) =~= v@.skip(d as int + 1));
                    assert(f.take(d - base) =~= v@.subrange(base as int, d as int));
                }
                (base, Some(d))
            } else {
                (base, None)
            }
        },
        None => (base, None),
    }
}

/// The extension of a path, as the platform's path type reads it.
pub fn extension_of(path: &str) -> (r: Option<String>)
    ensures
        match r {
            Some(e) => spec_extension(path@) == Some(e@),
            None => spec_extension(path@) is None,
        },
{
    let v = crate::json::str_chars(path);
    let n = v.len();
    let (_, dot) = path_markers(&v);
    match dot {
        Some(d) => Some(string_of_range(&v, d + 1, n)),
        None => None,
    }
}

/// The stem of a path, as the platform's path type reads it.
pub fn file_stem_of(path: &str) -> (r: String)
    ensures
        r@ == spec_file_stem(path@),
{
    let v = crate::json::str_chars(path);
    let (base, dot) = path_markers(&v);
    match dot {
        Some(d) => string_of_range(&v, base, d),
        None => string_of_range(&v, base, v.len()),
    }
}

/// Whether two texts hold the same characters.
fn str_eq_lit(s: &String, lit: &str) -> (r: bool)
    ensures
        r == (s@ == lit@),
{
    let other = String::from_str(lit);
    s.eq(&other)
}

/// True of the file formats the library plays.
pub open spec fn spec_is_music_file(p: Seq<char>) -> bool {
    match spec_extension(p) {
        Some(e) => e == "mp3"@ || e == "flac"@ || e == "wav"@ || e == "ogg"@,
        None => false,
    }
}

/// Whether this path names an audio file the library takes: judged by its
/// extension alone.
pub fn is_music_file(path: &str) -> (r: bool)
    ensures
        r == spec_is_music_file(path@),
{
    match extension_of(path) {
        Some(e) => str_eq_lit(&e, "mp3") || str_eq_lit(&e, "flac") || str_eq_lit(&e, "wav")
            || str_eq_lit(&e, "ogg"),
        None => false,
    }
}

/// True of the file formats the standalone scanner collects.
pub open spec fn spec_scanner_accepts(p: Seq<char>) -> bool {
    match spec_extension(p) {
        Some(e) => e == "mp3"@ || e == "mp4"@,
        None => false,
    }
}

/// Whether the standalone scanner takes this path, by its extension.
pub fn scanner_accepts(path: &str) -> (r: bool)
    ensures
        r == spec_scanner_accepts(path@),
{
    match extension_of(path) {
        Some(e) => str_eq_lit(&e, "mp3") || str_eq_lit(&e, "mp4"),
        None => false,
    }
}

/// The fallback for an absent tag.
pub open spec fn spec_unknown() -> Seq<char> {
    "Unknown"@
}

/// A tag value, or the fallback where the reader had none.
pub open spec fn spec_or_unknown(t: Option<String>) -> Seq<char> {
    match t {
        Some(s) => s@,
        None => spec_unknown(),
    }
}

/// The title fallback: the path's stem, or the plain fallback where the
/// path yields no stem.
pub open spec fn spec_title_default(p: Seq<char>) -> Seq<char> {
    if spec_file_stem(p).len() == 0 {
        spec_unknown()
    } else {
        spec_file_stem(p)
    }
}

fn or_unknown(t: Option<String>) -> (r: String)
    ensures
        r@ == spec_or_unknown(t),
{
    match t {
        Some(s) => s,
        None => String::from_str("Unknown"),
    }
}

/// Put a scanned file's record together from what the tag reader gave:
/// absent tags fall back to `Unknown`, an absent title to the file's stem.
pub fn build_music_file(
    path: &str,
    title: Option<String>,
    artist: Option<String>,
    album: Option<String>,
    genre: Option<String>,
) -> (r: MusicFile)
    ensures
        r.path@ == path@,
        r.title@ == match title {
            Some(t) => t@,
            None => spec_title_default(path@),
        },
        r.artist@ == spec_or_unknown(artist),
        r.album@ == spec_or_unknown(album),
        r.genre@ == spec_or_unknown(genre),
{
    let title = match title {
        Some(t) => t,
        None => {
            let stem = file_stem_of(path);
            if stem.as_str().unicode_len() == 0 {
                String::from_str("Unknown")
            } else {
                stem
            }
        },
    };
    MusicFile {
        path: path.to_owned(),
        title,
        artist: or_unknown(artist),
        album: or_unknown(album),
        genre: or_unknown(genre),
    }
}

/// Put a catalog song together from what the tag reader gave: absent tags
/// fall back to `Unknown`, an absent name to the file's stem.
pub fn build_song(
    path: &str,
    title: Option<String>,
    artist: Option<String>,
    album: Option<String>,
    duration: u64,
) -> (r: Song)
    ensures
        r.path@ == path@,
        r.name@ == match title {
            Some(t) => t@,
            None => spec_title_default(path@),
        },
        r.artist@ == spec_or_unknown(artist),
        r.album@ == spec_or_unknown(album),
        r.duration == duration,
{
    let name = match title {
        Some(t) => t,
        None => {
            let stem = file_stem_of(path);
            if stem.as_str().unicode_len() == 0 {
                String::from_str("Unknown")
            } else {
                stem
            }
        },
    };
    Song {
        name,
        artist: or_unknown(artist),
        album: or_unknown(album),
        duration,
        path: path.to_owned(),
    }
}

/// One catalog line for a scanned file, as the song list prints it.
pub fn format_music_file_line(m: &MusicFile) -> (r: String)
    ensures
        r@ == m.artist@ + " - "@ + m.title@ + " ["@ + m.album@ + "]\n -- path: "@ + m.path@,
{
    let mut r = String::new();
    r.append(m.artist.as_str());
    r.append(" - ");
    r.append(m.title.as_str());
    r.append(" [");
    r.append(m.album.as_str());
    r.append("]\n -- path: ");
    r.append(m.path.as_str());
    proof {
        assert(r@ =~= m.artist@ + " - "@ + m.title@ + " ["@ + m.album@ + "]\n -- path: "@
            + m.path@);
    }
    r
}

} // verus!
