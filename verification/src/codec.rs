use vstd::prelude::*;
use crate::json::{
    decimal_digits, encode_string, encode_string_onto, encode_u64_onto, escape_seq, expect_lit,
    is_digit, lemma_expect_mismatch, lemma_expect_prefix, lemma_parse_decimal,
    lemma_parse_escaped, parse_string_at, parse_string_body, parse_u64, parse_u64_at, push_char,
    spec_expect, str_chars,
};
use crate::music_library::{Song, SongView};
use crate::queue::Queue;
use crate::player::{PlayerState, StateView};

verus! {

// ---------------------------------------------------------------------------
// The state store's document format: a self-describing record, the variant
// name as its tag and the song snapshot's fields under their names.
// ---------------------------------------------------------------------------

pub open spec fn lit_stopped() -> Seq<char> {
    "\"Stopped\""@
}

pub open spec fn lit_starting() -> Seq<char> {
    "\"Starting\""@
}

pub open spec fn lit_playing() -> Seq<char> {
    "{\"Playing\":"@
}

pub open spec fn lit_paused() -> Seq<char> {
    "{\"Paused\":"@
}

pub open spec fn lit_skip() -> Seq<char> {
    "{\"Skip\":"@
}

pub open spec fn lit_name() -> Seq<char> {
    "{\"name\":"@
}

pub open spec fn lit_artist() -> Seq<char> {
    ",\"artist\":"@
}

pub open spec fn lit_album() -> Seq<char> {
    ",\"album\":"@
}

pub open spec fn lit_duration() -> Seq<char> {
    ",\"duration\":"@
}

pub open spec fn lit_path() -> Seq<char> {
    ",\"path\":"@
}

pub open spec fn lit_close() -> Seq<char> {
    "}"@
}

/// A song written out: its fields under their names, strings quoted and
/// escaped, the duration in decimal.
pub open spec fn spec_encode_song(s: SongView) -> Seq<char> {
    lit_name() + encode_string(s.name) + lit_artist() + encode_string(s.artist) + lit_album()
        + encode_string(s.album) + lit_duration() + decimal_digits(s.duration as int) + lit_path()
        + encode_string(s.path) + lit_close()
}

/// A playback state written out: the bare variant name for the songless
/// variants, the tagged song record for the others.
pub open spec fn spec_encode_state(v: StateView) -> Seq<char> {
    match v {
        StateView::Stopped => lit_stopped(),
        StateView::Starting => lit_starting(),
        StateView::Playing(s) => lit_playing() + spec_encode_song(s) + lit_close(),
        StateView::Paused(s) => lit_paused() + spec_encode_song(s) + lit_close(),
        StateView::Skip(s) => lit_skip() + spec_encode_song(s) + lit_close(),
    }
}

/// Read a quoted string where one is owed: content and trailer.
pub open spec fn spec_parse_string(s: Seq<char>) -> Option<(Seq<char>, Seq<char>)> {
    if s.len() > 0 && s[0] == '"' {
        parse_string_body(s.drop_first())
    } else {
        None
    }
}

/// Read a song record off the front of the input: the song and the trailer.
pub open spec fn spec_parse_song(s: Seq<char>) -> Option<(SongView, Seq<char>)> {
    match spec_expect(s, lit_name()) {
        None => None,
        Some(s1) => match spec_parse_string(s1) {
            None => None,
            Some((name, s2)) => match spec_expect(s2, lit_artist()) {
                None => None,
                Some(s3) => match spec_parse_string(s3) {
                    None => None,
                    Some((artist, s4)) => match spec_expect(s4, lit_album()) {
                        None => None,
                        Some(s5) => match spec_parse_string(s5) {
                            None => None,
                            Some((album, s6)) => match spec_expect(s6, lit_duration()) {
                                None => None,
                                Some(s7) => match parse_u64(s7) {
                                    None => None,
                                    Some((duration, s8)) => match spec_expect(s8, lit_path()) {
                                        None => None,
                                        Some(s9) => match spec_parse_string(s9) {
                                            None => None,
                                            Some((path, s10)) => match spec_expect(
                                                s10,
                                                lit_close(),
                                            ) {
                                                None => None,
                                                Some(s11) => Some(
                                                    (
                                                        SongView {
                                                            name,
                                                            artist,
                                                            album,
                                                            duration,
                                                            path,
                                                        },
                                                        s11,
                                                    ),
                                                ),
                                            },
                                        },
                                    },
                                },
                            },
                        },
                    },
                },
            },
        },
    }
}

/// Read a tagged song record: the variant's literal, the song, the closing
/// brace, and nothing after.
pub open spec fn spec_decode_tagged(s: Seq<char>, tag: Seq<char>) -> Option<SongView> {
    match spec_expect(s, tag) {
        None => None,
        Some(s1) => match spec_parse_song(s1) {
            None => None,
            Some((song, s2)) => match spec_expect(s2, lit_close()) {
                None => None,
                Some(s3) => if s3.len() == 0 {
                    Some(song)
                } else {
                    None
                },
            },
        },
    }
}

/// Read a whole state document. The first variant whose tag matches is
/// committed to; a matching tag with a malformed remainder is no document.
pub open spec fn spec_decode_state(s: Seq<char>) -> Option<StateView> {
    if spec_expect(s, lit_stopped()) is Some {
        if spec_expect(s, lit_stopped()) == Some(Seq::<char>::empty()) {
            Some(StateView::Stopped)
        } else {
            None
        }
    } else if spec_expect(s, lit_starting()) is Some {
        if spec_expect(s, lit_starting()) == Some(Seq::<char>::empty()) {
            Some(StateView::Starting)
        } else {
            None
        }
    } else if spec_expect(s, lit_playing()) is Some {
        match spec_decode_tagged(s, lit_playing()) {
            Some(song) => Some(StateView::Playing(song)),
            None => None,
        }
    } else if spec_expect(s, lit_paused()) is Some {
        match spec_decode_tagged(s, lit_paused()) {
            Some(song) => Some(StateView::Paused(song)),
            None => None,
        }
    } else if spec_expect(s, lit_skip()) is Some {
        match spec_decode_tagged(s, lit_skip()) {
            Some(song) => Some(StateView::Skip(song)),
            None => None,
        }
    } else {
        None
    }
}

// ---------------------------------------------------------------------------
// Reading undoes writing.
// ---------------------------------------------------------------------------

/// A quoted string put in front of anything reads back as itself.
proof fn lemma_parse_string_enc(t: Seq<char>, rest: Seq<char>)
    ensures
        spec_parse_string(encode_string(t) + rest) == Some((t, rest)),
{
    let s0 = encode_string(t) + rest;
    assert(s0[0] == '"');
    assert(s0.len() > 0);
    assert(s0.drop_first() =~= escape_seq(t) + seq!['"'] + rest);
    lemma_parse_escaped(t, rest);
}

/// A written song followed by anything reads back as the song.
#[verifier::rlimit(100)]
pub proof fn lemma_parse_song_round_trip(sv: SongView, rest: Seq<char>)
    ensures
        spec_parse_song(spec_encode_song(sv) + rest) == Some((sv, rest)),
{
    let e1 = encode_string(sv.name);
    let e2 = encode_string(sv.artist);
    let e3 = encode_string(sv.album);
    let e4 = decimal_digits(sv.duration as int);
    let e5 = encode_string(sv.path);
    let s = spec_encode_song(sv) + rest;
    let t1 = e1 + lit_artist() + e2 + lit_album() + e3 + lit_duration() + e4 + lit_path() + e5
        + lit_close() + rest;
    let t2 = lit_artist() + e2 + lit_album() + e3 + lit_duration() + e4 + lit_path() + e5
        + lit_close() + rest;
    let t3 = e2 + lit_album() + e3 + lit_duration() + e4 + lit_path() + e5 + lit_close() + rest;
    let t4 = lit_album() + e3 + lit_duration() + e4 + lit_path() + e5 + lit_close() + rest;
    let t5 = e3 + lit_duration() + e4 + lit_path() + e5 + lit_close() + rest;
    let t6 = lit_duration() + e4 + lit_path() + e5 + lit_close() + rest;
    let t7 = e4 + lit_path() + e5 + lit_close() + rest;
    let t8 = lit_path() + e5 + lit_close() + rest;
    let t9 = e5 + lit_close() + rest;
    let t10 = lit_close() + rest;
    assert(s =~= lit_name() + t1);
    lemma_expect_prefix(lit_name(), t1);
    assert(t1 =~= e1 + t2);
    lemma_parse_string_enc(sv.name, t2);
    assert(t2 =~= lit_artist() + t3);
    lemma_expect_prefix(lit_artist(), t3);
    assert(t3 =~= e2 + t4);
    lemma_parse_string_enc(sv.artist, t4);
    assert(t4 =~= lit_album() + t5);
    lemma_expect_prefix(lit_album(), t5);
    assert(t5 =~= e3 + t6);
    lemma_parse_string_enc(sv.album, t6);
    assert(t6 =~= lit_duration() + t7);
    lemma_expect_prefix(lit_duration(), t7);
    assert(t7 =~= e4 + t8);
    reveal_strlit(",\"path\":");
    assert(t8[0] == lit_path()[0]);
    assert(!is_digit(t8[0]));
    lemma_parse_decimal(sv.duration, t8);
    assert(t8 =~= lit_path() + t9);
    lemma_expect_prefix(lit_path(), t9);
    assert(t9 =~= e5 + t10);
    lemma_parse_string_enc(sv.path, t10);
    assert(t10 =~= lit_close() + rest);
    lemma_expect_prefix(lit_close(), rest);
}

/// A written state reads back as itself: the round trip through the state
/// store's document format is the identity, whatever the variant and
/// whatever characters the song's fields hold.
pub proof fn lemma_state_round_trip(v: StateView)
    ensures
        spec_decode_state(spec_encode_state(v)) == Some(v),
{
    reveal_strlit("\"Stopped\"");
    reveal_strlit("\"Starting\"");
    reveal_strlit("{\"Playing\":");
    reveal_strlit("{\"Paused\":");
    reveal_strlit("{\"Skip\":");
    reveal_strlit("}");
    let s = spec_encode_state(v);
    match v {
        StateView::Stopped => {
            assert(s =~= lit_stopped() + Seq::<char>::empty());
            lemma_expect_prefix(lit_stopped(), Seq::<char>::empty());
        },
        StateView::Starting => {
            assert(s[3] == lit_starting()[3]);
            lemma_expect_mismatch(s, lit_stopped(), 3);
            assert(s =~= lit_starting() + Seq::<char>::empty());
            lemma_expect_prefix(lit_starting(), Seq::<char>::empty());
        },
        StateView::Playing(song) => {
            let body = spec_encode_song(song) + lit_close();
            assert(s =~= lit_playing() + body);
            assert(s[0] == lit_playing()[0]);
            lemma_expect_mismatch(s, lit_stopped(), 0);
            lemma_expect_mismatch(s, lit_starting(), 0);
            lemma_expect_prefix(lit_playing(), body);
            assert(body =~= spec_encode_song(song) + (lit_close() + Seq::<char>::empty()));
            lemma_parse_song_round_trip(song, lit_close() + Seq::<char>::empty());
            lemma_expect_prefix(lit_close(), Seq::<char>::empty());
        },
        StateView::Paused(song) => {
            let body = spec_encode_song(song) + lit_close();
            assert(s =~= lit_paused() + body);
            assert(s[0] == lit_paused()[0]);
            assert(s[3] == lit_paused()[3]);
            lemma_expect_mismatch(s, lit_stopped(), 0);
            lemma_expect_mismatch(s, lit_starting(), 0);
            lemma_expect_mismatch(s, lit_playing(), 3);
            lemma_expect_prefix(lit_paused(), body);
            assert(body =~= spec_encode_song(song) + (lit_close() + Seq::<char>::empty()));
            lemma_parse_song_round_trip(song, lit_close() + Seq::<char>::empty());
            lemma_expect_prefix(lit_close(), Seq::<char>::empty());
        },
        StateView::Skip(song) => {
            let body = spec_encode_song(song) + lit_close();
            assert(s =~= lit_skip() + body);
            assert(s[0] == lit_skip()[0]);
            assert(s[2] == lit_skip()[2]);
            lemma_expect_mismatch(s, lit_stopped(), 0);
            lemma_expect_mismatch(s, lit_starting(), 0);
            lemma_expect_mismatch(s, lit_playing(), 2);
            lemma_expect_mismatch(s, lit_paused(), 2);
            lemma_expect_prefix(lit_skip(), body);
            assert(body =~= spec_encode_song(song) + (lit_close() + Seq::<char>::empty()));
            lemma_parse_song_round_trip(song, lit_close() + Seq::<char>::empty());
            lemma_expect_prefix(lit_close(), Seq::<char>::empty());
        },
    }
}

// ---------------------------------------------------------------------------
// The queue store's document format: the number of songs, then the songs in
// order. The count up front lets a reader know exactly how many records are
// owed.
// ---------------------------------------------------------------------------

pub open spec fn lit_queue_open() -> Seq<char> {
    "{\"count\":"@
}

pub open spec fn lit_queue_songs() -> Seq<char> {
    ",\"songs\":["@
}

pub open spec fn lit_queue_close() -> Seq<char> {
    "]}"@
}

/// The songs as mathematical values, in queue order.
pub open spec fn song_views(q: Seq<Song>) -> Seq<SongView> {
    q.map_values(|s: Song| s@)
}

/// The song records written out, separated by commas.
pub open spec fn spec_song_array(q: Seq<Song>) -> Seq<char> {
    if q.len() == 0 {
        Seq::<char>::empty()
    } else {
        spec_encode_song(q[0]@) + spec_song_array_tail(q.drop_first())
    }
}

/// The records after the first: each preceded by its separator.
pub open spec fn spec_song_array_tail(q: Seq<Song>) -> Seq<char>
    decreases q.len(),
{
    if q.len() == 0 {
        Seq::<char>::empty()
    } else {
        seq![','] + spec_encode_song(q[0]@) + spec_song_array_tail(q.drop_first())
    }
}

/// A queue written out: its length and its songs, in order.
pub open spec fn spec_encode_queue(q: Seq<Song>) -> Seq<char> {
    lit_queue_open() + decimal_digits(q.len() as int) + lit_queue_songs() + spec_song_array(q)
        + lit_queue_close()
}

/// Read `n` song records, comma-separated, off the front of the input.
pub open spec fn spec_parse_songs(s: Seq<char>, n: nat) -> Option<(Seq<SongView>, Seq<char>)>
    decreases n,
{
    if n == 0 {
        Some((Seq::<SongView>::empty(), s))
    } else {
        match spec_parse_song(s) {
            None => None,
            Some((song, r)) => if n == 1 {
                Some((seq![song], r))
            } else if r.len() > 0 && r[0] == ',' {
                match spec_parse_songs(r.drop_first(), (n - 1) as nat) {
                    Some(p) => Some((seq![song] + p.0, p.1)),
                    None => None,
                }
            } else {
                None
            },
        }
    }
}

/// Read a whole queue document: the count, exactly that many songs, and
/// nothing after.
pub open spec fn spec_decode_queue(s: Seq<char>) -> Option<Seq<SongView>> {
    match spec_expect(s, lit_queue_open()) {
        None => None,
        Some(s1) => match parse_u64(s1) {
            None => None,
            Some((n, s2)) => match spec_expect(s2, lit_queue_songs()) {
                None => None,
                Some(s3) => match spec_parse_songs(s3, n as nat) {
                    None => None,
                    Some((list, s4)) => match spec_expect(s4, lit_queue_close()) {
                        None => None,
                        Some(s5) => if s5.len() == 0 {
                            Some(list)
                        } else {
                            None
                        },
                    },
                },
            },
        },
    }
}

/// Written song records read back as themselves, leaving the trailer.
#[verifier::rlimit(100)]
proof fn lemma_song_array_round_trip(q: Seq<Song>, rest: Seq<char>)
    ensures
        spec_parse_songs(spec_song_array(q) + rest, q.len() as nat) == Some((song_views(q), rest)),
    decreases q.len(),
{
    if q.len() == 0 {
        assert(spec_song_array(q) + rest =~= rest);
        assert(song_views(q) =~= Seq::<SongView>::empty());
    } else if q.len() == 1 {
        assert(spec_song_array(q) + rest =~= spec_encode_song(q[0]@) + rest);
        lemma_parse_song_round_trip(q[0]@, rest);
        assert(song_views(q) =~= seq![q[0]@]);
    } else {
        let q1 = q.drop_first();
        let r1 = seq![','] + (spec_song_array(q1) + rest);
        assert(spec_song_array_tail(q1) =~= seq![','] + spec_song_array(q1));
        assert(spec_song_array(q) + rest =~= spec_encode_song(q[0]@) + r1);
        lemma_parse_song_round_trip(q[0]@, r1);
        assert(r1[0] == ',');
        assert(r1.drop_first() =~= spec_song_array(q1) + rest);
        lemma_song_array_round_trip(q1, rest);
        assert(song_views(q) =~= seq![q[0]@] + song_views(q1));
    }
}

/// A written queue reads back as itself: the round trip through the queue
/// store's document format is the identity, song for song and in order.
pub proof fn lemma_queue_round_trip(q: Seq<Song>)
    requires
        q.len() <= u64::MAX,
    ensures
        spec_decode_queue(spec_encode_queue(q)) == Some(song_views(q)),
{
    reveal_strlit("{\"count\":");
    reveal_strlit(",\"songs\":[");
    reveal_strlit("]}");
    let n = q.len() as u64;
    let t1 = decimal_digits(q.len() as int) + lit_queue_songs() + spec_song_array(q)
        + lit_queue_close();
    let t2 = lit_queue_songs() + spec_song_array(q) + lit_queue_close();
    let t3 = spec_song_array(q) + lit_queue_close();
    assert(spec_encode_queue(q) =~= lit_queue_open() + t1);
    lemma_expect_prefix(lit_queue_open(), t1);
    assert(t1 =~= decimal_digits(n as int) + t2);
    assert(t2[0] == lit_queue_songs()[0]);
    assert(!is_digit(t2[0]));
    lemma_parse_decimal(n, t2);
    assert(t2 =~= lit_queue_songs() + t3);
    lemma_expect_prefix(lit_queue_songs(), t3);
    assert(t3 =~= spec_song_array(q) + (lit_queue_close() + Seq::<char>::empty()));
    lemma_song_array_round_trip(q, lit_queue_close() + Seq::<char>::empty());
    lemma_expect_prefix(lit_queue_close(), Seq::<char>::empty());
}

// ---------------------------------------------------------------------------
// Executable writing.
// ---------------------------------------------------------------------------

/// Write a song record onto the end of `out`.
#[verifier::rlimit(100)]
pub fn encode_song_onto(out: &mut String, song: &Song)
    ensures
        final(out)@ == old(out)@ + spec_encode_song(song@),
{
    out.append("{\"name\":");
    encode_string_onto(out, song.name.as_str());
    out.append(",\"artist\":");
    encode_string_onto(out, song.artist.as_str());
    out.append(",\"album\":");
    encode_string_onto(out, song.album.as_str());
    out.append(",\"duration\":");
    encode_u64_onto(out, song.duration);
    out.append(",\"path\":");
    encode_string_onto(out, song.path.as_str());
    out.append("}");
    proof {
        assert(out@ =~= old(out)@ + spec_encode_song(song@));
    }
}

/// The state store's writer: the state as one self-describing document,
/// ready to overwrite the store wholesale.
pub fn encode_state(state: &PlayerState) -> (r: String)
    ensures
        r@ == spec_encode_state(state@),
{
    let mut out = String::new();
    match state {
        PlayerState::Stopped => {
            out.append("\"Stopped\"");
        },
        PlayerState::Starting => {
            out.append("\"Starting\"");
        },
        PlayerState::Playing(song) => {
            out.append("{\"Playing\":");
            encode_song_onto(&mut out, song);
            out.append("}");
        },
        PlayerState::Paused(song) => {
            out.append("{\"Paused\":");
            encode_song_onto(&mut out, song);
            out.append("}");
        },
        PlayerState::Skip(song) => {
            out.append("{\"Skip\":");
            encode_song_onto(&mut out, song);
            out.append("}");
        },
    }
    proof {
        assert(out@ =~= spec_encode_state(state@));
    }
    out
}

/// Growing a written song array one record at a time.
proof fn lemma_song_array_snoc(a: Seq<Song>, x: Song)
    ensures
        a.len() == 0 ==> spec_song_array(a.push(x)) == spec_encode_song(x@),
        a.len() > 0 ==> spec_song_array(a.push(x)) == spec_song_array(a) + seq![',']
            + spec_encode_song(x@),
    decreases a.len(),
{
    if a.len() == 0 {
        assert(a.push(x)[0] == x);
        assert(a.push(x).drop_first() =~= Seq::<Song>::empty());
        assert(spec_encode_song(x@) + Seq::<char>::empty() =~= spec_encode_song(x@));
    } else {
        lemma_song_tail_snoc(a.drop_first(), x);
        assert(a.push(x)[0] == a[0]);
        assert(a.push(x).drop_first() =~= a.drop_first().push(x));
        if a.len() == 1 {
            assert(a.drop_first() =~= Seq::<Song>::empty());
            assert(spec_song_array_tail(a.drop_first().push(x)) == seq![','] + spec_encode_song(
                x@,
            ) + spec_song_array_tail(Seq::<Song>::empty()));
            assert(spec_encode_song(a[0]@) + (seq![','] + spec_encode_song(x@)
                + Seq::<char>::empty()) =~= spec_song_array(a) + seq![','] + spec_encode_song(x@));
            assert(seq![','] + spec_encode_song(x@) + Seq::<char>::empty() =~= seq![',']
                + spec_encode_song(x@));
        } else {
            assert(spec_encode_song(a[0]@) + (spec_song_array_tail(a.drop_first()) + seq![',']
                + spec_encode_song(x@)) =~= spec_song_array(a) + seq![','] + spec_encode_song(x@));
        }
    }
}

/// Growing a written song tail one record at a time.
proof fn lemma_song_tail_snoc(a: Seq<Song>, x: Song)
    ensures
        spec_song_array_tail(a.push(x)) == spec_song_array_tail(a) + seq![','] + spec_encode_song(
            x@,
        ),
    decreases a.len(),
{
    if a.len() == 0 {
        assert(a.push(x)[0] == x);
        assert(a.push(x).drop_first() =~= Seq::<Song>::empty());
        assert(seq![','] + spec_encode_song(x@) + spec_song_array_tail(Seq::<Song>::empty())
            =~= Seq::<char>::empty() + seq![','] + spec_encode_song(x@));
    } else {
        lemma_song_tail_snoc(a.drop_first(), x);
        assert(a.push(x)[0] == a[0]);
        assert(a.push(x).drop_first() =~= a.drop_first().push(x));
        assert(seq![','] + spec_encode_song(a[0]@) + (spec_song_array_tail(a.drop_first())
            + seq![','] + spec_encode_song(x@)) =~= (seq![','] + spec_encode_song(a[0]@)
            + spec_song_array_tail(a.drop_first())) + seq![','] + spec_encode_song(x@));
    }
}

/// The queue store's writer: the whole queue as one document, ready to
/// overwrite the store wholesale.
pub fn encode_queue(queue: &Queue) -> (r: String)
    ensures
        r@ == spec_encode_queue(queue@),
{
    let mut out = String::new();
    out.append("{\"count\":");
    let n = queue.len();
    encode_u64_onto(&mut out, n as u64);
    out.append(",\"songs\":[");
    let ghost head = lit_queue_open() + decimal_digits(queue@.len() as int) + lit_queue_songs();
    proof {
        assert(out@ =~= head);
        assert(queue@.take(0) =~= Seq::<Song>::empty());
    }
    let mut i: usize = 0;
    while i < n
        invariant
            n == queue@.len(),
            i <= n,
            out@ == head + spec_song_array(queue@.take(i as int)),
        decreases n - i,
    {
        proof {
            lemma_song_array_snoc(queue@.take(i as int), queue@[i as int]);
            assert(queue@.take(i as int + 1) =~= queue@.take(i as int).push(queue@[i as int]));
        }
        if i > 0 {
            push_comma(&mut out);
        }
        encode_song_onto(&mut out, &queue.songs[i]);
        proof {
            if i == 0 {
                assert(out@ =~= head + spec_song_array(queue@.take(i as int + 1)));
            } else {
                assert(out@ =~= head + spec_song_array(queue@.take(i as int + 1)));
            }
        }
        i = i + 1;
    }
    out.append("]}");
    proof {
        assert(queue@.take(queue@.len() as int) =~= queue@);
        assert(out@ =~= spec_encode_queue(queue@));
    }
    out
}

/// One separator between two records.
fn push_comma(out: &mut String)
    ensures
        final(out)@ == old(out)@ + seq![','],
{
    push_char(out, ',');
    proof {
        assert(old(out)@.push(',') =~= old(out)@ + seq![',']);
    }
}

/// The queue store's reader: the document back as a queue, or `None` where
/// the text is no well-formed queue document.
pub fn decode_queue(text: &str) -> (r: Option<Queue>)
    ensures
        match r {
            Some(q) => spec_decode_queue(text@) == Some(song_views(q@)),
            None => spec_decode_queue(text@) is None,
        },
{
    let v = str_chars(text);
    proof {
        assert(v@.skip(0) =~= text@);
    }
    let j1 = match expect_lit(&v, 0, "{\"count\":") {
        Some(j) => j,
        None => {
            return None;
        },
    };
    let (n, j2) = match parse_u64_at(&v, j1) {
        Some(p) => p,
        None => {
            return None;
        },
    };
    let j3 = match expect_lit(&v, j2, ",\"songs\":[") {
        Some(j) => j,
        None => {
            return None;
        },
    };
    proof {
        assert(spec_expect(text@, lit_queue_open()) == Some(v@.skip(j1 as int)));
    }
    let mut songs: Vec<Song> = Vec::new();
    let mut j: usize = j3;
    if n > 0 {
        let mut k: u64 = 0;
        proof {
            assert(song_views(songs@) =~= Seq::<SongView>::empty());
            if spec_parse_songs(v@.skip(j3 as int), n as nat) is Some {
                let p = spec_parse_songs(v@.skip(j3 as int), n as nat).unwrap();
                assert(song_views(songs@) + p.0 =~= p.0);
            }
        }
        loop
            invariant_except_break
                k < n,
            invariant
                v@ == text@,
                j <= v@.len(),
                j1 <= v@.len(),
                j2 <= v@.len(),
                j3 <= v@.len(),
                spec_expect(text@, lit_queue_open()) == Some(v@.skip(j1 as int)),
                parse_u64(v@.skip(j1 as int)) == Some((n, v@.skip(j2 as int))),
                spec_expect(v@.skip(j2 as int), lit_queue_songs()) == Some(v@.skip(j3 as int)),
                k as int == songs@.len(),
                match spec_parse_songs(v@.skip(j as int), (n - k) as nat) {
                    Some(p) => spec_parse_songs(v@.skip(j3 as int), n as nat) == Some(
                        (song_views(songs@) + p.0, p.1),
                    ),
                    None => spec_parse_songs(v@.skip(j3 as int), n as nat) is None,
                },
            ensures
                k == n,
            decreases n - k,
        {
            let (song, j_next) = match parse_song_at(&v, j) {
                Some(p) => p,
                None => {
                    return None;
                },
            };
            proof {
                let ghost remaining = (n - k) as nat;
                assert(spec_parse_songs(v@.skip(j as int), remaining) matches Some(p) ==> true);
                if remaining > 1 {
                    if v@.skip(j_next as int).len() > 0 {
                        assert(v@.skip(j_next as int)[0] == v@[j_next as int]);
                    }
                }
            }
            let ghost songs_before = songs@;
            songs.push(song);
            k = k + 1;
            proof {
                assert(song_views(songs@) =~= song_views(songs_before).push(songs@.last()@));
            }
            if k == n {
                proof {
                    if spec_parse_songs(v@.skip(j_next as int), 0) is Some {
                        let p0 = spec_parse_songs(v@.skip(j_next as int), 0).unwrap();
                        assert(song_views(songs_before) + (seq![songs@.last()@] + p0.0)
                            =~= song_views(songs@) + p0.0);
                    }
                }
                j = j_next;
                break;
            }
            if j_next < v.len() && v[j_next] == ',' {
                proof {
                    assert(v@.skip(j_next as int)[0] == v@[j_next as int]);
                    assert(v@.skip(j_next as int).drop_first() =~= v@.skip(j_next as int + 1));
                    if spec_parse_songs(v@.skip(j_next as int + 1), (n - k) as nat) is Some {
                        let p1 = spec_parse_songs(
                            v@.skip(j_next as int + 1),
                            (n - k) as nat,
                        ).unwrap();
                        assert(song_views(songs_before) + (seq![songs@.last()@] + p1.0)
                            =~= song_views(songs@) + p1.0);
                    }
                }
                j = j_next + 1;
            } else {
                proof {
                    if v@.skip(j_next as int).len() > 0 {
                        assert(v@.skip(j_next as int)[0] == v@[j_next as int]);
                    }
                }
                return None;
            }
        }
    } else {
        proof {
            assert(song_views(songs@) =~= Seq::<SongView>::empty());
            if spec_parse_songs(v@.skip(j3 as int), 0) is Some {
                let p = spec_parse_songs(v@.skip(j3 as int), 0).unwrap();
                assert(song_views(songs@) + p.0 =~= p.0);
            }
        }
    }
    let j4 = match expect_lit(&v, j, "]}") {
        Some(p) => p,
        None => {
            return None;
        },
    };
    if j4 != v.len() {
        proof {
            assert(v@.skip(j4 as int).len() > 0);
        }
        return None;
    }
    proof {
        assert(v@.skip(j4 as int) =~= Seq::<char>::empty());
    }
    let mut q = Queue::new();
    let mut i: usize = 0;
    while i < songs.len()
        invariant
            i <= songs@.len(),
            q@ == songs@.take(i as int),
        decreases songs@.len() - i,
    {
        proof {
            assert(songs@.take(i as int + 1) =~= songs@.take(i as int).push(songs@[i as int]));
        }
        q.add_song(songs[i].clone());
        i = i + 1;
    }
    proof {
        assert(songs@.take(songs@.len() as int) =~= songs@);
    }
    Some(q)
}

// ---------------------------------------------------------------------------
// Executable reading.
// ---------------------------------------------------------------------------

/// Read a quoted string at `i`, as the spec's string reader sees it.
fn parse_string_field(v: &Vec<char>, i: usize) -> (r: Option<(String, usize)>)
    requires
        i <= v@.len(),
    ensures
        match r {
            Some(p) => {
                &&& i <= p.1 <= v@.len()
                &&& spec_parse_string(v@.skip(i as int)) == Some((p.0@, v@.skip(p.1 as int)))
            },
            None => spec_parse_string(v@.skip(i as int)) is None,
        },
{
    let r = parse_string_at(v, i);
    proof {
        if i < v@.len() {
            assert(v@.skip(i as int)[0] == v@[i as int]);
            assert(v@.skip(i as int).drop_first() =~= v@.skip(i as int + 1));
        } else {
            assert(v@.skip(i as int).len() == 0);
        }
    }
    r
}

/// Read a song record at `i`: the song and the position after it.
fn parse_song_at(v: &Vec<char>, i: usize) -> (r: Option<(Song, usize)>)
    requires
        i <= v@.len(),
    ensures
        match r {
            Some(p) => {
                &&& i <= p.1 <= v@.len()
                &&& spec_parse_song(v@.skip(i as int)) == Some((p.0@, v@.skip(p.1 as int)))
            },
            None => spec_parse_song(v@.skip(i as int)) is None,
        },
{
    let j1 = match expect_lit(v, i, "{\"name\":") {
        Some(j) => j,
        None => {
            return None;
        },
    };
    let (name, j2) = match parse_string_field(v, j1) {
        Some(p) => p,
        None => {
            return None;
        },
    };
    let j3 = match expect_lit(v, j2, ",\"artist\":") {
        Some(j) => j,
        None => {
            return None;
        },
    };
    let (artist, j4) = match parse_string_field(v, j3) {
        Some(p) => p,
        None => {
            return None;
        },
    };
    let j5 = match expect_lit(v, j4, ",\"album\":") {
        Some(j) => j,
        None => {
            return None;
        },
    };
    let (album, j6) = match parse_string_field(v, j5) {
        Some(p) => p,
        None => {
            return None;
        },
    };
    let j7 = match expect_lit(v, j6, ",\"duration\":") {
        Some(j) => j,
        None => {
            return None;
        },
    };
    let (duration, j8) = match parse_u64_at(v, j7) {
        Some(p) => p,
        None => {
            return None;
        },
    };
    let j9 = match expect_lit(v, j8, ",\"path\":") {
        Some(j) => j,
        None => {
            return None;
        },
    };
    let (path, j10) = match parse_string_field(v, j9) {
        Some(p) => p,
        None => {
            return None;
        },
    };
    let j11 = match expect_lit(v, j10, "}") {
        Some(j) => j,
        None => {
            return None;
        },
    };
    Some((Song { name, artist, album, duration, path }, j11))
}

/// The state store's reader: the document back as a state, or `None` where
/// the text is no well-formed state document.
#[verifier::rlimit(60)]
pub fn decode_state(text: &str) -> (r: Option<PlayerState>)
    ensures
        match r {
            Some(st) => spec_decode_state(text@) == Some(st@),
            None => spec_decode_state(text@) is None,
        },
{
    let v = str_chars(text);
    proof {
        assert(v@.skip(0) =~= text@);
    }
    if let Some(j) = expect_lit(&v, 0, "\"Stopped\"") {
        if j == v.len() {
            proof {
                assert(v@.skip(j as int) =~= Seq::<char>::empty());
            }
            return Some(PlayerState::Stopped);
        } else {
            proof {
                assert(v@.skip(j as int).len() > 0);
            }
            return None;
        }
    }
    if let Some(j) = expect_lit(&v, 0, "\"Starting\"") {
        if j == v.len() {
            proof {
                assert(v@.skip(j as int) =~= Seq::<char>::empty());
            }
            return Some(PlayerState::Starting);
        } else {
            proof {
                assert(v@.skip(j as int).len() > 0);
            }
            return None;
        }
    }
    if let Some(j) = expect_lit(&v, 0, "{\"Playing\":") {
        return match decode_tagged_tail(&v, j) {
            Some(song) => Some(PlayerState::Playing(song)),
            None => None,
        };
    }
    if let Some(j) = expect_lit(&v, 0, "{\"Paused\":") {
        return match decode_tagged_tail(&v, j) {
            Some(song) => Some(PlayerState::Paused(song)),
            None => None,
        };
    }
    if let Some(j) = expect_lit(&v, 0, "{\"Skip\":") {
        return match decode_tagged_tail(&v, j) {
            Some(song) => Some(PlayerState::Skip(song)),
            None => None,
        };
    }
    None
}

/// After a variant's tag: the song, the closing brace, and the document's
/// end.
fn decode_tagged_tail(v: &Vec<char>, j: usize) -> (r: Option<Song>)
    requires
        j <= v@.len(),
    ensures
        match r {
            Some(song) => spec_tagged_tail(v@.skip(j as int)) == Some(song@),
            None => spec_tagged_tail(v@.skip(j as int)) is None,
        },
{
    let (song, j2) = match parse_song_at(v, j) {
        Some(p) => p,
        None => {
            return None;
        },
    };
    let j3 = match expect_lit(v, j2, "}") {
        Some(p) => p,
        None => {
            return None;
        },
    };
    if j3 == v.len() {
        proof {
            assert(v@.skip(j3 as int) =~= Seq::<char>::empty());
        }
        Some(song)
    } else {
        proof {
            assert(v@.skip(j3 as int).len() > 0);
        }
        None
    }
}

/// What follows a variant's tag in a well-formed document: the song, the
/// closing brace, nothing after.
pub open spec fn spec_tagged_tail(s: Seq<char>) -> Option<SongView> {
    match spec_parse_song(s) {
        None => None,
        Some((song, s2)) => match spec_expect(s2, lit_close()) {
            None => None,
            Some(s3) => if s3.len() == 0 {
                Some(song)
            } else {
                None
            },
        },
    }
}

/// The state store's recovery rule: a present, well-formed record reads as
/// itself; a missing or malformed one reads as `Stopped` and asks the
/// caller to rewrite the store with that value.
pub fn recover_state(text: Option<&str>) -> (r: (PlayerState, bool))
    ensures
        match text {
            Some(t) => match spec_decode_state(t@) {
                Some(st) => r.0@ == st && !r.1,
                None => r.0 is Stopped && r.1,
            },
            None => r.0 is Stopped && r.1,
        },
{
    match text {
        Some(t) => match decode_state(t) {
            Some(st) => (st, false),
            None => (PlayerState::Stopped, true),
        },
        None => (PlayerState::Stopped, true),
    }
}

} // verus!
