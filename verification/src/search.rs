//! Searching the songs of an input file by name.
use vstd::prelude::*;
use crate::parser::{songs_view, SongDesc, SongSpec};
use crate::text::{chars_of, contains, contains_exec, lowercase, push_chars, spec_lowercase, string_from_chars};

verus! {

broadcast use vstd::string::group_string_axioms;

/// A song matches a (lower-cased) query when its lower-cased name holds it.
pub open spec fn song_matches(s: SongSpec, query: Seq<char>) -> bool {
    contains(spec_lowercase(s.name), query)
}

/// The songs of `songs` that match `query`, in order.
pub open spec fn matching_songs(songs: Seq<SongSpec>, query: Seq<char>) -> Seq<SongSpec>
    decreases songs.len(),
{
    if songs.len() == 0 {
        Seq::empty()
    } else {
        matching_songs(songs.drop_last(), query) + if song_matches(songs.last(), query) {
            seq![songs.last()]
        } else {
            Seq::empty()
        }
    }
}

/// A song matches exactly when the query occurs at some position of its
/// lower-cased name, not only at its start.
pub proof fn lemma_song_matches_anywhere(s: SongSpec, query: Seq<char>, u: Seq<char>, w: Seq<char>)
    ensures
        spec_lowercase(s.name) == u + query + w ==> song_matches(s, query),
        song_matches(s, query) ==> exists|a: Seq<char>, b: Seq<char>|
            spec_lowercase(s.name) == a + query + b,
{
    let n = spec_lowercase(s.name);
    if n == u + query + w {
        assert(n.subrange(u.len() as int, (u.len() + query.len()) as int) =~= query);
        assert(crate::text::occurs_at(n, query, u.len() as int));
    }
    if song_matches(s, query) {
        let i = choose|i: int| crate::text::occurs_at(n, query, i);
        assert(n =~= n.subrange(0, i) + query + n.subrange(i + query.len(), n.len() as int));
    }
}

/// A search finds every song whose lower-cased name holds the query and no
/// other: the result holds a song exactly when the songs hold it and it
/// matches.
pub proof fn lemma_search_finds(songs: Seq<SongSpec>, query: Seq<char>, s: SongSpec)
    ensures
        matching_songs(songs, query).contains(s) <==> songs.contains(s) && song_matches(s, query),
    decreases songs.len(),
{
    if songs.len() > 0 {
        let front = songs.drop_last();
        lemma_search_finds(front, query, s);
        let tail: Seq<SongSpec> = if song_matches(songs.last(), query) {
            seq![songs.last()]
        } else {
            Seq::empty()
        };
        let m = matching_songs(front, query);
        assert(matching_songs(songs, query) == m + tail);
        assert(songs =~= front.push(songs.last()));
        if matching_songs(songs, query).contains(s) {
            let k = choose|k: int| 0 <= k < (m + tail).len() && (m + tail)[k] == s;
            if k < m.len() {
                assert(m[k] == s);
            } else {
                assert(tail[k - m.len()] == s);
                assert(songs[songs.len() - 1] == s);
            }
        }
        if songs.contains(s) && song_matches(s, query) {
            let k = choose|k: int| 0 <= k < songs.len() && songs[k] == s;
            if k < songs.len() - 1 {
                assert(front[k] == s);
                let j = choose|j: int| 0 <= j < m.len() && m[j] == s;
                assert((m + tail)[j] == s);
            } else {
                assert((m + tail)[m.len() as int] == s);
            }
        }
    }
}

/// Whether a lower-cased song name holds the query.
pub fn name_matches(lowered_name: &String, query: &String) -> (b: bool)
    ensures
        b == contains(lowered_name@, query@),
{
    let n = chars_of(lowered_name.as_str());
    let q = chars_of(query.as_str());
    contains_exec(&n, &q)
}

/// The songs whose lower-cased names hold `query` (already lower-cased),
/// in the order of `songs`.
pub fn search_files(songs: &Vec<SongDesc>, query: &String) -> (r: Vec<SongDesc>)
    ensures
        songs_view(r@) == matching_songs(songs_view(songs@), query@),
{
    let mut out: Vec<SongDesc> = Vec::new();
    let mut x: usize = 0;
    assert(songs_view(songs@).take(0) =~= Seq::<SongSpec>::empty());
    while x < songs.len()
        invariant
            x <= songs@.len(),
            songs_view(out@) == matching_songs(songs_view(songs@).take(x as int), query@),
        decreases songs@.len() - x,
    {
        let lowered = lowercase(songs[x].name.as_str());
        let ghost before = songs_view(out@);
        proof {
            let t = songs_view(songs@).take(x + 1);
            assert(t.drop_last() =~= songs_view(songs@).take(x as int));
            assert(t.last() == songs@[x as int]@);
        }
        if name_matches(&lowered, query) {
            out.push(songs[x].clone());
            assert(songs_view(out@) =~= before + seq![songs@[x as int]@]);
        } else {
            assert(songs_view(out@) =~= before + Seq::<SongSpec>::empty());
        }
        x = x + 1;
    }
    assert(songs_view(songs@).take(x as int) =~= songs_view(songs@));
    out
}

/// The text shown for a song found by a search.
pub open spec fn result_text(s: SongSpec) -> Seq<char> {
    "\t\""@ + s.name + "\":\n\t\t"@ + (if s.is_file_url {
        "Source URL: "@
    } else {
        "Source File: "@
    }) + ":\""@ + s.infile + "\"\n\t\t"@ + match s.cover {
        None => "No Cover Provided"@,
        Some(c) => (if s.is_cover_url {
            "Provided Cover URL: "@
        } else {
            "Provided Cover File: "@
        }) + "\""@ + c + "\""@,
    } + "\n"@
}

/// Appends the literal `lit`.
fn push_lit(v: &mut Vec<char>, lit: &str)
    ensures
        final(v)@ == old(v)@ + lit@,
{
    let c = chars_of(lit);
    push_chars(v, &c);
}

/// Appends the text of `s`.
fn push_str(v: &mut Vec<char>, s: &String)
    ensures
        final(v)@ == old(v)@ + s@,
{
    let c = chars_of(s.as_str());
    push_chars(v, &c);
}

/// The text shown for a song found by a search: its name, its source and
/// its cover.
pub fn search_result_text(song: &SongDesc) -> (r: String)
    ensures
        r@ == result_text(song@),
{
    let mut t: Vec<char> = Vec::new();
    push_lit(&mut t, "\t\"");
    push_str(&mut t, &song.name);
    push_lit(&mut t, "\":\n\t\t");
    if song.is_file_url {
        push_lit(&mut t, "Source URL: ");
    } else {
        push_lit(&mut t, "Source File: ");
    }
    push_lit(&mut t, ":\"");
    push_str(&mut t, &song.infile);
    push_lit(&mut t, "\"\n\t\t");
    match &song.cover {
        None => {
            push_lit(&mut t, "No Cover Provided");
        },
        Some(c) => {
            if song.is_cover_url {
                push_lit(&mut t, "Provided Cover URL: ");
            } else {
                push_lit(&mut t, "Provided Cover File: ");
            }
            push_lit(&mut t, "\"");
            push_str(&mut t, c);
            push_lit(&mut t, "\"");
        },
    }
    push_lit(&mut t, "\n");
    proof {
        assert(t@ =~= result_text(song@));
    }
    string_from_chars(&t)
}

} // verus!
