//! The input-file format.
//!
//! Each line of an input file is one of:
//! - a song: `[!]source | [artist -] name [| [!]cover]`; a leading `!` marks
//!   a URL, otherwise the path is taken relative to the current directory;
//! - `*dir`: the directory that later relative paths are taken from;
//! - `@file`: another input file, whose songs take this line's place;
//! - `#...`: a comment.
//!
//! The reading goes character by character; `parse_spec` states it, corner
//! cases included.
use vstd::prelude::*;
use crate::text::{
    chars_of, concat_chars, contains, contains_exec, first_piece, first_piece_exec, slice_chars,
    string_from_chars, trim, trim_chars, is_ws, is_whitespace, lemma_trim_idempotent,
    lemma_trim_ends,
};

verus! {

broadcast use vstd::string::group_string_axioms;

// ---------------------------------------------------------------------------
// Data
// ---------------------------------------------------------------------------

/// One song of an input file.
#[derive(Debug)]
pub struct SongDesc {
    pub artist: String,
    pub name: String,
    pub infile: String,
    pub is_file_url: bool,
    pub cover: Option<String>,
    pub is_cover_url: bool,
}

/// The abstract value of a `SongDesc`.
pub struct SongSpec {
    pub artist: Seq<char>,
    pub name: Seq<char>,
    pub infile: Seq<char>,
    pub is_file_url: bool,
    pub cover: Option<Seq<char>>,
    pub is_cover_url: bool,
}

/// The view of an optional string.
pub open spec fn opt_view(s: Option<String>) -> Option<Seq<char>> {
    match s {
        Some(v) => Some(v@),
        None => None,
    }
}

impl View for SongDesc {
    type V = SongSpec;

    open spec fn view(&self) -> SongSpec {
        SongSpec {
            artist: self.artist@,
            name: self.name@,
            infile: self.infile@,
            is_file_url: self.is_file_url,
            cover: opt_view(self.cover),
            is_cover_url: self.is_cover_url,
        }
    }
}

/// One meaningful line of an input file.
#[derive(Debug)]
pub enum Entry {
    /// A song line.
    Song(SongDesc),
    /// An `@` line: the path of the input file to read in its place.
    Import(String),
}

/// The abstract value of an `Entry`.
pub enum EntrySpec {
    Song(SongSpec),
    Import(Seq<char>),
}

impl View for Entry {
    type V = EntrySpec;

    open spec fn view(&self) -> EntrySpec {
        match self {
            Entry::Song(s) => EntrySpec::Song(s@),
            Entry::Import(p) => EntrySpec::Import(p@),
        }
    }
}

/// The views of a sequence of entries.
pub open spec fn entries_view(v: Seq<Entry>) -> Seq<EntrySpec> {
    v.map_values(|e: Entry| e@)
}

/// Why an input file was refused.
#[derive(Debug, Clone, Copy, PartialEq, Eq, Structural)]
pub enum ParseError {
    /// A song line (any line that starts no other command) without a `|`
    /// after its source, with an empty source or with an empty name;
    /// `line` is the number (counted from 0) of the line reported,
    /// `usize::MAX` where the problem is at the end of the text.
    InvalidCommand { line: usize },
    /// A `*` line with no directory.
    EmptyDirectory,
    /// An `@` line with no file.
    EmptyImport,
    /// The input file's path has no parent directory.
    NoParentDirectory,
}

// ---------------------------------------------------------------------------
// Specification
// ---------------------------------------------------------------------------

/// The characters that start a song line: any but blanks, line breaks, the
/// byte-order mark that some editors put at the start of a file, and the
/// command characters `#`, `*` and `@`. A song's source may start with any
/// other character, so a stray line such as `0` or `~`, with no `|` after
/// it, is refused as an invalid command rather than passed over.
pub open spec fn starts_song(c: char) -> bool {
    &&& !is_ws(c)
    &&& c != '\u{feff}'
    &&& c != '#'
    &&& c != '*'
    &&& c != '@'
}

/// The first position at or after `i` holding a line break (or, with `bar`,
/// a `|`); the length of `t` when there is none.
pub open spec fn next_stop(t: Seq<char>, i: int, bar: bool) -> int
    decreases t.len() - i,
{
    if i >= t.len() {
        t.len() as int
    } else if t[i] == '\n' || (bar && t[i] == '|') {
        i
    } else {
        next_stop(t, i + 1, bar)
    }
}

/// The end of the line that position `i` is on.
pub open spec fn line_end(t: Seq<char>, i: int) -> int {
    next_stop(t, i, false)
}

/// The number of line breaks in `s`.
pub open spec fn count_newlines(s: Seq<char>) -> nat
    decreases s.len(),
{
    if s.len() == 0 {
        0
    } else {
        count_newlines(s.drop_last()) + if s.last() == '\n' {
            1nat
        } else {
            0nat
        }
    }
}

/// The line that position `pos` is on (counted from 0), `usize::MAX` past
/// the end of the text.
pub open spec fn spec_lines_to(t: Seq<char>, pos: int) -> int {
    if pos >= t.len() {
        usize::MAX as int
    } else {
        count_newlines(t.subrange(0, pos)) as int
    }
}

/// The cover of a song line, from its trimmed third field: `!url`, a path
/// relative to `home`, or none.
pub open spec fn cover_field(cover: Seq<char>, home: Seq<char>) -> (Option<Seq<char>>, bool) {
    if cover.len() == 0 {
        (None, false)
    } else if cover[0] == '!' {
        (Some(cover.subrange(1, cover.len() as int)), true)
    } else {
        (Some(home + cover), false)
    }
}

/// The new directory of a `*` line, from its trimmed argument: an absolute
/// path, or a path relative to `base`, the input file's own directory; it
/// gets a final `/` where it has none.
pub open spec fn directory_of(arg: Seq<char>, base: Seq<char>) -> Result<Seq<char>, ParseError> {
    if arg.len() == 0 {
        Err(ParseError::EmptyDirectory)
    } else {
        let d = if arg[0] == '/' {
            arg
        } else {
            base + arg
        };
        if d.last() == '/' {
            Ok(d)
        } else {
            Ok(d.push('/'))
        }
    }
}

/// The file of an `@` line, from its trimmed argument: a path relative to
/// `home`, the directory in use, a leading `/` left out.
pub open spec fn import_target(arg: Seq<char>, home: Seq<char>) -> Result<Seq<char>, ParseError> {
    if arg.len() == 0 {
        Err(ParseError::EmptyImport)
    } else if arg[0] == '/' {
        Ok(home + arg.drop_first())
    } else {
        Ok(home + arg)
    }
}

/// What reading one command does: the entry it yields, where reading goes
/// on, and the directory from then on.
pub struct Step {
    pub entry: Option<EntrySpec>,
    pub next: int,
    pub home: Seq<char>,
}

/// The song line that starts at position `x`: an optional `!`, the source
/// up to the first `|` of the line, the name up to the next `|` or the end
/// of the line (or of the text), and the cover after that `|`, if any.
pub open spec fn song_at(t: Seq<char>, x: int, home: Seq<char>) -> Result<Step, ParseError> {
    let url = t[x] == '!';
    let p = if url {
        x + 1
    } else {
        x
    };
    let q = next_stop(t, p, true);
    if q >= t.len() || t[q] != '|' {
        Err(ParseError::InvalidCommand { line: spec_lines_to(t, q) as usize })
    } else {
        let source = trim(t.subrange(p, q));
        let n0 = q + 1;
        if source.len() == 0 {
            Err(ParseError::InvalidCommand { line: spec_lines_to(t, n0) as usize })
        } else {
            let infile = if url {
                source
            } else {
                home + source
            };
            let e = next_stop(t, n0, true);
            let name = trim(t.subrange(n0, e));
            let c0 = if e < t.len() && t[e] == '|' {
                e + 1
            } else {
                e
            };
            if name.len() == 0 {
                Err(ParseError::InvalidCommand { line: spec_lines_to(t, c0) as usize })
            } else {
                let ce = line_end(t, c0);
                let (cover, is_cover_url) = cover_field(trim(t.subrange(c0, ce)), home);
                Ok(
                    Step {
                        entry: Some(
                            EntrySpec::Song(
                                SongSpec {
                                    artist: Seq::empty(),
                                    name,
                                    infile,
                                    is_file_url: url,
                                    cover,
                                    is_cover_url,
                                },
                            ),
                        ),
                        next: ce,
                        home,
                    },
                )
            }
        }
    }
}

/// The command that starts at position `x`, `base` being the input file's
/// directory and `home` the directory in use. Characters that start no
/// command (blanks among them) are passed over one at a time.
pub open spec fn step_at(t: Seq<char>, x: int, base: Seq<char>, home: Seq<char>) -> Result<
    Step,
    ParseError,
> {
    let c = t[x];
    if c == '\n' {
        Ok(Step { entry: None, next: x + 1, home })
    } else if c == '#' {
        Ok(Step { entry: None, next: line_end(t, x), home })
    } else if starts_song(c) {
        song_at(t, x, home)
    } else if c == '*' {
        let le = line_end(t, x + 1);
        match directory_of(trim(t.subrange(x + 1, le)), base) {
            Ok(d) => Ok(Step { entry: None, next: le, home: d }),
            Err(err) => Err(err),
        }
    } else if c == '@' {
        let le = line_end(t, x + 1);
        match import_target(trim(t.subrange(x + 1, le)), home) {
            Ok(path) => Ok(Step { entry: Some(EntrySpec::Import(path)), next: le, home }),
            Err(err) => Err(err),
        }
    } else {
        Ok(Step { entry: None, next: x + 1, home })
    }
}

/// The view of an optional entry.
pub open spec fn opt_entry_view(e: Option<Entry>) -> Option<EntrySpec> {
    match e {
        Some(v) => Some(v@),
        None => None,
    }
}

/// The entries of an optional one.
pub open spec fn opt_seq(e: Option<EntrySpec>) -> Seq<EntrySpec> {
    match e {
        Some(v) => seq![v],
        None => Seq::empty(),
    }
}

/// `r` with `prefix` put in front of its entries.
pub open spec fn prepend(prefix: Seq<EntrySpec>, r: Result<Seq<EntrySpec>, ParseError>) -> Result<
    Seq<EntrySpec>,
    ParseError,
> {
    match r {
        Ok(rest) => Ok(prefix + rest),
        Err(e) => Err(e),
    }
}

/// Reading `t` from position `x` on, `base` being the input file's
/// directory and `home` the directory in use.
pub open spec fn parse_from(t: Seq<char>, x: int, base: Seq<char>, home: Seq<char>) -> Result<
    Seq<EntrySpec>,
    ParseError,
>
    decreases t.len() - x,
{
    if x < 0 || x >= t.len() {
        Ok(Seq::empty())
    } else {
        match step_at(t, x, base, home) {
            Err(e) => Err(e),
            Ok(s) => {
                proof {
                    lemma_step_advances(t, x, base, home);
                }
                prepend(opt_seq(s.entry), parse_from(t, s.next, base, s.home))
            },
        }
    }
}

/// The entries of the text `t` of an input file whose directory is `home`;
/// the first refused command stops the reading.
pub open spec fn parse_spec(t: Seq<char>, home: Seq<char>) -> Result<Seq<EntrySpec>, ParseError> {
    parse_from(t, 0, home, home)
}

// ---------------------------------------------------------------------------
// Lemmas
// ---------------------------------------------------------------------------

/// `next_stop` finds the first stop at or after `i`.
pub proof fn lemma_next_stop(t: Seq<char>, i: int, bar: bool)
    requires
        0 <= i <= t.len(),
    ensures
        i <= next_stop(t, i, bar) <= t.len(),
        next_stop(t, i, bar) < t.len() ==> (t[next_stop(t, i, bar)] == '\n' || (bar && t[next_stop(
            t,
            i,
            bar,
        )] == '|')),
        forall|j: int|
            i <= j < next_stop(t, i, bar) ==> t[j] != '\n' && !(bar && t[j] == '|'),
    decreases t.len() - i,
{
    if i < t.len() && !(t[i] == '\n' || (bar && t[i] == '|')) {
        lemma_next_stop(t, i + 1, bar);
    }
}

/// Every command moves the reading forward.
pub proof fn lemma_step_advances(t: Seq<char>, x: int, base: Seq<char>, home: Seq<char>)
    requires
        0 <= x < t.len(),
    ensures
        step_at(t, x, base, home) matches Ok(s) ==> x < s.next <= t.len(),
{
    lemma_next_stop(t, x, false);
    lemma_next_stop(t, x + 1, false);
    let c = t[x];
    if starts_song(c) {
        let p = if c == '!' {
            x + 1
        } else {
            x
        };
        lemma_next_stop(t, p, true);
        let q = next_stop(t, p, true);
        if q < t.len() {
            lemma_next_stop(t, q + 1, true);
            let e = next_stop(t, q + 1, true);
            let c0 = if e < t.len() && t[e] == '|' {
                e + 1
            } else {
                e
            };
            lemma_next_stop(t, c0, false);
        }
    }
}

// ---------------------------------------------------------------------------
// Executable code
// ---------------------------------------------------------------------------

impl SongDesc {
    /// A copy of the song.
    pub fn clone(&self) -> (r: SongDesc)
        ensures
            r@ == self@,
    {
        let cover = match &self.cover {
            Some(c) => Some(c.clone()),
            None => None,
        };
        SongDesc {
            artist: self.artist.clone(),
            name: self.name.clone(),
            infile: self.infile.clone(),
            is_file_url: self.is_file_url,
            cover,
            is_cover_url: self.is_cover_url,
        }
    }
}

/// The first position at or after `i` holding a line break (or, with `bar`,
/// a `|`), the length of `t` when there is none.
fn next_stop_exec(t: &[char], i: usize, bar: bool) -> (r: usize)
    requires
        i <= t@.len(),
    ensures
        r == next_stop(t@, i as int, bar),
{
    let mut j = i;
    while j < t.len() && !(t[j] == '\n' || (bar && t[j] == '|'))
        invariant
            i <= j <= t@.len(),
            next_stop(t@, i as int, bar) == next_stop(t@, j as int, bar),
        decreases t.len() - j,
    {
        j = j + 1;
    }
    j
}

/// The line that position `pos` of `chars` is on, counted from 0;
/// `usize::MAX` when `pos` is past the end.
pub fn lines_to(chars: &Vec<char>, pos: usize) -> (r: usize)
    ensures
        r == spec_lines_to(chars@, pos as int),
{
    if pos >= chars.len() {
        return usize::MAX;
    }
    let mut x: usize = 0;
    let mut lines: usize = 0;
    while x < pos
        invariant
            x <= pos < chars@.len(),
            lines <= x,
            lines == count_newlines(chars@.subrange(0, x as int)),
        decreases pos - x,
    {
        assert(chars@.subrange(0, x + 1).drop_last() =~= chars@.subrange(0, x as int));
        if chars[x] == '\n' {
            lines = lines + 1;
        }
        x = x + 1;
    }
    lines
}

/// The cover of a song line (see `cover_field`).
fn cover_field_exec(cover: &Vec<char>, home: &Vec<char>) -> (r: (Option<String>, bool))
    ensures
        (opt_view(r.0), r.1) == cover_field(cover@, home@),
{
    if cover.len() == 0 {
        (None, false)
    } else if cover[0] == '!' {
        let url = slice_chars(cover, 1, cover.len());
        (Some(string_from_chars(&url)), true)
    } else {
        let path = concat_chars(home, cover);
        (Some(string_from_chars(&path)), false)
    }
}

/// The new directory of a `*` line (see `directory_of`).
fn directory_of_exec(arg: &Vec<char>, base: &Vec<char>) -> (r: Result<Vec<char>, ParseError>)
    ensures
        r matches Ok(d) ==> directory_of(arg@, base@) == Ok::<_, ParseError>(d@),
        r matches Err(e) ==> directory_of(arg@, base@) == Err::<Seq<char>, _>(e),
{
    if arg.len() == 0 {
        return Err(ParseError::EmptyDirectory);
    }
    let mut d = if arg[0] == '/' {
        slice_chars(arg, 0, arg.len())
    } else {
        concat_chars(base, arg)
    };
    assert(arg@.subrange(0, arg@.len() as int) =~= arg@);
    if d[d.len() - 1] != '/' {
        d.push('/');
    }
    Ok(d)
}

/// The file of an `@` line (see `import_target`).
fn import_target_exec(arg: &Vec<char>, home: &Vec<char>) -> (r: Result<Vec<char>, ParseError>)
    ensures
        r matches Ok(p) ==> import_target(arg@, home@) == Ok::<_, ParseError>(p@),
        r matches Err(e) ==> import_target(arg@, home@) == Err::<Seq<char>, _>(e),
{
    if arg.len() == 0 {
        return Err(ParseError::EmptyImport);
    }
    if arg[0] == '/' {
        let rest = slice_chars(arg, 1, arg.len());
        assert(rest@ =~= arg@.drop_first());
        Ok(concat_chars(home, &rest))
    } else {
        Ok(concat_chars(home, arg))
    }
}

/// The song line that starts at position `x` (see `song_at`): the song and
/// the position after it.
fn song_at_exec(t: &Vec<char>, x: usize, home: &Vec<char>) -> (r: Result<
    (SongDesc, usize),
    ParseError,
>)
    requires
        x < t@.len(),
        starts_song(t@[x as int]),
    ensures
        r matches Ok((s, n)) ==> song_at(t@, x as int, home@) == Ok::<_, ParseError>(
            Step { entry: Some(EntrySpec::Song(s@)), next: n as int, home: home@ },
        ),
        r matches Err(e) ==> song_at(t@, x as int, home@) == Err::<Step, _>(e),
{
    let n = t.len();
    let url = t[x] == '!';
    let p = if url {
        x + 1
    } else {
        x
    };
    let q = next_stop_exec(t, p, true);
    proof {
        lemma_next_stop(t@, p as int, true);
    }
    if q >= n || t[q] != '|' {
        return Err(ParseError::InvalidCommand { line: lines_to(t, q) });
    }
    let raw = slice_chars(t, p, q);
    let source = trim_chars(&raw);
    let n0 = q + 1;
    if source.len() == 0 {
        return Err(ParseError::InvalidCommand { line: lines_to(t, n0) });
    }
    let infile = if url {
        source
    } else {
        concat_chars(home, &source)
    };
    let e = next_stop_exec(t, n0, true);
    proof {
        lemma_next_stop(t@, n0 as int, true);
    }
    let name_raw = slice_chars(t, n0, e);
    let name = trim_chars(&name_raw);
    let c0 = if e < n && t[e] == '|' {
        e + 1
    } else {
        e
    };
    if name.len() == 0 {
        return Err(ParseError::InvalidCommand { line: lines_to(t, c0) });
    }
    let ce = next_stop_exec(t, c0, false);
    proof {
        lemma_next_stop(t@, c0 as int, false);
    }
    let cover_raw = slice_chars(t, c0, ce);
    let cover_text = trim_chars(&cover_raw);
    let (cover, is_cover_url) = cover_field_exec(&cover_text, home);
    let song = SongDesc {
        artist: string_from_chars(&Vec::new()),
        name: string_from_chars(&name),
        infile: string_from_chars(&infile),
        is_file_url: url,
        cover,
        is_cover_url,
    };
    proof {
        assert(song@.artist =~= Seq::<char>::empty());
    }
    Ok((song, ce))
}

/// The command that starts at position `x` (see `step_at`): its entry, the
/// position after it and the directory from then on.
fn step_at_exec(t: &Vec<char>, x: usize, base: &Vec<char>, home: &Vec<char>) -> (r: Result<
    (Option<Entry>, usize, Vec<char>),
    ParseError,
>)
    requires
        x < t@.len(),
    ensures
        r matches Ok((e, n, h)) ==> step_at(t@, x as int, base@, home@) == Ok::<_, ParseError>(
            Step {
                entry: opt_entry_view(e),
                next: n as int,
                home: h@,
            },
        ),
        r matches Err(err) ==> step_at(t@, x as int, base@, home@) == Err::<Step, _>(err),
{
    let n = t.len();
    assert(x < n);
    let c = t[x];
    let same_home = slice_chars(home, 0, home.len());
    assert(same_home@ =~= home@);
    if c == '\n' {
        Ok((None, x + 1, same_home))
    } else if c == '#' {
        let le = next_stop_exec(t, x, false);
        Ok((None, le, same_home))
    } else if !is_whitespace(c) && c != '\u{feff}' && c != '*' && c != '@' {
        match song_at_exec(t, x, home) {
            Ok((song, next)) => Ok((Some(Entry::Song(song)), next, same_home)),
            Err(err) => Err(err),
        }
    } else if c == '*' {
        let le = next_stop_exec(t, x + 1, false);
        proof {
            lemma_next_stop(t@, x + 1, false);
        }
        let raw = slice_chars(t, x + 1, le);
        let arg = trim_chars(&raw);
        match directory_of_exec(&arg, base) {
            Ok(d) => Ok((None, le, d)),
            Err(err) => Err(err),
        }
    } else if c == '@' {
        let le = next_stop_exec(t, x + 1, false);
        proof {
            lemma_next_stop(t@, x + 1, false);
        }
        let raw = slice_chars(t, x + 1, le);
        let arg = trim_chars(&raw);
        match import_target_exec(&arg, home) {
            Ok(path) => Ok((Some(Entry::Import(string_from_chars(&path))), le, same_home)),
            Err(err) => Err(err),
        }
    } else {
        Ok((None, x + 1, same_home))
    }
}

/// Reads the text of an input file: the songs and imports it lists, in
/// order, relative paths being taken from `home`; or the first command that
/// is refused.
pub fn parse_text(text: &Vec<char>, home: &Vec<char>) -> (r: Result<Vec<Entry>, ParseError>)
    ensures
        r matches Ok(v) ==> parse_spec(text@, home@) == Ok::<_, ParseError>(entries_view(v@)),
        r matches Err(e) ==> parse_spec(text@, home@) == Err::<Seq<EntrySpec>, _>(e),
{
    let mut out: Vec<Entry> = Vec::new();
    let mut x: usize = 0;
    let mut h = slice_chars(home, 0, home.len());
    assert(h@ =~= home@);
    assert(entries_view(out@) =~= Seq::<EntrySpec>::empty());
    while x < text.len()
        invariant
            x <= text@.len(),
            parse_from(text@, 0, home@, home@) == prepend(
                entries_view(out@),
                parse_from(text@, x as int, home@, h@),
            ),
        decreases text@.len() - x,
    {
        proof {
            lemma_step_advances(text@, x as int, home@, h@);
        }
        match step_at_exec(text, x, home, &h) {
            Err(e) => {
                return Err(e);
            },
            Ok((entry, next, new_home)) => {
                let ghost old_out = entries_view(out@);
                let ghost e_view = opt_entry_view(entry);
                let ghost rest = parse_from(text@, next as int, home@, new_home@);
                match entry {
                    Some(en) => {
                        out.push(en);
                    },
                    None => {},
                }
                proof {
                    assert(entries_view(out@) =~= old_out + opt_seq(e_view));
                    match rest {
                        Ok(r) => {
                            assert(old_out + (opt_seq(e_view) + r) =~= (old_out + opt_seq(e_view))
                                + r);
                        },
                        Err(_) => {},
                    }
                }
                x = next;
                h = new_home;
            },
        }
    }
    proof {
        assert(entries_view(out@) + Seq::<EntrySpec>::empty() =~= entries_view(out@));
    }
    Ok(out)
}

} // verus!

verus! {

// ---------------------------------------------------------------------------
// Whole files, imports and artists
// ---------------------------------------------------------------------------

/// What `Path::parent` gives for the path `path`, as text: the path without
/// its last component, or none for a root or an empty path.
pub uninterp spec fn spec_path_parent(path: Seq<char>) -> Option<Seq<char>>;

/// `std::path::Path::parent`, its result turned back into text. The result
/// is named by `spec_path_parent`, a function of the path alone; nothing
/// more is stated of it.
#[verifier::external_body]
fn path_parent(path: &str) -> (r: Option<String>)
    ensures
        opt_view(r) == spec_path_parent(path@),
{
    match std::path::Path::new(path).parent() {
        Some(p) => Some(p.to_string_lossy().into_owned()),
        None => None,
    }
}

/// The directory that relative paths of the input file `path` are taken
/// from: its parent directory with a final `/`, or `./` (the current
/// directory) when the path has no directory part.
pub open spec fn home_of(path: Seq<char>) -> Option<Seq<char>> {
    match spec_path_parent(path) {
        Some(p) => Some(
            if p.len() == 0 {
                "./"@
            } else if p.last() == '/' {
                p
            } else {
                p.push('/')
            },
        ),
        None => None,
    }
}

/// Reads the input file at `path`, whose text is `text`: its songs and
/// imports in order, relative paths taken from the file's own directory.
pub fn parse_file(path: &String, text: &String) -> (r: Result<Vec<Entry>, ParseError>)
    ensures
        home_of(path@) is None ==> r == Err::<Vec<Entry>, _>(ParseError::NoParentDirectory),
        home_of(path@) matches Some(home) ==> {
            &&& r matches Ok(v) ==> parse_spec(text@, home) == Ok::<_, ParseError>(
                entries_view(v@),
            )
            &&& r matches Err(e) ==> parse_spec(text@, home) == Err::<Seq<EntrySpec>, _>(e)
        },
{
    match path_parent(path.as_str()) {
        None => Err(ParseError::NoParentDirectory),
        Some(parent) => {
            let mut home = chars_of(parent.as_str());
            if home.len() == 0 {
                home = chars_of("./");
            } else if home[home.len() - 1] != '/' {
                home.push('/');
            }
            let chars = chars_of(text.as_str());
            parse_text(&chars, &home)
        },
    }
}

/// The number of imports among `es`.
pub open spec fn import_count(es: Seq<EntrySpec>) -> nat
    decreases es.len(),
{
    if es.len() == 0 {
        0
    } else {
        import_count(es.drop_first()) + match es[0] {
            EntrySpec::Import(_) => 1nat,
            EntrySpec::Song(_) => 0nat,
        }
    }
}

/// The songs of `es` in order, the songs `imported[k]` standing in place of
/// the `k`-th import.
pub open spec fn flatten(es: Seq<EntrySpec>, imported: Seq<Seq<SongSpec>>) -> Seq<SongSpec>
    decreases es.len(),
{
    if es.len() == 0 {
        Seq::empty()
    } else {
        match es[0] {
            EntrySpec::Song(s) => seq![s] + flatten(es.drop_first(), imported),
            EntrySpec::Import(_) => imported[0] + flatten(es.drop_first(), imported.drop_first()),
        }
    }
}

/// The views of a sequence of songs.
pub open spec fn songs_view(v: Seq<SongDesc>) -> Seq<SongSpec> {
    v.map_values(|s: SongDesc| s@)
}

/// The views of a sequence of song lists.
pub open spec fn song_lists_view(v: Seq<Vec<SongDesc>>) -> Seq<Seq<SongSpec>> {
    v.map_values(|l: Vec<SongDesc>| songs_view(l@))
}

proof fn lemma_import_count_skip(es: Seq<EntrySpec>, i: int)
    requires
        0 <= i < es.len(),
    ensures
        import_count(es.skip(i)) == import_count(es.skip(i + 1)) + match es[i] {
            EntrySpec::Import(_) => 1nat,
            EntrySpec::Song(_) => 0nat,
        },
{
    assert(es.skip(i).drop_first() =~= es.skip(i + 1));
}

/// The songs of a file whose entries are `entries`, each import replaced by
/// the songs of the imported file (`imported[k]` for the `k`-th import).
pub fn songs_in_order(entries: &Vec<Entry>, imported: &Vec<Vec<SongDesc>>) -> (r: Vec<SongDesc>)
    requires
        imported@.len() == import_count(entries_view(entries@)),
    ensures
        songs_view(r@) == flatten(entries_view(entries@), song_lists_view(imported@)),
{
    let ghost es = entries_view(entries@);
    let ghost imp = song_lists_view(imported@);
    let mut out: Vec<SongDesc> = Vec::new();
    let mut i: usize = 0;
    let mut j: usize = 0;
    assert(es.skip(0) =~= es);
    assert(imp.skip(0) =~= imp);
    while i < entries.len()
        invariant
            i <= entries@.len(),
            es == entries_view(entries@),
            imp == song_lists_view(imported@),
            imported@.len() == import_count(es),
            j + import_count(es.skip(i as int)) == imported@.len(),
            flatten(es, imp) == songs_view(out@) + flatten(es.skip(i as int), imp.skip(j as int)),
        decreases entries@.len() - i,
    {
        proof {
            lemma_import_count_skip(es, i as int);
            assert(es.skip(i as int).drop_first() =~= es.skip(i + 1));
            assert(es.skip(i as int)[0] == es[i as int]);
        }
        match &entries[i] {
            Entry::Song(s) => {
                let ghost before = songs_view(out@);
                out.push(s.clone());
                proof {
                    assert(songs_view(out@) =~= before + seq![s@]);
                    assert(before + (seq![s@] + flatten(es.skip(i + 1), imp.skip(j as int)))
                        =~= before + seq![s@] + flatten(es.skip(i + 1), imp.skip(j as int)));
                }
            },
            Entry::Import(_) => {
                assert(j < imported.len());
                let ghost before = songs_view(out@);
                let list = &imported[j];
                let mut k: usize = 0;
                while k < list.len()
                    invariant
                        k <= list@.len(),
                        songs_view(out@) == before + songs_view(list@).take(k as int),
                    decreases list@.len() - k,
                {
                    let ghost prev = songs_view(out@);
                    out.push(list[k].clone());
                    proof {
                        assert(songs_view(out@) =~= prev.push(list@[k as int]@));
                        assert(songs_view(list@).take(k + 1) =~= songs_view(list@).take(
                            k as int,
                        ).push(list@[k as int]@));
                        assert(songs_view(out@) =~= before + songs_view(list@).take(k + 1));
                    }
                    k = k + 1;
                }
                proof {
                    assert(songs_view(list@).take(k as int) =~= songs_view(list@));
                    assert(imp.skip(j as int)[0] == songs_view(list@));
                    assert(imp.skip(j as int).drop_first() =~= imp.skip(j + 1));
                    assert(before + (songs_view(list@) + flatten(es.skip(i + 1), imp.skip(j + 1)))
                        =~= songs_view(out@) + flatten(es.skip(i + 1), imp.skip(j + 1)));
                }
                j = j + 1;
            },
        }
        i = i + 1;
    }
    proof {
        assert(es.skip(i as int) =~= Seq::<EntrySpec>::empty());
        assert(songs_view(out@) + Seq::<SongSpec>::empty() =~= songs_view(out@));
    }
    out
}

/// The artist that a song name names: the text before its first `-`,
/// trimmed, where it has one.
pub open spec fn artist_from_name(name: Seq<char>) -> Option<Seq<char>> {
    if contains(name, seq!['-']) {
        Some(trim(first_piece(name, seq!['-'])))
    } else {
        None
    }
}

/// `s` with its artist taken from its name, where the name holds a `-`.
pub open spec fn with_artist(s: SongSpec) -> SongSpec {
    match artist_from_name(s.name) {
        Some(a) => SongSpec { artist: a, ..s },
        None => s,
    }
}

/// Sets the artist of every song whose name holds a `-` to the trimmed text
/// before the first `-`; other songs are left as they are.
pub fn get_artist_name(input: &mut Vec<SongDesc>)
    ensures
        final(input)@.len() == old(input)@.len(),
        forall|i: int|
            0 <= i < old(input)@.len() ==> #[trigger] final(input)@[i]@ == with_artist(
                old(input)@[i]@,
            ),
{
    let dash = vec!['-'];
    let mut x: usize = 0;
    while x < input.len()
        invariant
            x <= input@.len() == old(input)@.len(),
            dash@ == seq!['-'],
            forall|i: int| 0 <= i < x ==> #[trigger] input@[i]@ == with_artist(old(input)@[i]@),
            forall|i: int| x <= i < input@.len() ==> #[trigger] input@[i] == old(input)@[i],
        decreases input@.len() - x,
    {
        let name = chars_of(input[x].name.as_str());
        if contains_exec(&name, &dash) {
            let before = first_piece_exec(&name, &dash);
            let artist = trim_chars(&before);
            let mut song = input[x].clone();
            song.artist = string_from_chars(&artist);
            input.set(x, song);
        }
        x = x + 1;
    }
}

} // verus!

verus! {

// ---------------------------------------------------------------------------
// Laws
// ---------------------------------------------------------------------------

/// What every song read from an input file satisfies: a non-empty name with
/// no blanks around it, a non-empty source, a cover whenever the cover is
/// marked as a URL, and no artist yet.
pub open spec fn song_well_formed(s: SongSpec) -> bool {
    &&& s.name.len() > 0
    &&& trim(s.name) == s.name
    &&& s.infile.len() > 0
    &&& s.is_cover_url ==> s.cover is Some
    &&& s.artist.len() == 0
}

/// Every song among `es` is well formed.
pub open spec fn entries_well_formed(es: Seq<EntrySpec>) -> bool {
    forall|i: int|
        0 <= i < es.len() ==> match #[trigger] es[i] {
            EntrySpec::Song(s) => song_well_formed(s),
            EntrySpec::Import(_) => true,
        }
}

proof fn lemma_step_well_formed(t: Seq<char>, x: int, base: Seq<char>, home: Seq<char>)
    requires
        0 <= x < t.len(),
    ensures
        step_at(t, x, base, home) matches Ok(s) ==> entries_well_formed(opt_seq(s.entry)),
{
    if starts_song(t[x]) {
        let p = if t[x] == '!' {
            x + 1
        } else {
            x
        };
        lemma_next_stop(t, p, true);
        let q = next_stop(t, p, true);
        if q < t.len() {
            lemma_next_stop(t, q + 1, true);
            let e = next_stop(t, q + 1, true);
            lemma_trim_idempotent(t.subrange(q + 1, e));
            lemma_trim_ends(t.subrange(p, q));
        }
    }
}

/// Every song that a successful reading yields is well formed; in
/// particular a cover marked as a URL is always there.
pub proof fn lemma_parse_well_formed(t: Seq<char>, x: int, base: Seq<char>, home: Seq<char>)
    ensures
        parse_from(t, x, base, home) matches Ok(es) ==> entries_well_formed(es),
    decreases t.len() - x,
{
    if 0 <= x < t.len() {
        lemma_step_advances(t, x, base, home);
        lemma_step_well_formed(t, x, base, home);
        if let Ok(s) = step_at(t, x, base, home) {
            lemma_parse_well_formed(t, s.next, base, s.home);
            if let Ok(rest) = parse_from(t, s.next, base, s.home) {
                let es = opt_seq(s.entry) + rest;
                assert forall|i: int| 0 <= i < es.len() implies match #[trigger] es[i] {
                    EntrySpec::Song(sg) => song_well_formed(sg),
                    EntrySpec::Import(_) => true,
                } by {
                    if i < opt_seq(s.entry).len() {
                        assert(es[i] == opt_seq(s.entry)[i]);
                    } else {
                        assert(es[i] == rest[i - opt_seq(s.entry).len()]);
                    }
                }
            }
        }
    } else {
        assert(entries_well_formed(Seq::<EntrySpec>::empty()));
    }
}

/// A line whose first non-blank character is `#` is a comment: reading
/// from the start of such a line gives what reading from its end gives.
pub proof fn lemma_comment_line(t: Seq<char>, x: int, k: int, base: Seq<char>, home: Seq<char>)
    requires
        0 <= x <= k < t.len(),
        t[k] == '#',
        forall|i: int| x <= i < k ==> is_ws(#[trigger] t[i]) && t[i] != '\n',
    ensures
        parse_from(t, x, base, home) == parse_from(t, line_end(t, k), base, home),
    decreases k - x,
{
    lemma_step_advances(t, x, base, home);
    let rest = parse_from(t, if x == k {
        line_end(t, k)
    } else {
        x + 1
    }, base, home);
    if let Ok(r) = rest {
        assert(Seq::<EntrySpec>::empty() + r =~= r);
    }
    if x < k {
        assert(is_ws(t[x]) && t[x] != '\n');
        lemma_comment_line(t, x + 1, k, base, home);
    }
}

} // verus!

verus! {

/// Every song read from the text of an input file is well formed; in
/// particular each cover marked as a URL is there, as `process_cover` needs.
pub proof fn lemma_parsed_songs_well_formed(t: Seq<char>, home: Seq<char>)
    ensures
        parse_spec(t, home) matches Ok(es) ==> entries_well_formed(es),
{
    lemma_parse_well_formed(t, 0, home, home);
}


/// The total number of songs in the lists `imported`.
pub open spec fn total_len(imported: Seq<Seq<SongSpec>>) -> nat
    decreases imported.len(),
{
    if imported.len() == 0 {
        0
    } else {
        imported[0].len() + total_len(imported.drop_first())
    }
}

/// Reading entries one after the other: the songs of `es1` followed by
/// `es2` are the songs of `es1`, with the first imported lists, followed by
/// the songs of `es2`, with the lists after them. Each imported list is
/// used once, in the order of the imports.
pub proof fn lemma_flatten_append(es1: Seq<EntrySpec>, es2: Seq<EntrySpec>, imported: Seq<Seq<SongSpec>>)
    requires
        imported.len() == import_count(es1) + import_count(es2),
    ensures
        flatten(es1 + es2, imported) == flatten(es1, imported.take(import_count(es1) as int))
            + flatten(es2, imported.skip(import_count(es1) as int)),
    decreases es1.len(),
{
    let n1 = import_count(es1) as int;
    if es1.len() == 0 {
        assert(es1 + es2 =~= es2);
        assert(imported.skip(0) =~= imported);
        assert(flatten(es1, imported.take(0)) =~= Seq::<SongSpec>::empty());
        assert(flatten(es1 + es2, imported) =~= Seq::<SongSpec>::empty() + flatten(es2, imported.skip(0)));
    } else {
        let rest = es1.drop_first();
        assert((es1 + es2).drop_first() =~= rest + es2);
        assert((es1 + es2)[0] == es1[0]);
        match es1[0] {
            EntrySpec::Song(s) => {
                lemma_flatten_append(rest, es2, imported);
                assert(import_count(rest) == n1);
                assert(flatten(es1 + es2, imported) =~= seq![s] + flatten(rest + es2, imported));
                assert(flatten(es1, imported.take(n1)) =~= seq![s] + flatten(rest, imported.take(n1)));
            },
            EntrySpec::Import(_) => {
                let tail = imported.drop_first();
                assert(import_count(rest) == n1 - 1);
                lemma_flatten_append(rest, es2, tail);
                assert(imported.take(n1).drop_first() =~= tail.take(n1 - 1));
                assert(tail.skip(n1 - 1) =~= imported.skip(n1));
                assert(imported.take(n1)[0] == imported[0]);
                assert(flatten(es1 + es2, imported) =~= imported[0] + flatten(rest + es2, tail));
                assert(flatten(es1, imported.take(n1)) =~= imported[0] + flatten(rest, tail.take(n1 - 1)));
            },
        }
    }
}

/// An `@` line alone gives exactly the songs of the file it imports, and a
/// song line alone gives its song.
pub proof fn lemma_flatten_single(e: EntrySpec, songs: Seq<SongSpec>)
    ensures
        e is Import ==> flatten(seq![e], seq![songs]) == songs,
        e matches EntrySpec::Song(s) ==> flatten(seq![e], Seq::empty()) == seq![s],
{
    let one = seq![e];
    assert(one.drop_first() =~= Seq::<EntrySpec>::empty());
    assert(one[0] == e);
    assert(seq![songs].drop_first() =~= Seq::<Seq<SongSpec>>::empty());
    assert(flatten(Seq::<EntrySpec>::empty(), Seq::<Seq<SongSpec>>::empty()) =~= Seq::<SongSpec>::empty());
    match e {
        EntrySpec::Import(_) => {
            assert(flatten(one, seq![songs]) == songs + flatten(one.drop_first(), seq![songs].drop_first()));
            assert(songs + Seq::<SongSpec>::empty() =~= songs);
        },
        EntrySpec::Song(s) => {
            assert(flatten(one, Seq::empty()) == seq![s] + flatten(one.drop_first(), Seq::empty()));
            assert(seq![s] + Seq::<SongSpec>::empty() =~= seq![s]);
        },
    }
}

/// The songs of a file number its own songs plus all the songs of the
/// files it imports.
pub proof fn lemma_flatten_len(es: Seq<EntrySpec>, imported: Seq<Seq<SongSpec>>)
    requires
        imported.len() == import_count(es),
    ensures
        import_count(es) <= es.len(),
        flatten(es, imported).len() == es.len() - import_count(es) + total_len(imported),
    decreases es.len(),
{
    if es.len() > 0 {
        let rest = es.drop_first();
        match es[0] {
            EntrySpec::Song(s) => {
                assert(import_count(es) == import_count(rest));
                lemma_flatten_len(rest, imported);
                assert(flatten(es, imported) == seq![s] + flatten(rest, imported));
            },
            EntrySpec::Import(_) => {
                assert(import_count(es) == import_count(rest) + 1);
                lemma_flatten_len(rest, imported.drop_first());
                assert(flatten(es, imported) == imported[0] + flatten(rest, imported.drop_first()));
                assert(total_len(imported) == imported[0].len() + total_len(imported.drop_first()));
            },
        }
    }
}

} // verus!
