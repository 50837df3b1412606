//! Planning the downloads: which songs are already present in the output
//! directory, where each converted file goes, what ffmpeg is asked to do,
//! the temporary names of downloads, the files removed afterwards, and the
//! steps by which one song is handled.
use vstd::prelude::*;
use rand::seq::IteratorRandom;
use crate::options::{bitrate_of, codec_of, extension_of, slash_terminated, with_trailing_slash, Options};
use crate::cover::{cover_plan, process_cover, CoverPlan, CoverPlanSpec};
use crate::parser::{opt_view, SongDesc, SongSpec};
use crate::text::{
    chars_equal, chars_of, push_chars, string_from_chars, strings_view, trim, trim_chars,
};

verus! {

broadcast use vstd::string::group_string_axioms;

// ---------------------------------------------------------------------------
// Present files
// ---------------------------------------------------------------------------

/// `a` comes before `b` or equals it, character by character (the order of
/// `String`, whose bytes order the characters by their code points).
pub open spec fn lex_le(a: Seq<char>, b: Seq<char>) -> bool
    decreases a.len(),
{
    if a.len() == 0 {
        true
    } else if b.len() == 0 {
        false
    } else if a[0] != b[0] {
        a[0] < b[0]
    } else {
        lex_le(a.drop_first(), b.drop_first())
    }
}

/// `v` is in ascending order.
pub open spec fn sorted_names(v: Seq<Seq<char>>) -> bool {
    forall|i: int, j: int| 0 <= i <= j < v.len() ==> lex_le(#[trigger] v[i], #[trigger] v[j])
}

/// Two sequences that each come before the other are equal.
pub proof fn lemma_lex_antisymmetric(a: Seq<char>, b: Seq<char>)
    requires
        lex_le(a, b),
        lex_le(b, a),
    ensures
        a == b,
    decreases a.len(),
{
    if a.len() > 0 && b.len() > 0 {
        lemma_lex_antisymmetric(a.drop_first(), b.drop_first());
        assert(a =~= seq![a[0]] + a.drop_first());
        assert(b =~= seq![b[0]] + b.drop_first());
    } else {
        assert(a =~= b);
    }
}

/// Any two sequences are ordered one way or the other.
pub proof fn lemma_lex_total(a: Seq<char>, b: Seq<char>)
    ensures
        lex_le(a, b) || lex_le(b, a),
    decreases a.len(),
{
    if a.len() > 0 && b.len() > 0 && a[0] == b[0] {
        lemma_lex_total(a.drop_first(), b.drop_first());
    }
}

/// `std`'s sort of a vector of strings: the same strings, in ascending
/// order (`str` orders by bytes, which orders by code points).
#[verifier::external_body]
fn sort_strings(v: &mut Vec<String>)
    ensures
        final(v)@.to_multiset() == old(v)@.to_multiset(),
        sorted_names(strings_view(final(v)@)),
{
    v.sort()
}

/// The names of the files present in the output directory, sorted so that
/// they can be searched.
pub fn present_titles(stems: Vec<String>) -> (r: Vec<String>)
    ensures
        r@.to_multiset() == stems@.to_multiset(),
        sorted_names(strings_view(r@)),
{
    let mut v = stems;
    sort_strings(&mut v);
    v
}

/// Whether `a` comes before `b` or equals it.
fn lex_le_exec(a: &[char], b: &[char]) -> (r: bool)
    ensures
        r == lex_le(a@, b@),
{
    let mut i: usize = 0;
    assert(a@.skip(0) =~= a@);
    assert(b@.skip(0) =~= b@);
    while i < a.len() && i < b.len() && a[i] == b[i]
        invariant
            i <= a@.len(),
            i <= b@.len(),
            lex_le(a@, b@) == lex_le(a@.skip(i as int), b@.skip(i as int)),
        decreases a@.len() - i,
    {
        assert(a@.skip(i as int).drop_first() =~= a@.skip(i + 1));
        assert(b@.skip(i as int).drop_first() =~= b@.skip(i + 1));
        i = i + 1;
    }
    if i == a.len() {
        true
    } else if i == b.len() {
        false
    } else {
        a[i] < b[i]
    }
}

/// Whether a song called `title` is already in the output directory, whose
/// sorted file names are `files`: a binary search.
pub fn is_done(title: &String, files: &Vec<String>) -> (r: bool)
    requires
        sorted_names(strings_view(files@)),
    ensures
        r == strings_view(files@).contains(title@),
{
    let ghost fv = strings_view(files@);
    let t = chars_of(title.as_str());
    let mut lo: usize = 0;
    let mut hi: usize = files.len();
    while lo < hi
        invariant
            lo <= hi <= files@.len(),
            fv == strings_view(files@),
            sorted_names(fv),
            t@ == title@,
            forall|i: int| 0 <= i < lo ==> fv[i] != t@,
            forall|i: int| hi <= i < fv.len() ==> fv[i] != t@,
        decreases hi - lo,
    {
        let mid = lo + (hi - lo) / 2;
        let m = chars_of(files[mid].as_str());
        assert(m@ == fv[mid as int]);
        if chars_equal(&m, &t) {
            return true;
        }
        if lex_le_exec(&m, &t) {
            proof {
                assert forall|i: int| 0 <= i <= mid implies fv[i] != t@ by {
                    if fv[i] == t@ {
                        assert(lex_le(fv[i], fv[mid as int]));
                        lemma_lex_antisymmetric(m@, t@);
                    }
                }
            }
            lo = mid + 1;
        } else {
            proof {
                lemma_lex_total(m@, t@);
                assert forall|i: int| mid <= i < fv.len() implies fv[i] != t@ by {
                    assert(lex_le(fv[mid as int], fv[i]));
                }
            }
            hi = mid;
        }
    }
    proof {
        if fv.contains(title@) {
            let k = choose|k: int| 0 <= k < fv.len() && fv[k] == title@;
            assert(fv[k] != t@);
        }
    }
    false
}

/// Searching the sorted names of `stems` finds exactly the names of
/// `stems`: whether a song is taken as present depends only on the files.
pub proof fn lemma_present_titles_search(stems: Seq<String>, sorted: Seq<String>, title: Seq<char>)
    requires
        sorted.to_multiset() == stems.to_multiset(),
    ensures
        strings_view(sorted).contains(title) == strings_view(stems).contains(title),
{
    broadcast use vstd::seq_lib::group_to_multiset_ensures;

    if strings_view(stems).contains(title) {
        let k = choose|k: int| 0 <= k < strings_view(stems).len() && strings_view(stems)[k] == title;
        assert(stems.contains(stems[k]));
        assert(stems.to_multiset().count(stems[k]) > 0);
        assert(sorted.to_multiset().count(stems[k]) > 0);
        assert(sorted.contains(stems[k]));
        let j = choose|j: int| 0 <= j < sorted.len() && sorted[j] == stems[k];
        assert(strings_view(sorted)[j] == title);
    }
    if strings_view(sorted).contains(title) {
        let k = choose|k: int| 0 <= k < strings_view(sorted).len() && strings_view(sorted)[k] == title;
        assert(sorted.contains(sorted[k]));
        assert(sorted.to_multiset().count(sorted[k]) > 0);
        assert(stems.to_multiset().count(sorted[k]) > 0);
        assert(stems.contains(sorted[k]));
        let j = choose|j: int| 0 <= j < stems.len() && stems[j] == sorted[k];
        assert(strings_view(stems)[j] == title);
    }
}

// ---------------------------------------------------------------------------
// Temporary names
// ---------------------------------------------------------------------------

/// The characters that temporary names are made of.
pub open spec fn name_chars() -> Seq<char> {
    "qwertyuiopasdfghjklzxcvbnmQWERTYUIOPASDFGHJKLZXCVBNM1234567890-_"@
}

/// A name of `/tmp/`: 100 characters of `name_chars`, then `fex`.
pub open spec fn is_temp_name(name: Seq<char>, fex: Seq<char>) -> bool {
    exists|middle: Seq<char>|
        {
            &&& middle.len() == 100
            &&& forall|i: int| 0 <= i < 100 ==> name_chars().contains(#[trigger] middle[i])
            &&& name == "/tmp/"@ + middle + fex
        }
}

/// `rand::rngs::ThreadRng`, the thread's random number generator, carried
/// through as an opaque value.
#[verifier::external_type_specification]
#[verifier::external_body]
pub struct ExThreadRng(rand::rngs::ThreadRng);

/// `rand::thread_rng`: the thread's random number generator.
#[verifier::external_body]
fn thread_rng() -> rand::rngs::ThreadRng {
    rand::thread_rng()
}

/// `IteratorRandom::choose` on the characters of `chars`: one of them,
/// picked at random; none if and only if there are none.
#[verifier::external_body]
fn choose_char(chars: &str, rng: &mut rand::rngs::ThreadRng) -> (c: Option<char>)
    ensures
        c is Some <==> chars@.len() > 0,
        c matches Some(x) ==> chars@.contains(x),
{
    chars.chars().choose(rng)
}

/// A random name for a temporary file: `/tmp/`, 100 random letters, digits,
/// `-` or `_`, then `fex`.
pub fn gen_filename(fex: &str) -> (r: String)
    ensures
        is_temp_name(r@, fex@),
{
    let allowed = "qwertyuiopasdfghjklzxcvbnmQWERTYUIOPASDFGHJKLZXCVBNM1234567890-_";
    proof {
        reveal_strlit("qwertyuiopasdfghjklzxcvbnmQWERTYUIOPASDFGHJKLZXCVBNM1234567890-_");
    }
    assert(allowed@ == name_chars());
    assert(allowed@.len() > 0);
    let mut rng = thread_rng();
    let mut middle: Vec<char> = Vec::new();
    let mut k: usize = 0;
    while k < 100
        invariant
            k <= 100,
            middle@.len() == k,
            allowed@ == name_chars(),
            allowed@.len() > 0,
            forall|i: int| 0 <= i < k ==> name_chars().contains(#[trigger] middle@[i]),
        decreases 100 - k,
    {
        let c = choose_char(allowed, &mut rng);
        match c {
            Some(ch) => {
                middle.push(ch);
            },
            None => {
                assert(false);
            },
        }
        k = k + 1;
    }
    let mut name = chars_of("/tmp/");
    push_chars(&mut name, &middle);
    let ext = chars_of(fex);
    push_chars(&mut name, &ext);
    let r = string_from_chars(&name);
    assert(r@ == "/tmp/"@ + middle@ + fex@);
    r
}

// ---------------------------------------------------------------------------
// Conversion
// ---------------------------------------------------------------------------

/// The path of the converted file of the song `name`.
pub open spec fn output_path_spec(output_dir: Seq<char>, name: Seq<char>, ext: Seq<char>) -> Seq<
    char,
> {
    slash_terminated(output_dir) + name + ext
}

/// The path that the song `name` is converted to: in the output directory,
/// named after the song, with the format's extension.
pub fn output_path(conf: &Options, name: &String) -> (r: String)
    requires
        conf.output_dir@.len() > 0,
    ensures
        r@ == output_path_spec(conf.output_dir@, name@, extension_of(conf.format)),
{
    let dir = with_trailing_slash(&conf.output_dir);
    let mut path = chars_of(dir.as_str());
    let name_chars = chars_of(name.as_str());
    push_chars(&mut path, &name_chars);
    let ext = chars_of(conf.file_extension());
    push_chars(&mut path, &ext);
    string_from_chars(&path)
}

/// The arguments handed to ffmpeg to convert `infile` (with the cover
/// `cover`, if any, attached as a picture) to `outputfile`.
pub open spec fn ffmpeg_args_spec(
    cover: Option<Seq<char>>,
    outputfile: Seq<char>,
    infile: Seq<char>,
    codec: Seq<char>,
    bitrate: Seq<char>,
    artist: Seq<char>,
) -> Seq<Seq<char>> {
    seq!["-i"@, trim(infile)] + match cover {
        Some(c) => seq![
            "-i"@,
            trim(c),
            "-map"@,
            "0:a"@,
            "-map"@,
            "1:v"@,
            "-disposition:1"@,
            "attached_pic"@,
        ],
        None => Seq::empty(),
    } + seq!["-c:a"@, codec, "-b:a"@, bitrate, "-loglevel"@, "error"@] + if artist.len() != 0 {
        seq!["-metadata"@, "artist="@ + artist]
    } else {
        Seq::empty()
    } + seq![outputfile]
}

/// The shape of the ffmpeg arguments: the input first; whenever a cover is
/// given, right after it the cover as a second input mapped as the attached
/// picture (whatever the artist); then the codec, the bitrate and the log
/// level; the artist tag only for a non-empty artist; the output file last.
pub proof fn lemma_ffmpeg_args_layout(
    cover: Option<Seq<char>>,
    outputfile: Seq<char>,
    infile: Seq<char>,
    codec: Seq<char>,
    bitrate: Seq<char>,
    artist: Seq<char>,
)
    ensures
        ({
            let r = ffmpeg_args_spec(cover, outputfile, infile, codec, bitrate, artist);
            let k: int = if cover is Some {
                10
            } else {
                2
            };
            &&& r.len() == k + 6 + (if artist.len() != 0 {
                2int
            } else {
                0int
            }) + 1
            &&& r[0] == "-i"@ && r[1] == trim(infile)
            &&& cover matches Some(c) ==> r.subrange(2, 10) == seq![
                "-i"@,
                trim(c),
                "-map"@,
                "0:a"@,
                "-map"@,
                "1:v"@,
                "-disposition:1"@,
                "attached_pic"@,
            ]
            &&& r.subrange(k, k + 6) == seq!["-c:a"@, codec, "-b:a"@, bitrate, "-loglevel"@, "error"@]
            &&& artist.len() != 0 ==> r[k + 6] == "-metadata"@ && r[k + 7] == "artist="@ + artist
            &&& r.last() == outputfile
        }),
{
    let r = ffmpeg_args_spec(cover, outputfile, infile, codec, bitrate, artist);
    let head = seq!["-i"@, trim(infile)];
    let pic: Seq<Seq<char>> = match cover {
        Some(c) => seq![
            "-i"@,
            trim(c),
            "-map"@,
            "0:a"@,
            "-map"@,
            "1:v"@,
            "-disposition:1"@,
            "attached_pic"@,
        ],
        None => Seq::empty(),
    };
    let mid = seq!["-c:a"@, codec, "-b:a"@, bitrate, "-loglevel"@, "error"@];
    let tag: Seq<Seq<char>> = if artist.len() != 0 {
        seq!["-metadata"@, "artist="@ + artist]
    } else {
        Seq::empty()
    };
    let k: int = if cover is Some {
        10
    } else {
        2
    };
    assert(r == head + pic + mid + tag + seq![outputfile]);
    assert((head + pic).len() == k);
    assert(r.subrange(k, k + 6) =~= mid);
    if cover is Some {
        assert(r.subrange(2, 10) =~= pic);
    }
    if artist.len() != 0 {
        assert(r[k + 6] == tag[0]);
        assert(r[k + 7] == tag[1]);
    }
}

/// Appends the literal `lit` as one argument.
fn push_lit(args: &mut Vec<String>, lit: &str)
    ensures
        strings_view(final(args)@) == strings_view(old(args)@).push(lit@),
{
    let c = chars_of(lit);
    let ghost before = strings_view(args@);
    args.push(string_from_chars(&c));
    assert(strings_view(args@) =~= before.push(lit@));
}

/// Appends the trimmed text of `s` as one argument.
fn push_trimmed(args: &mut Vec<String>, s: &String)
    ensures
        strings_view(final(args)@) == strings_view(old(args)@).push(trim(s@)),
{
    let c = chars_of(s.as_str());
    let t = trim_chars(&c);
    let ghost before = strings_view(args@);
    args.push(string_from_chars(&t));
    assert(strings_view(args@) =~= before.push(trim(s@)));
}

/// Appends a copy of `s` as one argument.
fn push_copy(args: &mut Vec<String>, s: &str)
    ensures
        strings_view(final(args)@) == strings_view(old(args)@).push(s@),
{
    let c = chars_of(s);
    let ghost before = strings_view(args@);
    args.push(string_from_chars(&c));
    assert(strings_view(args@) =~= before.push(s@));
}

/// The arguments of the ffmpeg call that converts `infile` to `outputfile`
/// in the format of `conf`, attaching `cover` and writing `artist` into the
/// file's artist tag.
pub fn ffmpeg_args(
    cover: &Option<String>,
    outputfile: &String,
    infile: &String,
    conf: &Options,
    artist: &String,
) -> (r: Vec<String>)
    ensures
        strings_view(r@) == ffmpeg_args_spec(
            opt_view(*cover),
            outputfile@,
            infile@,
            codec_of(conf.format),
            bitrate_of(conf.bitrate, conf.format),
            artist@,
        ),
{
    let mut args: Vec<String> = Vec::new();
    push_lit(&mut args, "-i");
    push_trimmed(&mut args, infile);
    match cover {
        Some(c) => {
            push_lit(&mut args, "-i");
            push_trimmed(&mut args, c);
            push_lit(&mut args, "-map");
            push_lit(&mut args, "0:a");
            push_lit(&mut args, "-map");
            push_lit(&mut args, "1:v");
            push_lit(&mut args, "-disposition:1");
            push_lit(&mut args, "attached_pic");
        },
        None => {},
    }
    push_lit(&mut args, "-c:a");
    push_copy(&mut args, conf.codec());
    push_lit(&mut args, "-b:a");
    push_copy(&mut args, conf.bitrate());
    push_lit(&mut args, "-loglevel");
    push_lit(&mut args, "error");
    if !artist.as_str().is_empty() {
        push_lit(&mut args, "-metadata");
        let mut tag = chars_of("artist=");
        let a = chars_of(artist.as_str());
        push_chars(&mut tag, &a);
        let ghost before = strings_view(args@);
        args.push(string_from_chars(&tag));
        assert(strings_view(args@) =~= before.push("artist="@ + artist@));
    }
    push_copy(&mut args, outputfile.as_str());
    proof {
        assert(strings_view(args@) =~= ffmpeg_args_spec(
            opt_view(*cover),
            outputfile@,
            infile@,
            codec_of(conf.format),
            bitrate_of(conf.bitrate, conf.format),
            artist@,
        ));
    }
    args
}

/// The line that lists a song that could not be downloaded.
pub fn failure_line(name: &String) -> (r: String)
    ensures
        r@ == "\n\t* \""@ + name@ + "\""@,
{
    let mut line = chars_of("\n\t* \"");
    let n = chars_of(name.as_str());
    push_chars(&mut line, &n);
    let q = chars_of("\"");
    push_chars(&mut line, &q);
    string_from_chars(&line)
}

/// The temporary files removed once a song has been converted: the
/// downloaded audio, for a song from a URL, and the cover, for a cover
/// from a URL.
pub open spec fn temporary_files_spec(song: crate::parser::SongSpec, infile: Seq<char>) -> Seq<
    Seq<char>,
> {
    (if song.is_file_url {
        seq![infile]
    } else {
        Seq::empty()
    }) + match song.cover {
        Some(c) => if song.is_cover_url {
            seq![c]
        } else {
            Seq::empty()
        },
        None => Seq::empty(),
    }
}

/// What is removed after a conversion is the downloaded audio (exactly when
/// the song comes from a URL) and the cover (exactly when it was marked as a
/// URL); a cover path that the user gave is never removed, whatever the
/// song's source.
pub proof fn lemma_temporary_files(song: crate::parser::SongSpec, infile: Seq<char>)
    ensures
        ({
            let r = temporary_files_spec(song, infile);
            &&& forall|k: int|
                0 <= k < r.len() ==> (song.is_file_url && #[trigger] r[k] == infile) || (
                song.is_cover_url && song.cover == Some(r[k]))
            &&& song.is_file_url ==> r.len() > 0 && r[0] == infile
            &&& song.is_cover_url && song.cover is Some ==> r.len() > 0 && r.last() == song.cover->0
            &&& !song.is_cover_url ==> r.len() == if song.is_file_url {
                1int
            } else {
                0int
            }
            &&& r.len() <= 2
        }),
{
    let r = temporary_files_spec(song, infile);
    let a: Seq<Seq<char>> = if song.is_file_url {
        seq![infile]
    } else {
        Seq::empty()
    };
    let b: Seq<Seq<char>> = match song.cover {
        Some(c) => if song.is_cover_url {
            seq![c]
        } else {
            Seq::empty()
        },
        None => Seq::empty(),
    };
    assert(r == a + b);
    assert forall|k: int|
        0 <= k < r.len() implies (song.is_file_url && #[trigger] r[k] == infile) || (
        song.is_cover_url && song.cover == Some(r[k])) by {
        if k < a.len() {
            assert(r[k] == a[k]);
        } else {
            assert(r[k] == b[k - a.len()]);
        }
    }
}

/// The temporary files to remove once `song` has been converted from
/// `infile`.
pub fn temporary_files(song: &SongDesc, infile: &String) -> (r: Vec<String>)
    ensures
        strings_view(r@) == temporary_files_spec(song@, infile@),
{
    let mut out: Vec<String> = Vec::new();
    if song.is_file_url {
        push_copy(&mut out, infile.as_str());
    }
    if song.is_cover_url {
        match &song.cover {
            Some(c) => {
                push_copy(&mut out, c.as_str());
            },
            None => {},
        }
    }
    proof {
        assert(strings_view(out@) =~= temporary_files_spec(song@, infile@));
    }
    out
}

} // verus!

verus! {

// ---------------------------------------------------------------------------
// Tally
// ---------------------------------------------------------------------------

/// How the handling of one song ended.
#[derive(Debug, Clone, Copy, PartialEq, Eq, Structural)]
pub enum SongOutcome {
    /// Its file was already in the output directory.
    AlreadyPresent,
    /// Downloading its audio failed.
    DownloadFailed,
    /// Converting it failed.
    ConversionFailed,
    /// It was converted.
    Converted,
}

/// The counts reported at the end of a run.
pub struct DownloadTally {
    /// Songs handled.
    pub listed: u64,
    /// Songs already present.
    pub present: u64,
    /// Songs whose download failed.
    pub failed: u64,
    /// One line per failed download, as `failure_line` gives it.
    pub failures: String,
}

impl DownloadTally {
    /// Nothing counted yet.
    pub fn new() -> (r: DownloadTally)
        ensures
            r.listed == 0,
            r.present == 0,
            r.failed == 0,
            r.failures@ == Seq::<char>::empty(),
    {
        DownloadTally {
            listed: 0,
            present: 0,
            failed: 0,
            failures: string_from_chars(&Vec::new()),
        }
    }

    /// Counts the song `name`, whose handling ended with `outcome`: every
    /// song is listed; a present one is counted as present; a failed
    /// download is counted and its line added to the failures.
    pub fn record(&mut self, name: &String, outcome: SongOutcome)
        requires
            old(self).listed < u64::MAX,
            old(self).present <= old(self).listed,
            old(self).failed <= old(self).listed,
        ensures
            final(self).listed == old(self).listed + 1,
            final(self).present == old(self).present + if outcome == SongOutcome::AlreadyPresent {
                1int
            } else {
                0int
            },
            final(self).failed == old(self).failed + if outcome == SongOutcome::DownloadFailed {
                1int
            } else {
                0int
            },
            final(self).failures@ == old(self).failures@ + if outcome
                == SongOutcome::DownloadFailed {
                "\n\t* \""@ + name@ + "\""@
            } else {
                Seq::<char>::empty()
            },
            final(self).present <= final(self).listed,
            final(self).failed <= final(self).listed,
    {
        self.listed = self.listed + 1;
        match outcome {
            SongOutcome::AlreadyPresent => {
                self.present = self.present + 1;
            },
            SongOutcome::DownloadFailed => {
                self.failed = self.failed + 1;
                let mut all = chars_of(self.failures.as_str());
                let line = failure_line(name);
                let l = chars_of(line.as_str());
                push_chars(&mut all, &l);
                self.failures = string_from_chars(&all);
            },
            _ => {
                assert(self.failures@ =~= old(self).failures@ + Seq::<char>::empty());
            },
        }
    }
}

} // verus!

verus! {

// ---------------------------------------------------------------------------
// Downloads and messages
// ---------------------------------------------------------------------------

/// The arguments of the yt-dlp call that downloads the audio of `url` to
/// `fname` as FLAC.
pub open spec fn ytdlp_args_spec(url: Seq<char>, fname: Seq<char>) -> Seq<Seq<char>> {
    seq![url, "-x"@, "--audio-format"@, "flac"@, "-q"@, "--progress"@, "-o"@, fname]
}

/// The arguments of the yt-dlp call that downloads the audio of `url` to
/// the file `fname`, as FLAC, quietly but with a progress bar.
pub fn ytdlp_args(url: &String, fname: &String) -> (r: Vec<String>)
    ensures
        strings_view(r@) == ytdlp_args_spec(url@, fname@),
{
    let mut args: Vec<String> = Vec::new();
    push_copy(&mut args, url.as_str());
    push_lit(&mut args, "-x");
    push_lit(&mut args, "--audio-format");
    push_lit(&mut args, "flac");
    push_lit(&mut args, "-q");
    push_lit(&mut args, "--progress");
    push_lit(&mut args, "-o");
    push_copy(&mut args, fname.as_str());
    proof {
        assert(strings_view(args@) =~= ytdlp_args_spec(url@, fname@));
    }
    args
}

/// The kinds of messages a run prints.
#[derive(Debug, Clone, Copy, PartialEq, Eq, Structural)]
pub enum MessageKind {
    Error,
    Warning,
    Info,
}

/// Whether a message of kind `kind` is shown at `verbosity`: errors always;
/// warnings unless silent (0); everything else only when verbose (2 or
/// more).
pub open spec fn is_shown_spec(kind: MessageKind, verbosity: u8) -> bool {
    match kind {
        MessageKind::Error => true,
        MessageKind::Warning => verbosity >= 1,
        MessageKind::Info => verbosity >= 2,
    }
}

/// Whether a message of kind `kind` is shown at `verbosity`.
pub fn is_shown(kind: MessageKind, verbosity: u8) -> (b: bool)
    ensures
        b == is_shown_spec(kind, verbosity),
{
    match kind {
        MessageKind::Error => true,
        MessageKind::Warning => verbosity >= 1,
        MessageKind::Info => verbosity >= 2,
    }
}

} // verus!

verus! {

// ---------------------------------------------------------------------------
// The handling of one song
// ---------------------------------------------------------------------------

/// Where the handling of one song stands.
#[derive(Debug)]
pub enum SongStage {
    /// Nothing done yet.
    Start,
    /// Waiting for the cover to be fetched.
    AwaitCover,
    /// Waiting for the audio to be downloaded; `cover` is the settled cover.
    AwaitAudio { cover: Option<String> },
    /// Waiting for ffmpeg to convert `infile`, with the settled `cover`.
    AwaitConversion { cover: Option<String>, infile: String },
    /// The song is finished with.
    Done,
}

/// The abstract value of a `SongStage`.
pub enum SongStageSpec {
    Start,
    AwaitCover,
    AwaitAudio { cover: Option<Seq<char>> },
    AwaitConversion { cover: Option<Seq<char>>, infile: Seq<char> },
    Done,
}

impl View for SongStage {
    type V = SongStageSpec;

    open spec fn view(&self) -> SongStageSpec {
        match self {
            SongStage::Start => SongStageSpec::Start,
            SongStage::AwaitCover => SongStageSpec::AwaitCover,
            SongStage::AwaitAudio { cover } => SongStageSpec::AwaitAudio { cover: opt_view(*cover) },
            SongStage::AwaitConversion { cover, infile } => SongStageSpec::AwaitConversion {
                cover: opt_view(*cover),
                infile: infile@,
            },
            SongStage::Done => SongStageSpec::Done,
        }
    }
}

/// What happened since the last step.
#[derive(Debug)]
pub enum SongEvent {
    /// The handling of the song begins.
    Begin,
    /// The cover was fetched to this file, or could not be.
    Cover(Option<String>),
    /// The audio was downloaded to this file, or the download failed.
    Audio(Option<String>),
    /// Whether ffmpeg converted the song.
    Converted(bool),
}

/// The abstract value of a `SongEvent`.
pub enum SongEventSpec {
    Begin,
    Cover(Option<Seq<char>>),
    Audio(Option<Seq<char>>),
    Converted(bool),
}

impl View for SongEvent {
    type V = SongEventSpec;

    open spec fn view(&self) -> SongEventSpec {
        match self {
            SongEvent::Begin => SongEventSpec::Begin,
            SongEvent::Cover(c) => SongEventSpec::Cover(opt_view(*c)),
            SongEvent::Audio(a) => SongEventSpec::Audio(opt_view(*a)),
            SongEvent::Converted(b) => SongEventSpec::Converted(*b),
        }
    }
}

/// What to do next for a song.
#[derive(Debug)]
pub enum SongAction {
    /// Stop: the song ended this way.
    Finish(SongOutcome),
    /// Download the cover at this URL to a temporary file.
    FetchCover(String),
    /// Look for a cover at the song's own source.
    CoverFromSource,
    /// Run yt-dlp with these arguments; the last one is the file it writes.
    Download(Vec<String>),
    /// Run ffmpeg with these arguments.
    Convert(Vec<String>),
    /// Remove these files, then stop: the song ended this way.
    RemoveThen(Vec<String>, SongOutcome),
}

/// The abstract value of a `SongAction`.
pub enum SongActionSpec {
    Finish(SongOutcome),
    FetchCover(Seq<char>),
    CoverFromSource,
    Download(Seq<Seq<char>>),
    Convert(Seq<Seq<char>>),
    RemoveThen(Seq<Seq<char>>, SongOutcome),
}

impl View for SongAction {
    type V = SongActionSpec;

    open spec fn view(&self) -> SongActionSpec {
        match self {
            SongAction::Finish(o) => SongActionSpec::Finish(*o),
            SongAction::FetchCover(u) => SongActionSpec::FetchCover(u@),
            SongAction::CoverFromSource => SongActionSpec::CoverFromSource,
            SongAction::Download(a) => SongActionSpec::Download(strings_view(a@)),
            SongAction::Convert(a) => SongActionSpec::Convert(strings_view(a@)),
            SongAction::RemoveThen(f, o) => SongActionSpec::RemoveThen(strings_view(f@), *o),
        }
    }
}

/// The events that each stage waits for; a finished song waits for none.
pub open spec fn event_fits(stage: SongStageSpec, event: SongEventSpec) -> bool {
    match stage {
        SongStageSpec::Start => event is Begin,
        SongStageSpec::AwaitCover => event is Cover,
        SongStageSpec::AwaitAudio { .. } => event is Audio,
        SongStageSpec::AwaitConversion { .. } => event is Converted,
        SongStageSpec::Done => false,
    }
}

/// `song` with its cover replaced by `cover`.
pub open spec fn with_cover(song: SongSpec, cover: Option<Seq<char>>) -> SongSpec {
    SongSpec {
        artist: song.artist,
        name: song.name,
        infile: song.infile,
        is_file_url: song.is_file_url,
        cover: cover,
        is_cover_url: song.is_cover_url,
    }
}

/// The ffmpeg arguments that convert `infile`, the audio of `song`, with
/// `cover`, to its file in the output directory of `conf`.
pub open spec fn conversion_args(
    song: SongSpec,
    conf: Options,
    cover: Option<Seq<char>>,
    infile: Seq<char>,
) -> Seq<Seq<char>> {
    ffmpeg_args_spec(
        cover,
        output_path_spec(conf.output_dir@, song.name, extension_of(conf.format)),
        infile,
        codec_of(conf.format),
        bitrate_of(conf.bitrate, conf.format),
        song.artist,
    )
}

/// Once the cover is settled: a song from a URL is downloaded to the
/// temporary file `tmp`; any other song is converted from its path.
pub open spec fn after_cover(
    song: SongSpec,
    conf: Options,
    cover: Option<Seq<char>>,
    tmp: Seq<char>,
) -> (SongStageSpec, SongActionSpec) {
    if song.is_file_url {
        (SongStageSpec::AwaitAudio { cover }, SongActionSpec::Download(ytdlp_args_spec(song.infile, tmp)))
    } else {
        (
            SongStageSpec::AwaitConversion { cover, infile: song.infile },
            SongActionSpec::Convert(conversion_args(song, conf, cover, song.infile)),
        )
    }
}

/// One step of the handling of `song` (`present`: its file is already in
/// the output directory; `tmp`: the temporary file a download would write):
/// a present song is finished at once; otherwise the cover is settled
/// first, then the audio is downloaded (for a song from a URL), then it is
/// converted; a failed download or conversion ends the song, and after a
/// conversion the temporary files are removed. An event that does not fit
/// the stage is never handed over (`download_step` requires a fitting
/// one); the last arm gives such a pair a value only so that the function
/// is total.
pub open spec fn song_step(
    song: SongSpec,
    present: bool,
    conf: Options,
    stage: SongStageSpec,
    event: SongEventSpec,
    tmp: Seq<char>,
) -> (SongStageSpec, SongActionSpec) {
    match (stage, event) {
        (SongStageSpec::Start, SongEventSpec::Begin) => if present {
            (SongStageSpec::Done, SongActionSpec::Finish(SongOutcome::AlreadyPresent))
        } else {
            match cover_plan(song.cover, song.is_cover_url, song.is_file_url) {
                CoverPlanSpec::Download(u) => (SongStageSpec::AwaitCover, SongActionSpec::FetchCover(u)),
                CoverPlanSpec::FromSource => (SongStageSpec::AwaitCover, SongActionSpec::CoverFromSource),
                CoverPlanSpec::Keep(c) => after_cover(song, conf, c, tmp),
            }
        },
        (SongStageSpec::AwaitCover, SongEventSpec::Cover(c)) => after_cover(song, conf, c, tmp),
        (SongStageSpec::AwaitAudio { cover }, SongEventSpec::Audio(a)) => match a {
            None => (SongStageSpec::Done, SongActionSpec::Finish(SongOutcome::DownloadFailed)),
            Some(p) => (
                SongStageSpec::AwaitConversion { cover, infile: p },
                SongActionSpec::Convert(conversion_args(song, conf, cover, p)),
            ),
        },
        (SongStageSpec::AwaitConversion { cover, infile }, SongEventSpec::Converted(ok)) => if ok {
            (
                SongStageSpec::Done,
                SongActionSpec::RemoveThen(
                    temporary_files_spec(with_cover(song, cover), infile),
                    SongOutcome::Converted,
                ),
            )
        } else {
            (SongStageSpec::Done, SongActionSpec::Finish(SongOutcome::ConversionFailed))
        },
        (s, _) => (s, SongActionSpec::Finish(SongOutcome::ConversionFailed)),
    }
}

/// How far the handling of a song has gone.
pub open spec fn stage_rank(stage: SongStageSpec) -> int {
    match stage {
        SongStageSpec::Start => 0,
        SongStageSpec::AwaitCover => 1,
        SongStageSpec::AwaitAudio { .. } => 2,
        SongStageSpec::AwaitConversion { .. } => 3,
        SongStageSpec::Done => 4,
    }
}

/// A song already in the output directory is finished at its first step,
/// as already present, and nothing more happens to it: it is not
/// downloaded, converted or given a cover again.
pub proof fn lemma_present_song_untouched(song: SongSpec, conf: Options, tmp: Seq<char>)
    ensures
        song_step(song, true, conf, SongStageSpec::Start, SongEventSpec::Begin, tmp) == (
            SongStageSpec::Done,
            SongActionSpec::Finish(SongOutcome::AlreadyPresent),
        ),
        forall|e: SongEventSpec| !event_fits(SongStageSpec::Done, e),
{
}

/// Every step moves the handling of a song forward, so that a song is
/// finished within four steps; a step ends the song exactly when it says
/// how the song ended.
pub proof fn lemma_step_progresses(
    song: SongSpec,
    present: bool,
    conf: Options,
    stage: SongStageSpec,
    event: SongEventSpec,
    tmp: Seq<char>,
)
    requires
        event_fits(stage, event),
    ensures
        stage_rank(song_step(song, present, conf, stage, event, tmp).0) > stage_rank(stage),
        song_step(song, present, conf, stage, event, tmp).0 is Done <==> (song_step(
            song,
            present,
            conf,
            stage,
            event,
            tmp,
        ).1 is Finish || song_step(song, present, conf, stage, event, tmp).1 is RemoveThen),
{
}

/// The audio is downloaded or converted only once the cover is settled:
/// at the first step only when the song keeps its cover as it is, and
/// otherwise after the cover step.
pub proof fn lemma_cover_before_audio(
    song: SongSpec,
    present: bool,
    conf: Options,
    stage: SongStageSpec,
    event: SongEventSpec,
    tmp: Seq<char>,
)
    requires
        event_fits(stage, event),
    ensures
        ({
            let a = song_step(song, present, conf, stage, event, tmp).1;
            (a is Download || a is Convert) && stage is Start ==> !present && cover_plan(
                song.cover,
                song.is_cover_url,
                song.is_file_url,
            ) is Keep
        }),
        song_step(song, present, conf, stage, event, tmp).1 is FetchCover || song_step(
            song,
            present,
            conf,
            stage,
            event,
            tmp,
        ).1 is CoverFromSource ==> stage is Start,
{
}

/// Files are removed only after a successful conversion: a failed download
/// or conversion removes nothing.
pub proof fn lemma_removal_only_after_conversion(
    song: SongSpec,
    present: bool,
    conf: Options,
    stage: SongStageSpec,
    event: SongEventSpec,
    tmp: Seq<char>,
)
    requires
        event_fits(stage, event),
    ensures
        song_step(song, present, conf, stage, event, tmp).1 is RemoveThen ==> stage is AwaitConversion
            && event == SongEventSpec::Converted(true),
{
}

/// Whether `event` is one that `stage` waits for.
pub fn accepts(stage: &SongStage, event: &SongEvent) -> (r: bool)
    ensures
        r == event_fits(stage@, event@),
{
    match stage {
        SongStage::Start => matches!(event, SongEvent::Begin),
        SongStage::AwaitCover => matches!(event, SongEvent::Cover(_)),
        SongStage::AwaitAudio { .. } => matches!(event, SongEvent::Audio(_)),
        SongStage::AwaitConversion { .. } => matches!(event, SongEvent::Converted(_)),
        SongStage::Done => false,
    }
}

/// A copy of an optional string.
fn copy_opt(s: &Option<String>) -> (r: Option<String>)
    ensures
        opt_view(r) == opt_view(*s),
{
    match s {
        Some(v) => Some(v.clone()),
        None => None,
    }
}

/// The ffmpeg arguments that convert `infile`, the audio of `song`, with
/// `cover`.
fn conversion_args_exec(song: &SongDesc, conf: &Options, cover: &Option<String>, infile: &String) -> (r: Vec<String>)
    requires
        conf.output_dir@.len() > 0,
    ensures
        strings_view(r@) == conversion_args(song@, *conf, opt_view(*cover), infile@),
{
    let outfile = output_path(conf, &song.name);
    ffmpeg_args(cover, &outfile, infile, conf, &song.artist)
}

/// Some temporary name with the extension `fex` (a witness for the steps
/// that download nothing).
proof fn lemma_some_temp_name(fex: Seq<char>) -> (t: Seq<char>)
    ensures
        is_temp_name(t, fex),
{
    reveal_strlit("qwertyuiopasdfghjklzxcvbnmQWERTYUIOPASDFGHJKLZXCVBNM1234567890-_");
    let middle = Seq::new(100, |i: int| 'q');
    assert(name_chars()[0] == 'q');
    assert(forall|i: int| 0 <= i < 100 ==> name_chars().contains(#[trigger] middle[i]));
    "/tmp/"@ + middle + fex
}

/// The step once the cover of `song` is settled to `cover`.
fn after_cover_exec(song: &SongDesc, conf: &Options, cover: Option<String>) -> (r: (SongStage, SongAction))
    requires
        conf.output_dir@.len() > 0,
    ensures
        exists|t: Seq<char>|
            is_temp_name(t, ".flac"@) && #[trigger] after_cover(song@, *conf, opt_view(cover), t) == (r.0@, r.1@),
{
    let ghost c = opt_view(cover);
    if song.is_file_url {
        let tmp = gen_filename(".flac");
        let args = ytdlp_args(&song.infile, &tmp);
        let r = (SongStage::AwaitAudio { cover }, SongAction::Download(args));
        assert(is_temp_name(tmp@, ".flac"@) && after_cover(song@, *conf, c, tmp@) == (r.0@, r.1@));
        r
    } else {
        let args = conversion_args_exec(song, conf, &cover, &song.infile);
        let r = (SongStage::AwaitConversion { cover, infile: song.infile.clone() }, SongAction::Convert(args));
        proof {
            let t = lemma_some_temp_name(".flac"@);
            assert(is_temp_name(t, ".flac"@) && after_cover(song@, *conf, c, t) == (r.0@, r.1@));
        }
        r
    }
}

/// One step of the handling of `song`, whose stage is `stage`, on `event`:
/// the next stage and what to do. `files` are the sorted names of the files
/// in the output directory.
pub fn download_step(
    song: &SongDesc,
    files: &Vec<String>,
    conf: &Options,
    stage: SongStage,
    event: SongEvent,
) -> (r: (SongStage, SongAction))
    requires
        sorted_names(strings_view(files@)),
        conf.output_dir@.len() > 0,
        song.is_cover_url ==> song.cover is Some,
        event_fits(stage@, event@),
    ensures
        exists|t: Seq<char>|
            is_temp_name(t, ".flac"@) && #[trigger] song_step(
                song@,
                strings_view(files@).contains(song.name@),
                *conf,
                stage@,
                event@,
                t,
            ) == (r.0@, r.1@),
        event is Begin && strings_view(files@).contains(song.name@) ==> r.1@
            == SongActionSpec::Finish(SongOutcome::AlreadyPresent),
        event@ == SongEventSpec::Audio(None) ==> r.1@ == SongActionSpec::Finish(
            SongOutcome::DownloadFailed,
        ),
        event@ == SongEventSpec::Converted(false) ==> r.1@ == SongActionSpec::Finish(
            SongOutcome::ConversionFailed,
        ),
        event@ == SongEventSpec::Converted(true) ==> r.1@ == SongActionSpec::RemoveThen(
            temporary_files_spec(
                with_cover(song@, stage@->AwaitConversion_cover),
                stage@->AwaitConversion_infile,
            ),
            SongOutcome::Converted,
        ),
{
    let ghost present = strings_view(files@).contains(song.name@);
    let ghost sv = stage@;
    let ghost ev = event@;
    let ghost w = lemma_some_temp_name(".flac"@);
    match stage {
        SongStage::Start => {
            if is_done(&song.name, files) {
                let r = (SongStage::Done, SongAction::Finish(SongOutcome::AlreadyPresent));
                assert(is_temp_name(w, ".flac"@) && song_step(song@, present, *conf, sv, ev, w) == (r.0@, r.1@));
                return r;
            }
            let plan = process_cover(&song.cover, song.is_cover_url, song.is_file_url);
            match plan {
                CoverPlan::Download(u) => {
                    let r = (SongStage::AwaitCover, SongAction::FetchCover(u));
                    assert(is_temp_name(w, ".flac"@) && song_step(song@, present, *conf, sv, ev, w) == (r.0@, r.1@));
                    r
                },
                CoverPlan::FromSource => {
                    let r = (SongStage::AwaitCover, SongAction::CoverFromSource);
                    assert(is_temp_name(w, ".flac"@) && song_step(song@, present, *conf, sv, ev, w) == (r.0@, r.1@));
                    r
                },
                CoverPlan::Keep(c) => {
                    let r = after_cover_exec(song, conf, c);
                    proof {
                        let t = choose|t: Seq<char>| is_temp_name(t, ".flac"@) && #[trigger] after_cover(song@, *conf, opt_view(c), t) == (r.0@, r.1@);
                        assert(is_temp_name(t, ".flac"@) && song_step(song@, present, *conf, sv, ev, t) == (r.0@, r.1@));
                    }
                    r
                },
            }
        },
        SongStage::AwaitCover => {
            match event {
                SongEvent::Cover(c) => {
                    let r = after_cover_exec(song, conf, c);
                    proof {
                        let t = choose|t: Seq<char>| is_temp_name(t, ".flac"@) && #[trigger] after_cover(song@, *conf, opt_view(c), t) == (r.0@, r.1@);
                        assert(is_temp_name(t, ".flac"@) && song_step(song@, present, *conf, sv, ev, t) == (r.0@, r.1@));
                    }
                    r
                },
                _ => {
                    proof {
                        assert(false);
                    }
                    (SongStage::Done, SongAction::Finish(SongOutcome::ConversionFailed))
                },
            }
        },
        SongStage::AwaitAudio { cover } => {
            match event {
                SongEvent::Audio(Some(p)) => {
                    let args = conversion_args_exec(song, conf, &cover, &p);
                    let r = (SongStage::AwaitConversion { cover, infile: p }, SongAction::Convert(args));
                    assert(is_temp_name(w, ".flac"@) && song_step(song@, present, *conf, sv, ev, w) == (r.0@, r.1@));
                    r
                },
                SongEvent::Audio(None) => {
                    let r = (SongStage::Done, SongAction::Finish(SongOutcome::DownloadFailed));
                    assert(is_temp_name(w, ".flac"@) && song_step(song@, present, *conf, sv, ev, w) == (r.0@, r.1@));
                    r
                },
                _ => {
                    proof {
                        assert(false);
                    }
                    (SongStage::Done, SongAction::Finish(SongOutcome::ConversionFailed))
                },
            }
        },
        SongStage::AwaitConversion { cover, infile } => {
            match event {
                SongEvent::Converted(true) => {
                    let mut done = song.clone();
                    done.cover = cover;
                    assert(done@ == with_cover(song@, sv->AwaitConversion_cover));
                    let leftovers = temporary_files(&done, &infile);
                    let r = (SongStage::Done, SongAction::RemoveThen(leftovers, SongOutcome::Converted));
                    assert(is_temp_name(w, ".flac"@) && song_step(song@, present, *conf, sv, ev, w) == (r.0@, r.1@));
                    r
                },
                SongEvent::Converted(false) => {
                    let r = (SongStage::Done, SongAction::Finish(SongOutcome::ConversionFailed));
                    assert(is_temp_name(w, ".flac"@) && song_step(song@, present, *conf, sv, ev, w) == (r.0@, r.1@));
                    r
                },
                _ => {
                    proof {
                        assert(false);
                    }
                    (SongStage::Done, SongAction::Finish(SongOutcome::ConversionFailed))
                },
            }
        },
        SongStage::Done => {
            proof {
                assert(false);
            }
            (SongStage::Done, SongAction::Finish(SongOutcome::ConversionFailed))
        },
    }
}

} // verus!
