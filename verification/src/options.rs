//! Output formats and the run's options: what is handed to ffmpeg for each
//! format, and how a format is named on the command line.
use vstd::prelude::*;
use crate::parser::{opt_view, songs_view, SongDesc};
use crate::text::{chars_of, eq_lit, lowercase, spec_lowercase, string_from_chars, trim, trim_chars};

verus! {

broadcast use vstd::string::group_string_axioms;

/// The audio format of the output files.
#[derive(Clone, Copy, Debug, PartialEq, Eq, Structural)]
pub enum FileFormat {
    Flac,
    Opus,
    Mp3,
    Wav,
    Vorbis,
    Aac,
}

/// The format used when none is asked for.
pub const DEFAULT_FILE_FORMAT: FileFormat = FileFormat::Flac;

/// The options of a run.
pub struct Options {
    /// The bitrate handed to ffmpeg; the format's own when none.
    pub bitrate: Option<String>,
    pub format: FileFormat,
    pub input_file: String,
    /// The output directory, with a final `/` once it has been given.
    pub output_dir: String,
    pub songs: Vec<SongDesc>,
    /// Whether files of the output directory that no song names are removed.
    pub clean_dir: bool,
}

/// The bitrate of a format when none is given.
pub open spec fn default_bitrate(f: FileFormat) -> Seq<char> {
    match f {
        FileFormat::Flac => "0"@,
        FileFormat::Wav => "0"@,
        FileFormat::Mp3 => "320k"@,
        FileFormat::Aac => "256k"@,
        FileFormat::Vorbis => "224k"@,
        FileFormat::Opus => "192k"@,
    }
}

/// The ffmpeg codec of a format.
pub open spec fn codec_of(f: FileFormat) -> Seq<char> {
    match f {
        FileFormat::Flac => "flac"@,
        FileFormat::Wav => "wav"@,
        FileFormat::Mp3 => "mp3"@,
        FileFormat::Aac => "aac"@,
        FileFormat::Vorbis => "libvorbis"@,
        FileFormat::Opus => "libopus"@,
    }
}

/// The file extension of a format, with its dot.
pub open spec fn extension_of(f: FileFormat) -> Seq<char> {
    match f {
        FileFormat::Flac => ".flac"@,
        FileFormat::Wav => ".wav"@,
        FileFormat::Mp3 => ".mp3"@,
        FileFormat::Aac => ".aac"@,
        FileFormat::Vorbis => ".ogg"@,
        FileFormat::Opus => ".ogg"@,
    }
}

/// The bitrate that a set of options asks for.
pub open spec fn bitrate_of(bitrate: Option<String>, f: FileFormat) -> Seq<char> {
    match bitrate {
        Some(v) => v@,
        None => default_bitrate(f),
    }
}

impl Options {
    /// A copy of the options.
    pub fn clone(&self) -> (r: Options)
        ensures
            opt_view(r.bitrate) == opt_view(self.bitrate),
            r.format == self.format,
            r.input_file@ == self.input_file@,
            r.output_dir@ == self.output_dir@,
            songs_view(r.songs@) == songs_view(self.songs@),
            r.clean_dir == self.clean_dir,
    {
        let mut songs: Vec<SongDesc> = Vec::new();
        let mut i: usize = 0;
        while i < self.songs.len()
            invariant
                i <= self.songs@.len(),
                songs_view(songs@) == songs_view(self.songs@).take(i as int),
            decreases self.songs@.len() - i,
        {
            let ghost before = songs_view(songs@);
            songs.push(self.songs[i].clone());
            assert(songs_view(songs@) =~= before.push(self.songs@[i as int]@));
            assert(songs_view(self.songs@).take(i + 1) =~= songs_view(self.songs@).take(i as int).push(
                self.songs@[i as int]@,
            ));
            i = i + 1;
        }
        assert(songs_view(self.songs@).take(self.songs@.len() as int) =~= songs_view(self.songs@));
        let bitrate = match &self.bitrate {
            Some(b) => Some(b.clone()),
            None => None,
        };
        Options {
            bitrate,
            format: self.format,
            input_file: self.input_file.clone(),
            output_dir: self.output_dir.clone(),
            songs,
            clean_dir: self.clean_dir,
        }
    }

    /// The bitrate handed to ffmpeg: the one given, else the format's.
    pub fn bitrate(&self) -> (r: &str)
        ensures
            r@ == bitrate_of(self.bitrate, self.format),
    {
        match &self.bitrate {
            Some(value) => value.as_str(),
            None => match self.format {
                FileFormat::Flac => "0",
                FileFormat::Wav => "0",
                FileFormat::Mp3 => "320k",
                FileFormat::Aac => "256k",
                FileFormat::Vorbis => "224k",
                FileFormat::Opus => "192k",
            },
        }
    }

    /// The ffmpeg codec of the chosen format.
    pub fn codec(&self) -> (r: &str)
        ensures
            r@ == codec_of(self.format),
    {
        match self.format {
            FileFormat::Flac => "flac",
            FileFormat::Wav => "wav",
            FileFormat::Mp3 => "mp3",
            FileFormat::Aac => "aac",
            FileFormat::Vorbis => "libvorbis",
            FileFormat::Opus => "libopus",
        }
    }

    /// The extension of the output files, with its dot.
    pub fn file_extension(&self) -> (r: &str)
        ensures
            r@ == extension_of(self.format),
    {
        match self.format {
            FileFormat::Flac => ".flac",
            FileFormat::Wav => ".wav",
            FileFormat::Mp3 => ".mp3",
            FileFormat::Aac => ".aac",
            FileFormat::Vorbis => ".ogg",
            FileFormat::Opus => ".ogg",
        }
    }
}

/// The format that a (lower-cased, trimmed) name stands for: the full name
/// or its first letter.
pub open spec fn format_named(t: Seq<char>) -> Option<FileFormat> {
    if t == "f"@ || t == "flac"@ {
        Some(FileFormat::Flac)
    } else if t == "o"@ || t == "opus"@ {
        Some(FileFormat::Opus)
    } else if t == "m"@ || t == "mp3"@ {
        Some(FileFormat::Mp3)
    } else if t == "w"@ || t == "wav"@ {
        Some(FileFormat::Wav)
    } else if t == "v"@ || t == "vorbis"@ {
        Some(FileFormat::Vorbis)
    } else if t == "a"@ || t == "aac"@ {
        Some(FileFormat::Aac)
    } else {
        None
    }
}

/// The name of a format as its encoder knows it: the codec ffmpeg is given,
/// without the `lib` that some codec names start with.
pub open spec fn encoder_name(f: FileFormat) -> Seq<char> {
    let c = codec_of(f);
    if c.len() > 3 && c.subrange(0, 3) == "lib"@ {
        c.skip(3)
    } else {
        c
    }
}

/// Every format is chosen by its full name, the name of its encoder, and
/// by the first letter of that name; where the file extension carries the
/// name, it is the same name.
pub proof fn lemma_formats_by_name(f: FileFormat)
    ensures
        format_named(encoder_name(f)) == Some(f),
        format_named(seq![encoder_name(f)[0]]) == Some(f),
        extension_of(f) == "."@ + encoder_name(f) || extension_of(f) == ".ogg"@,
{
    reveal_strlit("lib");
    reveal_strlit(".");
    reveal_strlit(".ogg");
    reveal_strlit("f");
    reveal_strlit("flac");
    reveal_strlit(".flac");
    reveal_strlit("o");
    reveal_strlit("opus");
    reveal_strlit("libopus");
    reveal_strlit("m");
    reveal_strlit("mp3");
    reveal_strlit(".mp3");
    reveal_strlit("w");
    reveal_strlit("wav");
    reveal_strlit(".wav");
    reveal_strlit("v");
    reveal_strlit("vorbis");
    reveal_strlit("libvorbis");
    reveal_strlit("a");
    reveal_strlit("aac");
    reveal_strlit(".aac");
    match f {
        FileFormat::Flac => {
            assert(codec_of(f).subrange(0, 3)[0] != "lib"@[0]);
            assert(encoder_name(f) =~= "flac"@);
            assert(seq![encoder_name(f)[0]] =~= "f"@);
            assert(format_named("flac"@) == Some(FileFormat::Flac));
            assert(format_named("f"@) == Some(FileFormat::Flac));
            assert(extension_of(f) =~= "."@ + encoder_name(f));
        },
        FileFormat::Opus => {
            assert(codec_of(f).subrange(0, 3) =~= "lib"@);
            assert(encoder_name(f) =~= "opus"@);
            assert(seq![encoder_name(f)[0]] =~= "o"@);
            assert("o"@[0] != "f"@[0] && "o"@.len() != "flac"@.len());
            assert("opus"@[0] != "f"@[0]);
            assert("opus"@[0] != "flac"@[0]);
            assert(format_named("opus"@) == Some(FileFormat::Opus));
            assert(format_named("o"@) == Some(FileFormat::Opus));
        },
        FileFormat::Mp3 => {
            assert(encoder_name(f) =~= "mp3"@);
            assert(seq![encoder_name(f)[0]] =~= "m"@);
            assert("m"@[0] != "f"@[0] && "m"@.len() != "flac"@.len());
            assert("mp3"@[0] != "f"@[0]);
            assert("mp3"@.len() != "flac"@.len());
            assert("m"@[0] != "o"@[0] && "m"@.len() != "opus"@.len());
            assert("mp3"@[0] != "o"@[0]);
            assert("mp3"@.len() != "opus"@.len());
            assert(format_named("mp3"@) == Some(FileFormat::Mp3));
            assert(format_named("m"@) == Some(FileFormat::Mp3));
            assert(extension_of(f) =~= "."@ + encoder_name(f));
        },
        FileFormat::Wav => {
            assert(encoder_name(f) =~= "wav"@);
            assert(seq![encoder_name(f)[0]] =~= "w"@);
            assert("w"@[0] != "f"@[0] && "w"@.len() != "flac"@.len());
            assert("wav"@[0] != "f"@[0]);
            assert("wav"@.len() != "flac"@.len());
            assert("w"@[0] != "o"@[0] && "w"@.len() != "opus"@.len());
            assert("wav"@[0] != "o"@[0]);
            assert("wav"@.len() != "opus"@.len());
            assert("w"@[0] != "m"@[0] && "w"@.len() != "mp3"@.len());
            assert("wav"@[0] != "m"@[0]);
            assert("wav"@[0] != "mp3"@[0]);
            assert(format_named("wav"@) == Some(FileFormat::Wav));
            assert(format_named("w"@) == Some(FileFormat::Wav));
            assert(extension_of(f) =~= "."@ + encoder_name(f));
        },
        FileFormat::Vorbis => {
            assert(codec_of(f).subrange(0, 3) =~= "lib"@);
            assert(encoder_name(f) =~= "vorbis"@);
            assert(seq![encoder_name(f)[0]] =~= "v"@);
            assert("v"@[0] != "f"@[0] && "v"@.len() != "flac"@.len());
            assert("vorbis"@[0] != "f"@[0]);
            assert("vorbis"@.len() != "flac"@.len());
            assert("v"@[0] != "o"@[0] && "v"@.len() != "opus"@.len());
            assert("vorbis"@[0] != "o"@[0]);
            assert("vorbis"@.len() != "opus"@.len());
            assert("v"@[0] != "m"@[0] && "v"@.len() != "mp3"@.len());
            assert("vorbis"@[0] != "m"@[0]);
            assert("vorbis"@.len() != "mp3"@.len());
            assert("v"@[0] != "w"@[0] && "v"@.len() != "wav"@.len());
            assert("vorbis"@[0] != "w"@[0]);
            assert("vorbis"@.len() != "wav"@.len());
            assert(format_named("vorbis"@) == Some(FileFormat::Vorbis));
            assert(format_named("v"@) == Some(FileFormat::Vorbis));
        },
        FileFormat::Aac => {
            assert(encoder_name(f) =~= "aac"@);
            assert(seq![encoder_name(f)[0]] =~= "a"@);
            assert("a"@[0] != "f"@[0] && "a"@.len() != "flac"@.len());
            assert("aac"@[0] != "f"@[0]);
            assert("aac"@.len() != "flac"@.len());
            assert("a"@[0] != "o"@[0] && "a"@.len() != "opus"@.len());
            assert("aac"@[0] != "o"@[0]);
            assert("aac"@.len() != "opus"@.len());
            assert("a"@[0] != "m"@[0] && "a"@.len() != "mp3"@.len());
            assert("aac"@[0] != "m"@[0]);
            assert("aac"@[0] != "mp3"@[0]);
            assert("a"@[0] != "w"@[0] && "a"@.len() != "wav"@.len());
            assert("aac"@[0] != "w"@[0]);
            assert("aac"@[0] != "wav"@[0]);
            assert("a"@[0] != "v"@[0] && "a"@.len() != "vorbis"@.len());
            assert("aac"@[0] != "v"@[0]);
            assert("aac"@.len() != "vorbis"@.len());
            assert(format_named("aac"@) == Some(FileFormat::Aac));
            assert(format_named("a"@) == Some(FileFormat::Aac));
            assert(extension_of(f) =~= "."@ + encoder_name(f));
        },
    }
}

/// The format named by an argument that has already been lower-cased:
/// it is trimmed, then matched against the names.
pub fn format_from_lowercase(lowered: &str) -> (r: Option<FileFormat>)
    ensures
        r == format_named(trim(lowered@)),
{
    let raw = chars_of(lowered);
    let t = trim_chars(&raw);
    if eq_lit(&t, "f") || eq_lit(&t, "flac") {
        Some(FileFormat::Flac)
    } else if eq_lit(&t, "o") || eq_lit(&t, "opus") {
        Some(FileFormat::Opus)
    } else if eq_lit(&t, "m") || eq_lit(&t, "mp3") {
        Some(FileFormat::Mp3)
    } else if eq_lit(&t, "w") || eq_lit(&t, "wav") {
        Some(FileFormat::Wav)
    } else if eq_lit(&t, "v") || eq_lit(&t, "vorbis") {
        Some(FileFormat::Vorbis)
    } else if eq_lit(&t, "a") || eq_lit(&t, "aac") {
        Some(FileFormat::Aac)
    } else {
        None
    }
}

/// The format named by a `--format` argument, in any case and with blanks
/// around it.
pub fn parse_format(arg: &str) -> (r: Option<FileFormat>)
    ensures
        r == format_named(trim(spec_lowercase(arg@))),
{
    let lowered = lowercase(arg);
    format_from_lowercase(lowered.as_str())
}

/// A directory path with a final `/`.
pub open spec fn slash_terminated(dir: Seq<char>) -> Seq<char> {
    if dir.last() == '/' {
        dir
    } else {
        dir.push('/')
    }
}

/// `dir` with a final `/` added where it has none.
pub fn with_trailing_slash(dir: &String) -> (r: String)
    requires
        dir@.len() > 0,
    ensures
        r@ == slash_terminated(dir@),
{
    let mut chars = chars_of(dir.as_str());
    if chars[chars.len() - 1] != '/' {
        chars.push('/');
    }
    string_from_chars(&chars)
}

} // verus!

verus! {

/// A path given a final `/` ends with `/`, keeps everything it had, and is
/// left as it is by a second call.
pub proof fn lemma_slash_terminated(dir: Seq<char>)
    requires
        dir.len() > 0,
    ensures
        slash_terminated(dir).last() == '/',
        slash_terminated(dir).subrange(0, dir.len() as int) == dir,
        slash_terminated(slash_terminated(dir)) == slash_terminated(dir),
{
    assert(dir.push('/').subrange(0, dir.len() as int) =~= dir);
    assert(dir.subrange(0, dir.len() as int) =~= dir);
}

} // verus!
