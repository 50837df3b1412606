use mds::args::{parse_args, ArgAction, ArgError};
use mds::options::{parse_format, format_from_lowercase, with_trailing_slash, FileFormat, Options};

fn options(format: FileFormat, bitrate: Option<&str>) -> Options {
    Options {
        bitrate: bitrate.map(|b| b.to_string()),
        format,
        input_file: String::new(),
        output_dir: "out/".to_string(),
        songs: Vec::new(),
        clean_dir: false,
    }
}

#[test]
fn default_bitrates() {
    assert_eq!(options(FileFormat::Flac, None).bitrate(), "0");
    assert_eq!(options(FileFormat::Wav, None).bitrate(), "0");
    assert_eq!(options(FileFormat::Mp3, None).bitrate(), "320k");
    assert_eq!(options(FileFormat::Aac, None).bitrate(), "256k");
    assert_eq!(options(FileFormat::Vorbis, None).bitrate(), "224k");
    assert_eq!(options(FileFormat::Opus, None).bitrate(), "192k");
    assert_eq!(options(FileFormat::Mp3, Some("128k")).bitrate(), "128k");
}

#[test]
fn codecs_and_extensions() {
    let all = [
        (FileFormat::Flac, "flac", ".flac"),
        (FileFormat::Wav, "wav", ".wav"),
        (FileFormat::Mp3, "mp3", ".mp3"),
        (FileFormat::Aac, "aac", ".aac"),
        (FileFormat::Vorbis, "libvorbis", ".ogg"),
        (FileFormat::Opus, "libopus", ".ogg"),
    ];
    for (f, codec, ext) in all {
        let o = options(f, None);
        assert_eq!(o.codec(), codec);
        assert_eq!(o.file_extension(), ext);
    }
}

#[test]
fn format_names() {
    assert_eq!(parse_format("flac"), Some(FileFormat::Flac));
    assert_eq!(parse_format("FLAC"), Some(FileFormat::Flac));
    assert_eq!(parse_format(" Opus "), Some(FileFormat::Opus));
    assert_eq!(parse_format("m"), Some(FileFormat::Mp3));
    assert_eq!(parse_format("W"), Some(FileFormat::Wav));
    assert_eq!(parse_format("vorbis"), Some(FileFormat::Vorbis));
    assert_eq!(parse_format("a"), Some(FileFormat::Aac));
    assert_eq!(parse_format("ogg"), None);
    assert_eq!(parse_format(""), None);
    assert_eq!(format_from_lowercase("AAC"), None);
    assert_eq!(format_from_lowercase(" aac\t"), Some(FileFormat::Aac));
}

#[test]
fn trailing_slash() {
    assert_eq!(with_trailing_slash(&"out".to_string()), "out/");
    assert_eq!(with_trailing_slash(&"out/".to_string()), "out/");
    assert_eq!(with_trailing_slash(&"/".to_string()), "/");
}

fn args(v: &[&str]) -> Vec<String> {
    v.iter().map(|s| s.to_string()).collect()
}

fn run(v: &[&str], exists: &[bool]) -> (Vec<String>, Result<ArgAction, ArgError>) {
    let a = args(v);
    let o = parse_args(&a, &exists.to_vec());
    (o.unknown, o.result)
}

#[test]
fn full_command_line() {
    let (unknown, r) = run(
        &["mds", "-i", "list.txt", "-o", "out", "-f", "OPUS", "--bogus", "-q", "--no-artist", "--delete-not-present", "-n"],
        &[false, false, true, false, true, false, false, false, false, false, false, false],
    );
    assert_eq!(unknown, vec!["--bogus".to_string()]);
    match r {
        Ok(ArgAction::Run(c)) => {
            assert_eq!(c.options.input_file, "list.txt");
            assert_eq!(c.options.output_dir, "out/");
            assert_eq!(c.options.format, FileFormat::Opus);
            assert!(c.options.clean_dir);
            assert!(c.options.bitrate.is_none());
            assert!(c.options.songs.is_empty());
            assert_eq!(c.verbosity, 1);
            assert!(!c.get_artist);
            assert!(!c.print_warning);
            assert!(!c.searching);
        }
        _ => panic!("expected a run"),
    }
}

#[test]
fn defaults() {
    let (_, r) = run(&["mds", "--input", "l", "--output", "o/"], &[false, false, true, false, true]);
    match r {
        Ok(ArgAction::Run(c)) => {
            assert_eq!(c.options.format, FileFormat::Flac);
            assert_eq!(c.options.output_dir, "o/");
            assert_eq!(c.verbosity, 2);
            assert!(c.get_artist);
            assert!(c.print_warning);
            assert!(!c.options.clean_dir);
        }
        _ => panic!("expected a run"),
    }
}

#[test]
fn search_needs_no_output_directory() {
    let (_, r) = run(&["mds", "-i", "l", "-s", "Rick"], &[false; 5]);
    match r {
        Ok(ArgAction::Run(c)) => {
            assert!(c.searching);
            assert_eq!(c.search_query, "rick");
            assert_eq!(c.options.output_dir, "");
        }
        _ => panic!("expected a run"),
    }
}

#[test]
fn verbosity_flags_last_one_wins() {
    let (_, r) = run(&["mds", "-i", "l", "-s", "q", "-Q", "-v", "--silent"], &[false; 8]);
    match r {
        Ok(ArgAction::Run(c)) => assert_eq!(c.verbosity, 0),
        _ => panic!("expected a run"),
    }
}

#[test]
fn help_stops_reading() {
    let (unknown, r) = run(&["mds", "x", "-h", "-i"], &[false; 4]);
    assert_eq!(unknown, vec!["x".to_string()]);
    assert!(matches!(r, Ok(ArgAction::Help)));
}

#[test]
fn refused_command_lines() {
    assert_eq!(run(&["mds"], &[false]).1.err(), Some(ArgError::NoInputFile));
    assert_eq!(run(&["mds", "-i"], &[false; 2]).1.err(), Some(ArgError::IncompleteInput));
    assert_eq!(run(&["mds", "-i", "l"], &[false; 3]).1.err(), Some(ArgError::NoOutputDir));
    assert_eq!(run(&["mds", "-o"], &[false; 2]).1.err(), Some(ArgError::IncompleteOutput));
    assert_eq!(run(&["mds", "-o", "nope"], &[false; 3]).1.err(), Some(ArgError::OutputMissing));
    assert_eq!(
        run(&["mds", "-o", ""], &[false, false, true]).1.err(),
        Some(ArgError::InvalidOutputDir)
    );
    assert_eq!(run(&["mds", "-s"], &[false; 2]).1.err(), Some(ArgError::NoSearchTerm));
    assert_eq!(run(&["mds", "-f"], &[false; 2]).1.err(), Some(ArgError::IncompleteFormat));
    assert_eq!(run(&["mds", "-f", "ogg"], &[false; 3]).1.err(), Some(ArgError::InvalidFormat));
}

#[test]
fn value_of_a_flag_is_taken_as_is() {
    let (_, r) = run(&["mds", "-i", "-o", "-s", "x"], &[false; 5]);
    match r {
        Ok(ArgAction::Run(c)) => {
            assert_eq!(c.options.input_file, "-o");
            assert!(c.searching);
        }
        _ => panic!("expected a run"),
    }
}

#[test]
fn short_flag_n_is_do_not_warn() {
    let (_, r) = run(&["mds", "-i", "l", "-s", "q", "-n"], &[false; 6]);
    match r {
        Ok(ArgAction::Run(c)) => {
            assert!(!c.print_warning);
            assert!(c.get_artist);
        }
        _ => panic!("expected a run"),
    }
}

#[test]
fn output_directory_may_hold_any_characters() {
    let (_, r) = run(&["mds", "-i", "l", "-o", "\u{e9}t\u{e9}"], &[false, false, false, false, true]);
    match r {
        Ok(ArgAction::Run(c)) => assert_eq!(c.options.output_dir, "\u{e9}t\u{e9}/"),
        _ => panic!("expected a run"),
    }
    assert_eq!(with_trailing_slash(&"\u{e9}".to_string()), "\u{e9}/");
}
