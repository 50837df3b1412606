use mds::clean::{deletion_phrase, unlisted_files};
use mds::cover::{
    cover_source, process_cover, soundcloud_image_link, youtube_cover_urls, CoverPlan,
    CoverSource,
};
use mds::download::{
    failure_line, ffmpeg_args, gen_filename, is_done, output_path, present_titles,
    temporary_files,
};
use mds::options::{FileFormat, Options};
use mds::parser::SongDesc;
use mds::search::{name_matches, search_files, search_result_text};

fn song(name: &str, infile: &str) -> SongDesc {
    SongDesc {
        artist: String::new(),
        name: name.to_string(),
        infile: infile.to_string(),
        is_file_url: false,
        cover: None,
        is_cover_url: false,
    }
}

fn strings(v: &[&str]) -> Vec<String> {
    v.iter().map(|s| s.to_string()).collect()
}

fn options(dir: &str, format: FileFormat) -> Options {
    Options {
        bitrate: None,
        format,
        input_file: String::new(),
        output_dir: dir.to_string(),
        songs: Vec::new(),
        clean_dir: false,
    }
}

#[test]
fn present_titles_are_sorted_and_searched() {
    let files = present_titles(strings(&["b", "a", "c", "B", "a"]));
    assert_eq!(files, strings(&["B", "a", "a", "b", "c"]));
    assert!(is_done(&"b".to_string(), &files));
    assert!(is_done(&"B".to_string(), &files));
    assert!(is_done(&"c".to_string(), &files));
    assert!(!is_done(&"d".to_string(), &files));
    assert!(!is_done(&"".to_string(), &files));
    assert!(!is_done(&"x".to_string(), &present_titles(Vec::new())));
}

#[test]
fn temporary_names() {
    let a = gen_filename(".flac");
    assert_eq!(a.chars().count(), 5 + 100 + 5);
    assert!(a.starts_with("/tmp/"));
    assert!(a.ends_with(".flac"));
    let allowed = "qwertyuiopasdfghjklzxcvbnmQWERTYUIOPASDFGHJKLZXCVBNM1234567890-_";
    assert!(a[5..105].chars().all(|c| allowed.contains(c)));
    let b = gen_filename("");
    assert_eq!(b.len(), 105);
    assert_ne!(a[..105], b[..]);
}

#[test]
fn output_paths() {
    assert_eq!(
        output_path(&options("out/", FileFormat::Vorbis), &"Rick Astley - Never Gonna Give You Up".to_string()),
        "out/Rick Astley - Never Gonna Give You Up.ogg"
    );
    assert_eq!(output_path(&options("out", FileFormat::Mp3), &"x".to_string()), "out/x.mp3");
    assert_eq!(output_path(&options("m\u{fc}sik", FileFormat::Wav), &"x".to_string()), "m\u{fc}sik/x.wav");
}

#[test]
fn ffmpeg_arguments_with_cover_and_artist() {
    let conf = options("out/", FileFormat::Flac);
    let args = ffmpeg_args(
        &Some(" c.png ".to_string()),
        &"out/x.flac".to_string(),
        &" in.flac\n".to_string(),
        &conf,
        &"Art".to_string(),
    );
    assert_eq!(
        args,
        strings(&[
            "-i", "in.flac", "-i", "c.png", "-map", "0:a", "-map", "1:v", "-disposition:1",
            "attached_pic", "-c:a", "flac", "-b:a", "0", "-loglevel", "error", "-metadata",
            "artist=Art", "out/x.flac",
        ])
    );
}

#[test]
fn ffmpeg_arguments_plain() {
    let mut conf = options("out/", FileFormat::Opus);
    let args = ffmpeg_args(&None, &"o".to_string(), &"in".to_string(), &conf, &"".to_string());
    assert_eq!(
        args,
        strings(&["-i", "in", "-c:a", "libopus", "-b:a", "192k", "-loglevel", "error", "o"])
    );
    conf.bitrate = Some("96k".to_string());
    let args = ffmpeg_args(&None, &"o".to_string(), &"in".to_string(), &conf, &"".to_string());
    assert_eq!(args[5], "96k");
}

#[test]
fn failure_lines() {
    assert_eq!(failure_line(&"x".to_string()), "\n\t* \"x\"");
}

#[test]
fn temporary_files_removed_after_conversion() {
    let mut s = song("n", "https://x");
    s.is_file_url = true;
    s.cover = Some("/tmp/cover".to_string());
    s.is_cover_url = true;
    assert_eq!(temporary_files(&s, &"/tmp/audio.flac".to_string()), strings(&["/tmp/audio.flac", "/tmp/cover"]));
    let local = song("n", "/music/a.flac");
    assert!(temporary_files(&local, &"/music/a.flac".to_string()).is_empty());
    let mut no_cover = s.clone();
    no_cover.cover = None;
    assert_eq!(temporary_files(&no_cover, &"/tmp/a".to_string()), strings(&["/tmp/a"]));
}

#[test]
fn cover_plans() {
    match process_cover(&Some("http://c".to_string()), true, false) {
        CoverPlan::Download(u) => assert_eq!(u, "http://c"),
        _ => panic!("expected a download"),
    }
    assert!(matches!(process_cover(&None, false, true), CoverPlan::FromSource));
    match process_cover(&Some("/c.png".to_string()), false, true) {
        CoverPlan::Keep(c) => assert_eq!(c, Some("/c.png".to_string())),
        _ => panic!("expected to keep"),
    }
    assert!(matches!(process_cover(&None, false, false), CoverPlan::Keep(None)));
}

#[test]
fn cover_sources() {
    assert_eq!(cover_source(&"https://www.youtube.com/watch?v=abc".to_string()), CoverSource::YouTube);
    assert_eq!(cover_source(&"https://youtube.com/watch?v=abc".to_string()), CoverSource::YouTube);
    assert_eq!(
        cover_source(&"https://www.youtube.com/watch?v=abc&t=1".to_string()),
        CoverSource::YouTubeWithExtras
    );
    assert_eq!(cover_source(&"https://soundcloud.com/a/b".to_string()), CoverSource::SoundCloud);
    assert_eq!(cover_source(&"https://example.com/a".to_string()), CoverSource::Unknown);
    assert_eq!(cover_source(&"https://youtu.be/abc".to_string()), CoverSource::YouTube);
}

#[test]
fn youtube_thumbnails() {
    let (a, b) = youtube_cover_urls(&"https://www.youtube.com/watch?v=dQw4w9WgXcQ".to_string()).unwrap();
    assert_eq!(a, "https://i.ytimg.com/vi/dQw4w9WgXcQ/hqdefault.jpg");
    assert_eq!(b, "https://i.ytimg.com/vi/dQw4w9WgXcQ/hq720.jpg");
    let (a, _) = youtube_cover_urls(&"https://youtube.com/watch?v=dQw4w9WgXcQ".to_string()).unwrap();
    assert_eq!(a, "https://i.ytimg.com/vi/dQw4w9WgXcQ/hqdefault.jpg");
    let (a, b) = youtube_cover_urls(&"https://youtu.be/dQw4w9WgXcQ".to_string()).unwrap();
    assert_eq!(a, "https://i.ytimg.com/vi/dQw4w9WgXcQ/hqdefault.jpg");
    assert_eq!(b, "https://i.ytimg.com/vi/dQw4w9WgXcQ/hq720.jpg");
    assert!(youtube_cover_urls(&"https://www.youtube.com/channel/x".to_string()).is_none());
    assert!(youtube_cover_urls(&"https://example.com/x".to_string()).is_none());
}

#[test]
fn soundcloud_images() {
    let page = "<html><img src=\"https://i1.sndcdn.com/artworks-abc-t500x500.jpg\" alt=\"x\"></html>".to_string();
    assert_eq!(
        soundcloud_image_link(&page),
        Some("https://i1.sndcdn.com/artworks-abc-t500x500.jpg".to_string())
    );
    assert_eq!(soundcloud_image_link(&"<html></html>".to_string()), None);
}

#[test]
fn searching_names() {
    let songs = vec![
        song("Rick Astley - Never Gonna Give You Up", "a"),
        song("Other", "b"),
        song("RICKROLL", "c"),
    ];
    let found = search_files(&songs, &"rick".to_string());
    let names: Vec<&str> = found.iter().map(|s| s.name.as_str()).collect();
    assert_eq!(names, vec!["Rick Astley - Never Gonna Give You Up", "RICKROLL"]);
    assert!(search_files(&songs, &"zzz".to_string()).is_empty());
    assert!(name_matches(&"abc".to_string(), &"bc".to_string()));
    assert!(!name_matches(&"abc".to_string(), &"Bc".to_string()));
}

#[test]
fn search_result_texts() {
    let mut s = song("Name", "/m/a.flac");
    assert_eq!(
        search_result_text(&s),
        "\t\"Name\":\n\t\tSource File: :\"/m/a.flac\"\n\t\tNo Cover Provided\n"
    );
    s.is_file_url = true;
    s.cover = Some("http://c".to_string());
    s.is_cover_url = true;
    assert_eq!(
        search_result_text(&s),
        "\t\"Name\":\n\t\tSource URL: :\"/m/a.flac\"\n\t\tProvided Cover URL: \"http://c\"\n"
    );
}

#[test]
fn unlisted_files_are_those_no_song_names() {
    let stems = strings(&["a", "b", "c", "b"]);
    let songs = vec![song("b", "x")];
    assert_eq!(unlisted_files(&stems, &songs), vec![0, 2]);
    assert_eq!(unlisted_files(&stems, &Vec::new()), vec![0, 1, 2, 3]);
    assert!(unlisted_files(&Vec::new(), &songs).is_empty());
}

#[test]
fn deletion_phrases() {
    assert_eq!(deletion_phrase(1), " was");
    assert_eq!(deletion_phrase(0), "s were");
    assert_eq!(deletion_phrase(2), "s were");
}

use mds::clean::deletion_questions;
use mds::download::{DownloadTally, SongOutcome};

#[test]
fn tally_counts_outcomes() {
    let mut t = DownloadTally::new();
    t.record(&"a".to_string(), SongOutcome::AlreadyPresent);
    t.record(&"b".to_string(), SongOutcome::DownloadFailed);
    t.record(&"c".to_string(), SongOutcome::ConversionFailed);
    t.record(&"d".to_string(), SongOutcome::Converted);
    t.record(&"e".to_string(), SongOutcome::DownloadFailed);
    assert_eq!(t.listed, 5);
    assert_eq!(t.present, 1);
    assert_eq!(t.failed, 2);
    assert_eq!(t.failures, "\n\t* \"b\"\n\t* \"e\"");
}

#[test]
fn questions_before_removal() {
    assert_eq!(deletion_questions(true, false), (true, true));
    assert_eq!(deletion_questions(true, true), (false, true));
    assert_eq!(deletion_questions(false, false), (false, false));
    assert_eq!(deletion_questions(false, true), (false, false));
}

use mds::download::{is_shown, ytdlp_args, MessageKind};

#[test]
fn ytdlp_arguments() {
    assert_eq!(
        ytdlp_args(&"https://x".to_string(), &"/tmp/a.flac".to_string()),
        strings(&["https://x", "-x", "--audio-format", "flac", "-q", "--progress", "-o", "/tmp/a.flac"])
    );
}

#[test]
fn messages_by_verbosity() {
    assert!(is_shown(MessageKind::Error, 0));
    assert!(!is_shown(MessageKind::Warning, 0));
    assert!(is_shown(MessageKind::Warning, 1));
    assert!(!is_shown(MessageKind::Info, 1));
    assert!(is_shown(MessageKind::Info, 2));
    assert!(is_shown(MessageKind::Warning, 2));
}

use mds::clean::{deletion_verdict, DeletionVerdict};
use mds::download::{accepts, download_step, SongAction, SongEvent, SongStage};

fn is_temp_flac(name: &str) -> bool {
    let allowed = "qwertyuiopasdfghjklzxcvbnmQWERTYUIOPASDFGHJKLZXCVBNM1234567890-_";
    name.chars().count() == 110
        && name.starts_with("/tmp/")
        && name.ends_with(".flac")
        && name[5..105].chars().all(|c| allowed.contains(c))
}

#[test]
fn present_song_is_finished_at_once() {
    let files = present_titles(strings(&["Song", "Other"]));
    let conf = options("/out", FileFormat::Mp3);
    let mut s = song("Song", "https://www.youtube.com/watch?v=x");
    s.is_file_url = true;
    let (stage, action) = download_step(&s, &files, &conf, SongStage::Start, SongEvent::Begin);
    assert!(matches!(stage, SongStage::Done));
    assert!(matches!(action, SongAction::Finish(SongOutcome::AlreadyPresent)));
    assert!(!accepts(&stage, &SongEvent::Begin));
    assert!(!accepts(&stage, &SongEvent::Converted(true)));
    assert!(!accepts(&stage, &SongEvent::Cover(None)));
    assert!(!accepts(&stage, &SongEvent::Audio(None)));
}

#[test]
fn local_song_is_converted_then_nothing_is_removed() {
    let files = present_titles(strings(&["Other"]));
    let conf = options("/out", FileFormat::Mp3);
    let s = song("Song", "/music/song.wav");
    let (stage, action) = download_step(&s, &files, &conf, SongStage::Start, SongEvent::Begin);
    match &action {
        SongAction::Convert(args) => assert_eq!(
            *args,
            strings(&[
                "-i", "/music/song.wav", "-c:a", "mp3", "-b:a", "320k", "-loglevel", "error",
                "/out/Song.mp3"
            ])
        ),
        other => panic!("unexpected {:?}", other),
    }
    assert!(accepts(&stage, &SongEvent::Converted(true)));
    assert!(!accepts(&stage, &SongEvent::Begin));
    let (stage, action) = download_step(&s, &files, &conf, stage, SongEvent::Converted(true));
    assert!(matches!(stage, SongStage::Done));
    match action {
        SongAction::RemoveThen(f, SongOutcome::Converted) => assert!(f.is_empty()),
        other => panic!("unexpected {:?}", other),
    }
}

#[test]
fn failed_conversion_removes_nothing() {
    let files = present_titles(Vec::new());
    let conf = options("/out/", FileFormat::Flac);
    let s = song("Song", "/music/song.wav");
    let stage = SongStage::AwaitConversion { cover: None, infile: "/tmp/x.flac".to_string() };
    let (stage, action) = download_step(&s, &files, &conf, stage, SongEvent::Converted(false));
    assert!(matches!(stage, SongStage::Done));
    assert!(matches!(action, SongAction::Finish(SongOutcome::ConversionFailed)));
}

#[test]
fn song_from_url_gets_cover_then_audio_then_conversion() {
    let files = present_titles(Vec::new());
    let conf = options("/out", FileFormat::Opus);
    let mut s = song("Tune", "https://soundcloud.com/a/b");
    s.is_file_url = true;
    s.artist = "Band".to_string();
    s.cover = Some("https://ex.com/c.png".to_string());
    s.is_cover_url = true;
    let (stage, action) = download_step(&s, &files, &conf, SongStage::Start, SongEvent::Begin);
    match &action {
        SongAction::FetchCover(u) => assert_eq!(u, "https://ex.com/c.png"),
        other => panic!("unexpected {:?}", other),
    }
    assert!(matches!(stage, SongStage::AwaitCover));
    let cover = Some("/tmp/cover".to_string());
    let (stage, action) = download_step(&s, &files, &conf, stage, SongEvent::Cover(cover));
    let target = match &action {
        SongAction::Download(args) => {
            assert_eq!(args.len(), 8);
            assert_eq!(
                args[..7].to_vec(),
                strings(&["https://soundcloud.com/a/b", "-x", "--audio-format", "flac", "-q", "--progress", "-o"])
            );
            assert!(is_temp_flac(&args[7]));
            args[7].clone()
        }
        other => panic!("unexpected {:?}", other),
    };
    let (stage, action) =
        download_step(&s, &files, &conf, stage, SongEvent::Audio(Some(target.clone())));
    match &action {
        SongAction::Convert(args) => assert_eq!(
            *args,
            vec![
                "-i".to_string(), target.clone(), "-i".to_string(), "/tmp/cover".to_string(),
                "-map".to_string(), "0:a".to_string(), "-map".to_string(), "1:v".to_string(),
                "-disposition:1".to_string(), "attached_pic".to_string(), "-c:a".to_string(),
                "libopus".to_string(), "-b:a".to_string(), "192k".to_string(),
                "-loglevel".to_string(), "error".to_string(), "-metadata".to_string(),
                "artist=Band".to_string(), "/out/Tune.ogg".to_string(),
            ]
        ),
        other => panic!("unexpected {:?}", other),
    }
    let (stage, action) = download_step(&s, &files, &conf, stage, SongEvent::Converted(true));
    assert!(matches!(stage, SongStage::Done));
    match action {
        SongAction::RemoveThen(f, SongOutcome::Converted) => {
            assert_eq!(f, vec![target, "/tmp/cover".to_string()])
        }
        other => panic!("unexpected {:?}", other),
    }
}

#[test]
fn failed_download_ends_the_song() {
    let files = present_titles(Vec::new());
    let conf = options("/out", FileFormat::Mp3);
    let mut s = song("Tune", "https://youtu.be/abc");
    s.is_file_url = true;
    let (stage, action) = download_step(&s, &files, &conf, SongStage::Start, SongEvent::Begin);
    assert!(matches!(action, SongAction::CoverFromSource));
    let (stage, action) = download_step(&s, &files, &conf, stage, SongEvent::Cover(None));
    assert!(matches!(action, SongAction::Download(_)));
    assert!(accepts(&stage, &SongEvent::Audio(None)));
    let (stage, action) = download_step(&s, &files, &conf, stage, SongEvent::Audio(None));
    assert!(matches!(stage, SongStage::Done));
    assert!(matches!(action, SongAction::Finish(SongOutcome::DownloadFailed)));
}

#[test]
fn deletion_needs_every_answer_yes() {
    assert_eq!(deletion_verdict(false, false, None, None), DeletionVerdict::Delete);
    assert_eq!(deletion_verdict(true, false, None, None), DeletionVerdict::AskAll);
    assert_eq!(
        deletion_verdict(true, false, Some(false), None),
        DeletionVerdict::AbortNothingDeleted
    );
    assert_eq!(deletion_verdict(true, false, Some(true), None), DeletionVerdict::AskFile);
    assert_eq!(deletion_verdict(true, false, Some(true), Some(false)), DeletionVerdict::AbortFile);
    assert_eq!(deletion_verdict(true, false, Some(true), Some(true)), DeletionVerdict::Delete);
    assert_eq!(deletion_verdict(true, true, None, None), DeletionVerdict::AskFile);
    assert_eq!(deletion_verdict(true, true, None, Some(true)), DeletionVerdict::Delete);
}
