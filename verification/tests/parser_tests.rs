use mds::parser::{
    get_artist_name, lines_to, parse_file, parse_text, songs_in_order, Entry, ParseError, SongDesc,
};

fn chars(s: &str) -> Vec<char> {
    s.chars().collect()
}

fn parse(text: &str, home: &str) -> Result<Vec<Entry>, ParseError> {
    parse_text(&chars(text), &chars(home))
}

fn songs(entries: &[Entry]) -> Vec<&SongDesc> {
    entries
        .iter()
        .filter_map(|e| match e {
            Entry::Song(s) => Some(s),
            Entry::Import(_) => None,
        })
        .collect()
}

fn song(name: &str, infile: &str) -> SongDesc {
    SongDesc {
        artist: String::new(),
        name: name.to_string(),
        infile: infile.to_string(),
        is_file_url: false,
        cover: None,
        is_cover_url: false,
    }
}

#[test]
fn local_song_with_cover() {
    let r = parse("song.mp4 | artist - song | cover.png\n", "/dir/").unwrap();
    assert_eq!(r.len(), 1);
    let s = songs(&r)[0];
    assert_eq!(s.artist, "");
    assert_eq!(s.name, "artist - song");
    assert_eq!(s.infile, "/dir/song.mp4");
    assert!(!s.is_file_url);
    assert_eq!(s.cover, Some("/dir/cover.png".to_string()));
    assert!(!s.is_cover_url);
}

#[test]
fn url_song_with_url_cover() {
    let text = "!https://www.youtube.com/watch?v=dQw4w9WgXcQ | Rick Astley - Never Gonna Give You Up | !https://www.blender.org/wp-content/themes/bthree/assets/icons/favicon-32x32.png\n";
    let r = parse(text, "/music/").unwrap();
    let s = songs(&r)[0];
    assert!(s.is_file_url);
    assert_eq!(s.infile, "https://www.youtube.com/watch?v=dQw4w9WgXcQ");
    assert_eq!(s.name, "Rick Astley - Never Gonna Give You Up");
    assert!(s.is_cover_url);
    assert_eq!(
        s.cover,
        Some(
            "https://www.blender.org/wp-content/themes/bthree/assets/icons/favicon-32x32.png"
                .to_string()
        )
    );
}

#[test]
fn song_without_cover() {
    let r = parse("a.flac|Title\n", "/h/").unwrap();
    let s = songs(&r)[0];
    assert_eq!(s.name, "Title");
    assert_eq!(s.infile, "/h/a.flac");
    assert_eq!(s.cover, None);
    assert!(!s.is_cover_url);
}

#[test]
fn comments_and_blank_lines_give_nothing() {
    let r = parse("  # a comment | with a bar\n\n\t#another\nfoo|bar\n", "/h/").unwrap();
    assert_eq!(r.len(), 1);
    assert_eq!(songs(&r)[0].name, "bar");
    assert_eq!(parse("# only a comment", "/h/").unwrap().len(), 0);
    assert_eq!(parse("", "/h/").unwrap().len(), 0);
}

#[test]
fn directory_line_changes_home() {
    let r = parse("a.mp3|One\n*/music\nb.mp3|Two\n* rel/ \nc.mp3|Three\n", "/h/").unwrap();
    let s = songs(&r);
    assert_eq!(s[0].infile, "/h/a.mp3");
    assert_eq!(s[1].infile, "/music/b.mp3");
    // A relative directory is taken from the input file's own directory.
    assert_eq!(s[2].infile, "/h/rel/c.mp3");
}

#[test]
fn directory_line_applies_to_covers() {
    let r = parse("*/art\na.mp3|One|one.png\n", "/h/").unwrap();
    assert_eq!(songs(&r)[0].cover, Some("/art/one.png".to_string()));
}

#[test]
fn import_lines() {
    let r = parse("a|A\n@other.txt\nb|B\n", "/h/").unwrap();
    assert_eq!(r.len(), 3);
    match &r[1] {
        Entry::Import(p) => assert_eq!(p, "/h/other.txt"),
        Entry::Song(_) => panic!("expected an import"),
    }
}

#[test]
fn import_with_leading_slash_is_still_relative() {
    let r = parse("@/sub/list.txt\n", "/h/").unwrap();
    match &r[0] {
        Entry::Import(p) => assert_eq!(p, "/h/sub/list.txt"),
        Entry::Song(_) => panic!("expected an import"),
    }
}

#[test]
fn import_is_relative_to_the_directory_in_use() {
    let r = parse("*/lists
@more.txt
", "/h/").unwrap();
    match &r[0] {
        Entry::Import(p) => assert_eq!(p, "/lists/more.txt"),
        Entry::Song(_) => panic!("expected an import"),
    }
}

#[test]
fn relative_directories_are_taken_from_the_files_directory() {
    let r = parse("*/a
*b
x|y
", "/h/").unwrap();
    assert_eq!(songs(&r)[0].infile, "/h/b/x");
}

#[test]
fn url_cover_keeps_every_character() {
    let r = parse("a|b|!https://ex.com/\u{e9}t\u{e9}.png\n", "/h/").unwrap();
    assert_eq!(songs(&r)[0].cover, Some("https://ex.com/\u{e9}t\u{e9}.png".to_string()));
    assert!(songs(&r)[0].is_cover_url);
}

#[test]
fn missing_bar_is_an_invalid_command_with_its_line() {
    assert_eq!(
        parse("a b c\n", "/h/").unwrap_err(),
        ParseError::InvalidCommand { line: 0 }
    );
    assert_eq!(
        parse("x|y\nno bar here\n", "/h/").unwrap_err(),
        ParseError::InvalidCommand { line: 1 }
    );
    assert_eq!(
        parse("x|y\nno bar", "/h/").unwrap_err(),
        ParseError::InvalidCommand { line: usize::MAX }
    );
}

#[test]
fn empty_name_and_empty_url_are_refused() {
    assert_eq!(
        parse("a| |\n", "/h/").unwrap_err(),
        ParseError::InvalidCommand { line: 0 }
    );
    assert_eq!(
        parse("!|x\n", "/h/").unwrap_err(),
        ParseError::InvalidCommand { line: 0 }
    );
    assert_eq!(
        parse("a|", "/h/").unwrap_err(),
        ParseError::InvalidCommand { line: usize::MAX }
    );
}

#[test]
fn last_line_without_newline_is_a_song() {
    let r = parse("a.mp3 | A", "/m/").unwrap();
    assert_eq!(r.len(), 1);
    let s = songs(&r)[0];
    assert_eq!(s.name, "A");
    assert_eq!(s.infile, "/m/a.mp3");
    assert_eq!(s.cover, None);
    assert!(!s.is_file_url && !s.is_cover_url);
    assert_eq!(s.artist, "");
}

#[test]
fn empty_name_does_not_reach_into_the_next_line() {
    assert_eq!(
        parse("a|\nb|c\n", "/h/").unwrap_err(),
        ParseError::InvalidCommand { line: 0 }
    );
    assert_eq!(
        parse("a||c\n", "/h/").unwrap_err(),
        ParseError::InvalidCommand { line: 0 }
    );
    assert_eq!(
        parse("!", "/h/").unwrap_err(),
        ParseError::InvalidCommand { line: usize::MAX }
    );
    assert_eq!(
        parse("!\nx|y\n", "/h/").unwrap_err(),
        ParseError::InvalidCommand { line: 0 }
    );
}

#[test]
fn name_followed_by_bar_at_end() {
    let r = parse("a|b|", "/h/").unwrap();
    assert_eq!(songs(&r)[0].name, "b");
    assert_eq!(songs(&r)[0].cover, None);
}

#[test]
fn empty_directory_and_import() {
    assert_eq!(parse("*\n", "/h/").unwrap_err(), ParseError::EmptyDirectory);
    assert_eq!(parse("*   \n", "/h/").unwrap_err(), ParseError::EmptyDirectory);
    assert_eq!(parse("@\n", "/h/").unwrap_err(), ParseError::EmptyImport);
    assert_eq!(parse("@ \t\n", "/h/").unwrap_err(), ParseError::EmptyImport);
}

#[test]
fn any_other_first_character_starts_a_song() {
    let r = parse("01.mp3 | One\n_b.flac|Two\n(c)|Three\n", "/m/").unwrap();
    let s = songs(&r);
    assert_eq!(s[0].infile, "/m/01.mp3");
    assert_eq!(s[0].name, "One");
    assert_eq!(s[1].infile, "/m/_b.flac");
    assert_eq!(s[2].infile, "/m/(c)");
    assert_eq!(
        parse("|a|b\n", "/h/").unwrap_err(),
        ParseError::InvalidCommand { line: 0 }
    );
}

#[test]
fn lines_to_counts_line_breaks() {
    let t: Vec<char> = "a\nb\nc".chars().collect();
    assert_eq!(lines_to(&t, 0), 0);
    assert_eq!(lines_to(&t, 2), 1);
    assert_eq!(lines_to(&t, 4), 2);
    assert_eq!(lines_to(&t, 5), usize::MAX);
}

#[test]
fn parse_file_takes_paths_from_the_files_directory() {
    let r = parse_file(&"/music/list.txt".to_string(), &"a.mp3|A\n".to_string()).unwrap();
    assert_eq!(songs(&r)[0].infile, "/music/a.mp3");
    let r = parse_file(&"list.txt".to_string(), &"a.mp3|A\n".to_string()).unwrap();
    assert_eq!(songs(&r)[0].infile, "./a.mp3");
    let r = parse_file(&"/list.txt".to_string(), &"a.mp3|A\n".to_string()).unwrap();
    assert_eq!(songs(&r)[0].infile, "/a.mp3");
    assert_eq!(
        parse_file(&"/".to_string(), &"a|b\n".to_string()).unwrap_err(),
        ParseError::NoParentDirectory
    );
}

#[test]
fn artist_is_taken_from_the_name() {
    let mut v = vec![
        song("Rick Astley - Never Gonna Give You Up", "x"),
        song("No artist here", "y"),
        song(" A - B - C", "z"),
        song("-lead", "w"),
    ];
    get_artist_name(&mut v);
    assert_eq!(v[0].artist, "Rick Astley");
    assert_eq!(v[0].name, "Rick Astley - Never Gonna Give You Up");
    assert_eq!(v[1].artist, "");
    assert_eq!(v[2].artist, "A");
    assert_eq!(v[3].artist, "");
    assert_eq!(v.len(), 4);
}

#[test]
fn songs_of_imports_take_the_imports_place() {
    let entries = vec![
        Entry::Song(song("a", "1")),
        Entry::Import("/h/other.txt".to_string()),
        Entry::Song(song("b", "2")),
    ];
    let imported = vec![vec![song("x", "3"), song("y", "4")]];
    let all = songs_in_order(&entries, &imported);
    let names: Vec<&str> = all.iter().map(|s| s.name.as_str()).collect();
    assert_eq!(names, vec!["a", "x", "y", "b"]);
}

#[test]
fn song_clone_keeps_every_field() {
    let mut s = song("n", "f");
    s.cover = Some("c".to_string());
    s.is_cover_url = true;
    s.artist = "a".to_string();
    let c = s.clone();
    assert_eq!(c.name, "n");
    assert_eq!(c.infile, "f");
    assert_eq!(c.cover, Some("c".to_string()));
    assert!(c.is_cover_url);
    assert_eq!(c.artist, "a");
}

#[test]
fn parsed_songs_are_well_formed() {
    let text = "  a.mp3 |  One  \n!http://x |Two| !http://c \n*d\nb|  Three |c.png\n# c\n";
    let r = parse(text, "/h/").unwrap();
    for s in songs(&r) {
        assert!(!s.name.is_empty());
        assert_eq!(s.name.trim(), s.name);
        assert!(!s.infile.is_empty());
        assert!(!s.is_cover_url || s.cover.is_some());
        assert!(s.artist.is_empty());
    }
    let s = songs(&r);
    assert_eq!(s.len(), 3);
    assert_eq!(s[1].cover, Some("http://c".to_string()));
    assert_eq!(s[2].infile, "/h/d/b");
    assert_eq!(s[2].cover, Some("/h/d/c.png".to_string()));
}

#[test]
fn byte_order_mark_is_passed_over() {
    let r = parse("\u{feff}a.mp3|One\n", "/h/").unwrap();
    assert_eq!(songs(&r).len(), 1);
    assert_eq!(songs(&r)[0].infile, "/h/a.mp3");
    assert_eq!(parse("\u{feff}\n", "/h/").unwrap().len(), 0);
}

#[test]
fn stray_line_is_an_invalid_command() {
    assert_eq!(parse("0\n", "/h/").err(), Some(ParseError::InvalidCommand { line: 0 }));
}
