//! Cover art: where a song's cover comes from, and how the address of an
//! automatically found cover is made from the song's source.
use vstd::prelude::*;
use crate::parser::opt_view;
use crate::text::{
    chars_of, contains, contains_lit, first_piece, first_piece_exec, push_chars,
    second_piece, second_piece_exec, string_from_chars, trim, trim_chars,
};

verus! {

broadcast use vstd::string::group_string_axioms;

/// What to do for a song's cover.
#[derive(Debug)]
pub enum CoverPlan {
    /// Download the cover from this URL to a temporary file.
    Download(String),
    /// Look for a cover at the song's own source.
    FromSource,
    /// Keep this cover (a file path, or none).
    Keep(Option<String>),
}

/// The abstract value of a `CoverPlan`.
pub enum CoverPlanSpec {
    Download(Seq<char>),
    FromSource,
    Keep(Option<Seq<char>>),
}

impl View for CoverPlan {
    type V = CoverPlanSpec;

    open spec fn view(&self) -> CoverPlanSpec {
        match self {
            CoverPlan::Download(u) => CoverPlanSpec::Download(u@),
            CoverPlan::FromSource => CoverPlanSpec::FromSource,
            CoverPlan::Keep(c) => CoverPlanSpec::Keep(opt_view(*c)),
        }
    }
}

/// The plan for a cover: a cover URL is downloaded; a song from a URL with
/// no cover gets one from its source; any other cover is kept.
pub open spec fn cover_plan(og_cover: Option<Seq<char>>, is_url: bool, is_infile_link: bool) -> CoverPlanSpec {
    if is_url {
        CoverPlanSpec::Download(og_cover.unwrap())
    } else if og_cover is None && is_infile_link {
        CoverPlanSpec::FromSource
    } else {
        CoverPlanSpec::Keep(og_cover)
    }
}

/// What to do for the cover `og_cover` of a song (`is_url`: the cover is a
/// URL; `is_infile_link`: the song itself comes from a URL).
pub fn process_cover(og_cover: &Option<String>, is_url: bool, is_infile_link: bool) -> (r: CoverPlan)
    requires
        is_url ==> og_cover is Some,
    ensures
        r@ == cover_plan(opt_view(*og_cover), is_url, is_infile_link),
{
    if is_url {
        match og_cover {
            Some(url) => CoverPlan::Download(url.clone()),
            None => CoverPlan::Keep(None),
        }
    } else if og_cover.is_none() && is_infile_link {
        CoverPlan::FromSource
    } else {
        match og_cover {
            Some(c) => CoverPlan::Keep(Some(c.clone())),
            None => CoverPlan::Keep(None),
        }
    }
}

/// Where a cover can be found for a song from a URL.
#[derive(Debug, Clone, Copy, PartialEq, Eq, Structural)]
pub enum CoverSource {
    /// A YouTube video.
    YouTube,
    /// A YouTube address with more after an `&`, which is refused.
    YouTubeWithExtras,
    /// A SoundCloud track.
    SoundCloud,
    /// Nowhere known.
    Unknown,
}

/// Whether the source is a YouTube address: a `youtube.com` page or a
/// `youtu.be` short link.
pub open spec fn is_youtube_source(s: Seq<char>) -> bool {
    ||| contains(s, "https://www.youtube.com"@)
    ||| contains(s, "https://youtube.com"@)
    ||| contains(s, "youtu.be/"@)
}

/// Where the cover of a song from the URL `s` can be found.
pub open spec fn cover_source_spec(s: Seq<char>) -> CoverSource {
    if is_youtube_source(s) {
        if contains(s, "&"@) {
            CoverSource::YouTubeWithExtras
        } else {
            CoverSource::YouTube
        }
    } else if contains(s, "https://soundcloud.com"@) {
        CoverSource::SoundCloud
    } else {
        CoverSource::Unknown
    }
}

/// Where the cover of a song from the URL `infile` can be found.
pub fn cover_source(infile: &String) -> (r: CoverSource)
    ensures
        r == cover_source_spec(infile@),
{
    let s = chars_of(infile.as_str());
    if contains_lit(&s, "https://www.youtube.com") || contains_lit(&s, "https://youtube.com")
        || contains_lit(&s, "youtu.be/") {
        if contains_lit(&s, "&") {
            CoverSource::YouTubeWithExtras
        } else {
            CoverSource::YouTube
        }
    } else if contains_lit(&s, "https://soundcloud.com") {
        CoverSource::SoundCloud
    } else {
        CoverSource::Unknown
    }
}

/// The video identifier of a YouTube address: what follows `youtu.be/` in
/// a short link, or what follows `watch?v=` in a `youtube.com` address (up
/// to a repeat of that marker, if any); none when it cannot be cut out.
pub open spec fn youtube_id(s: Seq<char>) -> Option<Seq<char>> {
    if contains(s, "youtu.be/"@) {
        second_piece(s, "youtu.be/"@)
    } else if contains(s, "https://youtube.com"@) || contains(s, "https://www.youtube.com"@) {
        second_piece(s, "watch?v="@)
    } else {
        None
    }
}

/// The two thumbnail addresses tried, in order, for the video `id`.
pub open spec fn youtube_thumbnails(id: Seq<char>) -> (Seq<char>, Seq<char>) {
    (
        "https://i.ytimg.com/vi/"@ + id + "/hqdefault.jpg"@,
        "https://i.ytimg.com/vi/"@ + id + "/hq720.jpg"@,
    )
}

/// The thumbnail addresses to try for the YouTube address `infile`; none
/// when no video identifier can be cut from it.
pub fn youtube_cover_urls(infile: &String) -> (r: Option<(String, String)>)
    ensures
        r is None <==> youtube_id(infile@) is None,
        r matches Some((a, b)) ==> (a@, b@) == youtube_thumbnails(youtube_id(infile@).unwrap()),
{
    let s = chars_of(infile.as_str());
    let marker = if contains_lit(&s, "youtu.be/") {
        chars_of("youtu.be/")
    } else if contains_lit(&s, "https://youtube.com") || contains_lit(&s, "https://www.youtube.com") {
        chars_of("watch?v=")
    } else {
        return None;
    };
    let id = match second_piece_exec(&s, &marker) {
        None => {
            return None;
        },
        Some(v) => v,
    };
    assert(youtube_id(infile@) == Some(id@));
    let mut a = chars_of("https://i.ytimg.com/vi/");
    push_chars(&mut a, &id);
    let mut b = slice_prefix(&a);
    let hq = chars_of("/hqdefault.jpg");
    push_chars(&mut a, &hq);
    let hq720 = chars_of("/hq720.jpg");
    push_chars(&mut b, &hq720);
    Some((string_from_chars(&a), string_from_chars(&b)))
}

/// A copy of `v`.
fn slice_prefix(v: &Vec<char>) -> (r: Vec<char>)
    ensures
        r@ == v@,
{
    crate::text::slice_chars(v, 0, v.len())
}

/// The marker that precedes the cover image in a SoundCloud page.
pub open spec fn soundcloud_marker() -> Seq<char> {
    "src=\"https://i1.sndcdn.com"@
}

/// The cover image address found in the SoundCloud page `page`: the text
/// after the first marker, up to the next `"`, trimmed, behind
/// `https://i1.sndcdn.com`; none when the page holds no marker.
pub open spec fn soundcloud_image_spec(page: Seq<char>) -> Option<Seq<char>> {
    match second_piece(page, soundcloud_marker()) {
        None => None,
        Some(rest) => Some("https://i1.sndcdn.com"@ + trim(first_piece(rest, "\""@))),
    }
}

/// The cover image address found in the SoundCloud page `page`.
pub fn soundcloud_image_link(page: &String) -> (r: Option<String>)
    ensures
        opt_view(r) == soundcloud_image_spec(page@),
{
    let s = chars_of(page.as_str());
    let marker = chars_of("src=\"https://i1.sndcdn.com");
    match second_piece_exec(&s, &marker) {
        None => None,
        Some(rest) => {
            let q = chars_of("\"");
            let before = first_piece_exec(&rest, &q);
            let t = trim_chars(&before);
            let mut link = chars_of("https://i1.sndcdn.com");
            push_chars(&mut link, &t);
            Some(string_from_chars(&link))
        },
    }
}

} // verus!
