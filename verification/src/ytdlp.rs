//! The command lines given to yt-dlp, and where a playlist link is read from.

use vstd::prelude::*;
use crate::models::DownloadRequest;
use crate::text::{contains, contains_exec, to_chars};

verus! {

broadcast use vstd::string::group_string_axioms;

/// The texts of a list of arguments.
pub open spec fn arg_texts(v: Seq<String>) -> Seq<Seq<char>> {
    v.map_values(|s: String| s@)
}

/// Appends the argument `a`.
fn push_arg(args: &mut Vec<String>, a: &str)
    ensures
        arg_texts(final(args)@) == arg_texts(old(args)@).push(a@),
{
    let ghost before = args@;
    args.push(String::from_str(a));
    assert(arg_texts(args@) =~= arg_texts(before).push(a@));
}

/// Appends the argument `a`.
fn push_owned_arg(args: &mut Vec<String>, a: String)
    ensures
        arg_texts(final(args)@) == arg_texts(old(args)@).push(a@),
{
    let ghost before = args@;
    let ghost av = a@;
    args.push(a);
    assert(arg_texts(args@) =~= arg_texts(before).push(av));
}

/// The cookie-file arguments: given only when a non-empty cookie path names a
/// file that exists.
pub open spec fn cookie_args(cookies: Option<Seq<char>>, file_exists: bool) -> Seq<Seq<char>> {
    match cookies {
        Some(c) => if c.len() > 0 && file_exists {
            seq!["--cookies"@, c]
        } else {
            Seq::empty()
        },
        None => Seq::empty(),
    }
}

// ---------------------------------------------------------------------------
// Where a link is read from
// ---------------------------------------------------------------------------

/// Where the tracks of a link come from.
#[derive(Debug, Clone, Copy, PartialEq, Eq, Structural)]
pub enum PlaylistSource {
    /// A Spotify playlist or album: its embed page lists the tracks.
    SpotifyCollection,
    /// A single Spotify track: it becomes a search for its title.
    SpotifyTrack,
    /// Anything else: yt-dlp lists it.
    Direct,
}

/// Where the tracks of `url` come from.
pub open spec fn playlist_source_spec(url: Seq<char>) -> PlaylistSource {
    if contains(url, "spotify.com"@) {
        if contains(url, "/playlist/"@) || contains(url, "/album/"@) {
            PlaylistSource::SpotifyCollection
        } else {
            PlaylistSource::SpotifyTrack
        }
    } else {
        PlaylistSource::Direct
    }
}

/// Where the tracks of `url` come from.
pub fn playlist_source(url: &str) -> (r: PlaylistSource)
    ensures
        r == playlist_source_spec(url@),
{
    let u = to_chars(url);
    let sp = to_chars("spotify.com");
    let pl = to_chars("/playlist/");
    let al = to_chars("/album/");
    if contains_exec(u.as_slice(), sp.as_slice()) {
        if contains_exec(u.as_slice(), pl.as_slice()) || contains_exec(u.as_slice(), al.as_slice()) {
            PlaylistSource::SpotifyCollection
        } else {
            PlaylistSource::SpotifyTrack
        }
    } else {
        PlaylistSource::Direct
    }
}

/// The link that searches for the first twenty videos matching `query`.
pub fn search_link(query: &str) -> (r: String)
    ensures
        r@ == "ytsearch20:"@ + query@,
{
    let mut s = String::from_str("ytsearch20:");
    s.append(query);
    s
}

/// The global music-video chart playlist.
pub fn trending_link() -> (r: String)
    ensures
        r@ == "https://www.youtube.com/playlist?list=PL4fGSI1pDJn6jXS_Tv_N9B8Z0HTRVJE0m"@,
{
    String::from_str("https://www.youtube.com/playlist?list=PL4fGSI1pDJn6jXS_Tv_N9B8Z0HTRVJE0m")
}

// ---------------------------------------------------------------------------
// Listing
// ---------------------------------------------------------------------------

/// The arguments that list the videos behind `url` as JSON lines.
pub open spec fn listing_args_spec(url: Seq<char>, cookies: Option<Seq<char>>, file_exists: bool) -> Seq<Seq<char>> {
    seq![
        "--flat-playlist"@,
        "--dump-json"@,
        "--no-warnings"@,
        "-i"@,
        "--no-color"@,
        "--windows-filenames"@,
        "--extractor-args"@,
        "youtube:player_client=android"@,
    ] + cookie_args(cookies, file_exists) + seq![url]
}

/// The arguments that list the videos behind `url` as JSON lines;
/// `cookies_file_exists` tells whether the cookie path names an existing file.
pub fn listing_args(url: &str, cookies_path: &Option<String>, cookies_file_exists: bool) -> (r: Vec<String>)
    ensures
        arg_texts(r@) == listing_args_spec(url@, crate::models::opt_text(*cookies_path), cookies_file_exists),
{
    let mut args: Vec<String> = Vec::new();
    push_arg(&mut args, "--flat-playlist");
    push_arg(&mut args, "--dump-json");
    push_arg(&mut args, "--no-warnings");
    push_arg(&mut args, "-i");
    push_arg(&mut args, "--no-color");
    push_arg(&mut args, "--windows-filenames");
    push_arg(&mut args, "--extractor-args");
    push_arg(&mut args, "youtube:player_client=android");
    append_args(&mut args, cookie_args_exec(cookies_path, cookies_file_exists));
    push_arg(&mut args, url);
    proof {
        let b = seq![
            "--flat-playlist"@,
            "--dump-json"@,
            "--no-warnings"@,
            "-i"@,
            "--no-color"@,
            "--windows-filenames"@,
            "--extractor-args"@,
            "youtube:player_client=android"@,
        ];
        assert(arg_texts(args@) =~= b + cookie_args(crate::models::opt_text(*cookies_path), cookies_file_exists) + seq![url@]);
    }
    args
}

// ---------------------------------------------------------------------------
// Downloading
// ---------------------------------------------------------------------------

/// The formats that are downloaded as audio.
pub open spec fn audio_formats() -> Seq<Seq<char>> {
    seq![
        "mp3"@,
        "m4a"@,
        "wav"@,
        "flac"@,
        "aac"@,
        "ogg"@,
        "opus"@,
        "wma"@,
        "alac"@,
        "aiff"@,
    ]
}

/// The codec that yt-dlp converts audio to for `format`.
pub open spec fn audio_codec(format: Seq<char>) -> Seq<char> {
    if format == "ogg"@ {
        "vorbis"@
    } else {
        format
    }
}

/// The audio quality level for a quality name.
pub open spec fn audio_quality(quality: Seq<char>) -> Seq<char> {
    if quality == "good"@ {
        "2"@
    } else if quality == "worst"@ {
        "9"@
    } else {
        "0"@
    }
}

/// The video format selection for a quality name.
pub open spec fn video_selection(quality: Seq<char>) -> Seq<char> {
    if quality == "4k"@ {
        "bestvideo[height<=2160]+bestaudio/best"@
    } else if quality == "1080p"@ {
        "bestvideo[height<=1080]+bestaudio/best"@
    } else if quality == "720p"@ {
        "bestvideo[height<=720]+bestaudio/best"@
    } else if quality == "480p"@ {
        "bestvideo[height<=480]+bestaudio/best"@
    } else if quality == "worst"@ {
        "worstvideo+worstaudio/worst"@
    } else {
        "bestvideo+bestaudio/best"@
    }
}

/// The arguments that select and convert the format.
pub open spec fn format_args(format: Seq<char>, quality: Seq<char>) -> Seq<Seq<char>> {
    if audio_formats().contains(format) {
        seq![
            "-f"@,
            "bestaudio/best"@,
            "-x"@,
            "--audio-format"@,
            audio_codec(format),
            "--audio-quality"@,
            audio_quality(quality),
        ]
    } else {
        seq!["-f"@, video_selection(quality), "--merge-output-format"@, format]
    }
}

/// The arguments that embed metadata and the thumbnail, when tagging is on.
pub open spec fn tagging_args(auto_tagging: bool) -> Seq<Seq<char>> {
    if auto_tagging {
        seq!["--embed-metadata"@, "--embed-thumbnail"@, "--convert-thumbnails"@, "jpg"@]
    } else {
        Seq::empty()
    }
}

/// The arguments that download `url` into `folder` in `format` at `quality`.
pub open spec fn download_args_spec(
    url: Seq<char>,
    format: Seq<char>,
    folder: Seq<char>,
    cookies: Option<Seq<char>>,
    quality: Seq<char>,
    file_exists: bool,
    auto_tagging: bool,
) -> Seq<Seq<char>> {
    seq![
        "--newline"@,
        "--no-color"@,
        "--progress"@,
        "--windows-filenames"@,
        "-o"@,
        folder + "/%(title)s.%(ext)s"@,
        "--extractor-args"@,
        "youtube:player_client=android"@,
        "--postprocessor-args"@,
        "ffmpeg:-threads 0"@,
    ] + format_args(format, quality) + cookie_args(cookies, file_exists) + tagging_args(auto_tagging)
        + seq![url]
}

/// Whether `format` is downloaded as audio.
fn is_audio_format(format: &String) -> (r: bool)
    ensures
        r == audio_formats().contains(format@),
{
    let names = ["mp3", "m4a", "wav", "flac", "aac", "ogg", "opus", "wma", "alac", "aiff"];
    let mut i: usize = 0;
    let ghost fs = audio_formats();
    while i < 10
        invariant
            i <= 10,
            fs == audio_formats(),
            forall|j: int| 0 <= j < 10 ==> #[trigger] names@[j]@ == fs[j],
            forall|j: int| 0 <= j < i ==> fs[j] != format@,
        decreases 10 - i,
    {
        if *format == String::from_str(names[i]) {
            assert(fs[i as int] == format@);
            return true;
        }
        i = i + 1;
    }
    assert forall|x: Seq<char>| fs.contains(x) implies x != format@ by {
        let j = choose|j: int| 0 <= j < fs.len() && fs[j] == x;
        assert(fs[j] != format@);
    }
    false
}

/// The audio quality level for a quality name.
fn audio_quality_exec(quality: &String) -> (r: &'static str)
    ensures
        r@ == audio_quality(quality@),
{
    proof {
        reveal_strlit("best");
        reveal_strlit("good");
        reveal_strlit("worst");
        assert("best"@[0] != "good"@[0]);
        assert("best"@[0] != "worst"@[0]);
    }
    if *quality == String::from_str("best") {
        "0"
    } else if *quality == String::from_str("good") {
        "2"
    } else if *quality == String::from_str("worst") {
        "9"
    } else {
        "0"
    }
}

/// The video format selection for a quality name.
fn video_selection_exec(quality: &String) -> (r: &'static str)
    ensures
        r@ == video_selection(quality@),
{
    if *quality == String::from_str("4k") {
        "bestvideo[height<=2160]+bestaudio/best"
    } else if *quality == String::from_str("1080p") {
        "bestvideo[height<=1080]+bestaudio/best"
    } else if *quality == String::from_str("720p") {
        "bestvideo[height<=720]+bestaudio/best"
    } else if *quality == String::from_str("480p") {
        "bestvideo[height<=480]+bestaudio/best"
    } else if *quality == String::from_str("worst") {
        "worstvideo+worstaudio/worst"
    } else {
        "bestvideo+bestaudio/best"
    }
}

/// The arguments that select and convert the format.
fn format_args_exec(format: &String, quality: &String) -> (r: Vec<String>)
    ensures
        arg_texts(r@) == format_args(format@, quality@),
{
    let mut args: Vec<String> = Vec::new();
    if is_audio_format(format) {
        let codec = if *format == String::from_str("ogg") {
            String::from_str("vorbis")
        } else {
            format.clone()
        };
        push_arg(&mut args, "-f");
        push_arg(&mut args, "bestaudio/best");
        push_arg(&mut args, "-x");
        push_arg(&mut args, "--audio-format");
        push_owned_arg(&mut args, codec);
        push_arg(&mut args, "--audio-quality");
        push_arg(&mut args, audio_quality_exec(quality));
    } else {
        push_arg(&mut args, "-f");
        push_arg(&mut args, video_selection_exec(quality));
        push_arg(&mut args, "--merge-output-format");
        push_owned_arg(&mut args, format.clone());
    }
    assert(arg_texts(args@) =~= format_args(format@, quality@));
    args
}

/// The cookie-file arguments.
fn cookie_args_exec(cookies_path: &Option<String>, file_exists: bool) -> (r: Vec<String>)
    ensures
        arg_texts(r@) == cookie_args(crate::models::opt_text(*cookies_path), file_exists),
{
    let mut args: Vec<String> = Vec::new();
    match cookies_path {
        Some(cp) => {
            if !cp.as_str().is_empty() && file_exists {
                push_arg(&mut args, "--cookies");
                push_owned_arg(&mut args, cp.clone());
            }
        },
        None => {},
    }
    assert(arg_texts(args@) =~= cookie_args(crate::models::opt_text(*cookies_path), file_exists));
    args
}

/// Appends the arguments `more`.
fn append_args(args: &mut Vec<String>, more: Vec<String>)
    ensures
        arg_texts(final(args)@) == arg_texts(old(args)@) + arg_texts(more@),
{
    let ghost before = args@;
    let mut more = more;
    let ghost mv = more@;
    args.append(&mut more);
    assert(arg_texts(args@) =~= arg_texts(before) + arg_texts(mv));
}

/// The arguments that download the requested URL; `cookies_file_exists` tells
/// whether the cookie path names an existing file, `auto_tagging` whether
/// metadata is to be embedded.
pub fn download_args(request: &DownloadRequest, cookies_file_exists: bool, auto_tagging: bool) -> (r: Vec<String>)
    ensures
        arg_texts(r@) == download_args_spec(
            request.url@,
            request.format@,
            request.folder@,
            crate::models::opt_text(request.cookies_path),
            request.quality@,
            cookies_file_exists,
            auto_tagging,
        ),
{
    let mut args: Vec<String> = Vec::new();
    push_arg(&mut args, "--newline");
    push_arg(&mut args, "--no-color");
    push_arg(&mut args, "--progress");
    push_arg(&mut args, "--windows-filenames");
    push_arg(&mut args, "-o");
    let mut out = request.folder.clone();
    out.append("/%(title)s.%(ext)s");
    push_owned_arg(&mut args, out);
    push_arg(&mut args, "--extractor-args");
    push_arg(&mut args, "youtube:player_client=android");
    push_arg(&mut args, "--postprocessor-args");
    push_arg(&mut args, "ffmpeg:-threads 0");
    let ghost base = arg_texts(args@);
    append_args(&mut args, format_args_exec(&request.format, &request.quality));
    append_args(&mut args, cookie_args_exec(&request.cookies_path, cookies_file_exists));
    let mut tags: Vec<String> = Vec::new();
    if auto_tagging {
        push_arg(&mut tags, "--embed-metadata");
        push_arg(&mut tags, "--embed-thumbnail");
        push_arg(&mut tags, "--convert-thumbnails");
        push_arg(&mut tags, "jpg");
    }
    assert(arg_texts(tags@) =~= tagging_args(auto_tagging));
    append_args(&mut args, tags);
    push_owned_arg(&mut args, request.url.clone());
    proof {
        let b = seq![
            "--newline"@,
            "--no-color"@,
            "--progress"@,
            "--windows-filenames"@,
            "-o"@,
            request.folder@ + "/%(title)s.%(ext)s"@,
            "--extractor-args"@,
            "youtube:player_client=android"@,
            "--postprocessor-args"@,
            "ffmpeg:-threads 0"@,
        ];
        assert(base =~= b);
    }
    args
}

} // verus!
