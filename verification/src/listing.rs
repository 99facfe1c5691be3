//! Playlists from the JSON lines that `yt-dlp --dump-json` prints.

use vstd::prelude::*;
use crate::json::{JsonValue, parse_json, spec_parse_json};
use crate::models::{EntryView, PlaylistEntry, PlaylistInfo, PlaylistView};
use crate::text::{decimal, decimal_string, from_chars, lines, lines_exec, to_chars, trim, trim_bounds};

verus! {

broadcast use vstd::string::group_string_axioms;

// ---------------------------------------------------------------------------
// Specification
// ---------------------------------------------------------------------------

/// The text of a string member, if the member is there and is a string.
pub open spec fn field_text(info: JsonValue, key: Seq<char>) -> Option<Seq<char>> {
    match info.field(key) {
        Some(v) => v.str_value(),
        None => None,
    }
}

/// The thumbnail of a listed video: its `thumbnail`, or else the `url` of the
/// last of its `thumbnails`.
pub open spec fn thumbnail_of(info: JsonValue) -> Option<Seq<char>> {
    match field_text(info, "thumbnail"@) {
        Some(t) => Some(t),
        None => match info.field("thumbnails"@) {
            Some(v) => match v.items() {
                Some(items) => if items.len() > 0 {
                    field_text(items.last(), "url"@)
                } else {
                    None
                },
                None => None,
            },
            None => None,
        },
    }
}

/// The first of the members `keys` that is there and is a string.
pub open spec fn first_text(info: JsonValue, keys: Seq<Seq<char>>) -> Option<Seq<char>>
    decreases keys.len(),
{
    if keys.len() == 0 {
        None
    } else {
        match field_text(info, keys[0]) {
            Some(t) => Some(t),
            None => first_text(info, keys.drop_first()),
        }
    }
}

/// The link of a listed video: its page link (`webpage_url`, then
/// `original_url`) before the raw link that the extractor gives (`url`), the
/// first of them that is a string; else empty.
pub open spec fn link_of(info: JsonValue) -> Seq<char> {
    match first_text(info, seq!["webpage_url"@, "original_url"@, "url"@]) {
        Some(s) => s,
        None => Seq::empty(),
    }
}

/// The playlist entry for the video described on line number `idx` (from 0).
pub open spec fn entry_of(info: JsonValue, idx: int) -> EntryView {
    EntryView {
        title: match field_text(info, "title"@) {
            Some(t) => t,
            None => "Track "@ + decimal((idx + 1) as nat),
        },
        url: link_of(info),
        thumbnail: thumbnail_of(info),
        duration: match info.field("duration"@) {
            Some(v) => v.number_text(),
            None => None,
        },
        index: idx + 1,
    }
}

/// The entry that line number `idx` gives: none for a blank line or a line
/// that is not a JSON document.
pub open spec fn line_entry(line: Seq<char>, idx: int) -> Option<EntryView> {
    if trim(line).len() == 0 {
        None
    } else {
        match spec_parse_json(line) {
            Some(info) => Some(entry_of(info, idx)),
            None => None,
        }
    }
}

/// The entries of the first `n` lines.
pub open spec fn entries_of(ls: Seq<Seq<char>>, n: int) -> Seq<EntryView>
    decreases n,
{
    if n <= 0 {
        Seq::empty()
    } else {
        let prev = entries_of(ls, n - 1);
        match line_entry(ls[n - 1], n - 1) {
            Some(e) => prev.push(e),
            None => prev,
        }
    }
}

/// The playlist title: the `playlist_title` of the video on the first line,
/// when there is one, else `"Downloads"`.
pub open spec fn listing_title(ls: Seq<Seq<char>>) -> Seq<char> {
    let fallback = "Downloads"@;
    if ls.len() > 0 && trim(ls[0]).len() > 0 {
        match spec_parse_json(ls[0]) {
            Some(info) => match field_text(info, "playlist_title"@) {
                Some(t) => t,
                None => fallback,
            },
            None => fallback,
        }
    } else {
        fallback
    }
}

/// The playlist that the listing `out` describes.
pub open spec fn listing_playlist(out: Seq<char>) -> PlaylistView {
    let ls = lines(out);
    let es = entries_of(ls, ls.len() as int);
    PlaylistView { title: listing_title(ls), entries: es, total: es.len() as int }
}

/// The result of a listing run: an error with the error output when the run
/// failed and printed nothing, else the playlist it printed.
pub open spec fn listing_result(success: bool, out: Seq<char>, err: Seq<char>) -> Result<PlaylistView, Seq<char>> {
    if !success && out.len() == 0 {
        Err("yt-dlp error: "@ + err)
    } else {
        Ok(listing_playlist(out))
    }
}

// ---------------------------------------------------------------------------
// Executable
// ---------------------------------------------------------------------------

/// The text of a string member.
fn field_text_exec(info: &JsonValue, key: &str) -> (r: Option<String>)
    ensures
        crate::models::opt_text(r) == field_text(*info, key@),
{
    match info.get(key) {
        Some(v) => match v.as_str() {
            Some(s) => Some(s.clone()),
            None => None,
        },
        None => None,
    }
}

/// The playlist entry for the video that the parsed line `info` describes,
/// on line number `idx` (from 0).
pub fn listing_entry(info: &JsonValue, idx: usize) -> (r: PlaylistEntry)
    requires
        idx < usize::MAX,
    ensures
        r@ == entry_of(*info, idx as int),
{
    let title = match field_text_exec(info, "title") {
        Some(t) => t,
        None => {
            let mut t = String::from_str("Track ");
            let d = decimal_string((idx + 1) as u64);
            t.append(d.as_str());
            t
        },
    };
    let link = match field_text_exec(info, "webpage_url") {
        Some(t) => Some(t),
        None => match field_text_exec(info, "original_url") {
            Some(t) => Some(t),
            None => field_text_exec(info, "url"),
        },
    };
    proof {
        let keys = seq!["webpage_url"@, "original_url"@, "url"@];
        assert(keys.drop_first() =~= seq!["original_url"@, "url"@]);
        assert(keys.drop_first().drop_first() =~= seq!["url"@]);
        assert(keys.drop_first().drop_first().drop_first() =~= Seq::<Seq<char>>::empty());
        reveal_with_fuel(first_text, 4);
    }
    let url = match link {
        Some(s) => s,
        None => String::new(),
    };
    let thumbnail = match field_text_exec(info, "thumbnail") {
        Some(t) => Some(t),
        None => match info.get("thumbnails") {
            Some(v) => match v.as_array() {
                Some(items) => if items.len() > 0 {
                    field_text_exec(&items[items.len() - 1], "url")
                } else {
                    None
                },
                None => None,
            },
            None => None,
        },
    };
    let duration = match info.get("duration") {
        Some(v) => match v.as_number_text() {
            Some(n) => Some(n.clone()),
            None => None,
        },
        None => None,
    };
    PlaylistEntry { title, url, thumbnail, duration, index: idx + 1 }
}

/// The playlist that the `--dump-json` output `out` describes: one entry per
/// line that holds a JSON document, numbered by line.
pub fn playlist_from_listing_output(out: &str) -> (r: PlaylistInfo)
    ensures
        r@ == listing_playlist(out@),
{
    let chars = to_chars(out);
    let ls = lines_exec(chars.as_slice());
    let ghost lsv = ls@.map_values(|x: Vec<char>| x@);
    let n = ls.len();
    let mut entries: Vec<PlaylistEntry> = Vec::new();
    let mut title = String::from_str("Downloads");
    for idx in 0..n
        invariant
            n == ls@.len(),
            lsv == ls@.map_values(|x: Vec<char>| x@),
            lsv == lines(out@),
            entries@.map_values(|e: PlaylistEntry| e@) == entries_of(lsv, idx as int),
            title@ == if idx == 0 { "Downloads"@ } else { listing_title(lsv) },
    {
        let line = &ls[idx];
        assert(line@ == lsv[idx as int]);
        let (a, b) = trim_bounds(line.as_slice());
        let ghost before = entries@;
        if a < b {
            let text = from_chars(line.as_slice());
            match parse_json(text.as_str()) {
                Some(info) => {
                    let e = listing_entry(&info, idx);
                    let ghost ev = e@;
                    entries.push(e);
                    assert(entries@.map_values(|e: PlaylistEntry| e@) =~= before.map_values(
                        |e: PlaylistEntry| e@,
                    ).push(ev));
                    if idx == 0 {
                        match field_text_exec(&info, "playlist_title") {
                            Some(t) => {
                                title = t;
                            },
                            None => {},
                        }
                    }
                },
                None => {},
            }
        }
    }
    let total = entries.len();
    PlaylistInfo { title, entries, total }
}

/// The playlist that a listing run gave, from whether it succeeded and what it
/// printed on its output and error streams.
pub fn playlist_from_listing(success: bool, out: &str, err: &str) -> (r: Result<PlaylistInfo, String>)
    ensures
        match r {
            Ok(p) => listing_result(success, out@, err@) == Ok::<PlaylistView, Seq<char>>(p@),
            Err(e) => listing_result(success, out@, err@) == Err::<PlaylistView, Seq<char>>(e@),
        },
{
    if !success && out.is_empty() {
        let mut msg = String::from_str("yt-dlp error: ");
        msg.append(err);
        Err(msg)
    } else {
        Ok(playlist_from_listing_output(out))
    }
}

} // verus!
