//! Spotify pages: collections read from the embed page's data block, single
//! tracks turned into a search by their page title.

use vstd::prelude::*;
use crate::json::{JsonValue, parse_json, spec_parse_json};
use crate::models::{
    EntryView, PlaylistEntry, PlaylistInfo, PlaylistView, playlist_of, search_entry,
    search_entry_view,
};
use crate::text::{
    contains, contains_exec, find, find_exec, from_chars, lemma_find, matches_at, replace_all,
    replace_exec, slice_to_string, to_chars, trim, trim_to_string,
};
use vstd::slice::slice_subrange;

verus! {

broadcast use vstd::string::group_string_axioms;

// ---------------------------------------------------------------------------
// Shared helpers
// ---------------------------------------------------------------------------

/// `s` with every `from` replaced by `to`, `from` being non-empty.
pub fn replace_text(s: &[char], from: &str, to: &str) -> (r: Vec<char>)
    requires
        from@.len() > 0,
    ensures
        r@ == replace_all(s@, from@, to@),
{
    let f = to_chars(from);
    let t = to_chars(to);
    replace_exec(s, f.as_slice(), t.as_slice())
}

/// The member `key` of the value that `v` stands for, where `None` stands
/// for `Null` (as `value[key]`).
pub open spec fn or_null(v: Option<JsonValue>) -> JsonValue {
    match v {
        Some(x) => x,
        None => JsonValue::Null,
    }
}

/// The member `key` of `v` (as `v[key]`, `None` standing for `Null`).
pub fn member<'a>(v: Option<&'a JsonValue>, key: &str) -> (r: Option<&'a JsonValue>)
    ensures
        match r {
            Some(x) => *x == or_null(
                match v {
                    Some(y) => Some(*y),
                    None => None,
                },
            ).at(key@),
            None => or_null(
                match v {
                    Some(y) => Some(*y),
                    None => None,
                },
            ).at(key@) == JsonValue::Null,
        },
{
    match v {
        Some(x) => x.get(key),
        None => None,
    }
}

/// The text of a string value, `None` standing for `Null`.
pub fn text_of(v: Option<&JsonValue>) -> (r: Option<String>)
    ensures
        crate::models::opt_text(r) == or_null(
            match v {
                Some(y) => Some(*y),
                None => None,
            },
        ).str_value(),
{
    match v {
        Some(x) => match x.as_str() {
            Some(s) => Some(s.clone()),
            None => None,
        },
        None => None,
    }
}

/// The text between the first `open` marker in `body` and the first `close`
/// marker after it.
pub open spec fn block_after(body: Seq<char>, open: Seq<char>, close: Seq<char>) -> Option<Seq<char>> {
    match find(body, open) {
        Some(s) => {
            let off = s + open.len();
            match find(body.subrange(off, body.len() as int), close) {
                Some(e) => Some(body.subrange(off, off + e)),
                None => None,
            }
        },
        None => None,
    }
}

/// The text between the first `open` marker in `body` and the first `close`
/// marker after it.
pub fn block_after_exec(body: &[char], open: &str, close: &str) -> (r: Option<String>)
    ensures
        crate::models::opt_text(r) == block_after(body@, open@, close@),
{
    let o = to_chars(open);
    let c = to_chars(close);
    match find_exec(body, o.as_slice()) {
        Some(s) => {
            proof {
                lemma_find(body@, open@);
                assert(s + o@.len() <= body@.len());
            }
            let blen = body.len();
            let olen = o.len();
            assert(blen == body@.len() && olen == o@.len());
            let off = s + o.len();
            let rest = slice_subrange(body, off, body.len());
            match find_exec(rest, c.as_slice()) {
                Some(e) => {
                    proof {
                        lemma_find(rest@, close@);
                    }
                    Some(slice_to_string(body, off, off + e))
                },
                None => None,
            }
        },
        None => None,
    }
}

/// `"&#39;"` and `"&amp;"` decoded, in that order.
pub open spec fn decode_basic_entities(s: Seq<char>) -> Seq<char> {
    replace_all(replace_all(s, "&#39;"@, "'"@), "&amp;"@, "&"@)
}

fn decode_basic_entities_exec(s: &[char]) -> (r: Vec<char>)
    ensures
        r@ == decode_basic_entities(s@),
{
    proof {
        reveal_strlit("&#39;");
        reveal_strlit("&amp;");
    }
    let a = replace_text(s, "&#39;", "'");
    replace_text(a.as_slice(), "&amp;", "&")
}

// ---------------------------------------------------------------------------
// Collections
// ---------------------------------------------------------------------------

/// The embeddable page of a playlist or album link.
pub open spec fn embed_url_spec(url: Seq<char>) -> Seq<char> {
    if contains(url, "/playlist/"@) {
        replace_all(url, "/playlist/"@, "/embed/playlist/"@)
    } else if contains(url, "/album/"@) {
        replace_all(url, "/album/"@, "/embed/album/"@)
    } else {
        url
    }
}

/// The embeddable page of a playlist or album link.
pub fn embed_url(url: &str) -> (r: String)
    ensures
        r@ == embed_url_spec(url@),
{
    proof {
        reveal_strlit("/playlist/");
        reveal_strlit("/album/");
    }
    let u = to_chars(url);
    let pl = to_chars("/playlist/");
    let al = to_chars("/album/");
    if contains_exec(u.as_slice(), pl.as_slice()) {
        from_chars(replace_text(u.as_slice(), "/playlist/", "/embed/playlist/").as_slice())
    } else if contains_exec(u.as_slice(), al.as_slice()) {
        from_chars(replace_text(u.as_slice(), "/album/", "/embed/album/").as_slice())
    } else {
        String::from_str(url)
    }
}

/// The data object that describes the collection.
pub open spec fn spotify_entity(json: JsonValue) -> JsonValue {
    json.at("props"@).at("pageProps"@).at("state"@).at("data"@).at("entity"@)
}

/// The collection's title: its `name`, else its `title`, else a fixed one.
pub open spec fn spotify_title(entity: JsonValue) -> Seq<char> {
    match entity.at("name"@).str_value() {
        Some(n) => n,
        None => match entity.at("title"@).str_value() {
            Some(t) => t,
            None => "Spotify Playlist"@,
        },
    }
}

/// The entries for the first `n` items of a track list: one per item that
/// has a `title` and a `subtitle` (the artists), numbered by position.
pub open spec fn spotify_entries(tracks: Seq<JsonValue>, n: int) -> Seq<EntryView>
    decreases n,
{
    if n <= 0 {
        Seq::empty()
    } else {
        let prev = spotify_entries(tracks, n - 1);
        let t = tracks[n - 1];
        match (t.at("title"@).str_value(), t.at("subtitle"@).str_value()) {
            (Some(title), Some(sub)) => prev.push(
                search_entry_view(
                    decode_basic_entities(sub) + " - "@ + decode_basic_entities(title),
                    n,
                ),
            ),
            _ => prev,
        }
    }
}

/// The message when a collection page cannot be read.
pub open spec fn spotify_failure() -> Seq<char> {
    "Could not parse Spotify playlist/album"@
}

/// The marker before the embed page's data block.
pub open spec fn spotify_data_marker() -> Seq<char> {
    "<script id=\"__NEXT_DATA__\" type=\"application/json\">"@
}

/// The playlist that the data block `json` of a Spotify embed page
/// describes: one search entry per listed track, or an error when it lists
/// none.
pub open spec fn spotify_json_playlist(json: JsonValue) -> Result<PlaylistView, Seq<char>> {
    let entity = spotify_entity(json);
    let es = match entity.at("trackList"@).items() {
        Some(ts) => spotify_entries(ts, ts.len() as int),
        None => Seq::empty(),
    };
    if es.len() > 0 {
        Ok(PlaylistView { title: spotify_title(entity), entries: es, total: es.len() as int })
    } else {
        Err(spotify_failure())
    }
}

/// The playlist that a Spotify embed page describes.
pub open spec fn spotify_playlist_spec(body: Seq<char>) -> Result<PlaylistView, Seq<char>> {
    match block_after(body, spotify_data_marker(), "</script>"@) {
        Some(text) => match spec_parse_json(text) {
            Some(json) => spotify_json_playlist(json),
            None => Err(spotify_failure()),
        },
        None => Err(spotify_failure()),
    }
}

/// The entries of a track list: one search entry per item that has a
/// `title` and a `subtitle`, numbered by position.
pub fn spotify_track_entries(tracks: &Vec<JsonValue>) -> (r: Vec<PlaylistEntry>)
    ensures
        r@.map_values(|e: PlaylistEntry| e@) == spotify_entries(tracks@, tracks@.len() as int),
{
    let mut out: Vec<PlaylistEntry> = Vec::new();
    let n = tracks.len();
    for i in 0..n
        invariant
            n == tracks@.len(),
            out@.map_values(|e: PlaylistEntry| e@) == spotify_entries(tracks@, i as int),
    {
        let t = &tracks[i];
        let title = text_of(member(Some(t), "title"));
        let sub = text_of(member(Some(t), "subtitle"));
        let ghost before = out@;
        match (title, sub) {
            (Some(title), Some(sub)) => {
                let ct = decode_basic_entities_exec(to_chars(title.as_str()).as_slice());
                let cs = decode_basic_entities_exec(to_chars(sub.as_str()).as_slice());
                let mut name = from_chars(cs.as_slice());
                name.append(" - ");
                let ct_s = from_chars(ct.as_slice());
                name.append(ct_s.as_str());
                let e = search_entry(name, i + 1);
                let ghost ev = e@;
                out.push(e);
                assert(out@.map_values(|e: PlaylistEntry| e@) =~= before.map_values(
                    |e: PlaylistEntry| e@,
                ).push(ev));
            },
            _ => {},
        }
    }
    out
}

/// The playlist that the parsed data block of a Spotify embed page
/// describes: one search entry per listed track, or an error when it lists
/// none.
pub fn spotify_playlist_from_json(json: &JsonValue) -> (r: Result<PlaylistInfo, String>)
    ensures
        match r {
            Ok(p) => spotify_json_playlist(*json) == Ok::<PlaylistView, Seq<char>>(p@),
            Err(e) => spotify_json_playlist(*json) == Err::<PlaylistView, Seq<char>>(e@),
        },
{
    let e0 = member(Some(json), "props");
    let e1 = member(e0, "pageProps");
    let e2 = member(e1, "state");
    let e3 = member(e2, "data");
    let entity = member(e3, "entity");
    let name = text_of(member(entity, "name"));
    let title = match name {
        Some(n) => n,
        None => match text_of(member(entity, "title")) {
            Some(t) => t,
            None => String::from_str("Spotify Playlist"),
        },
    };
    let entries = match member(entity, "trackList") {
        Some(v) => match v.as_array() {
            Some(ts) => spotify_track_entries(ts),
            None => Vec::new(),
        },
        None => Vec::new(),
    };
    if entries.len() > 0 {
        Ok(playlist_of(title, entries))
    } else {
        Err(String::from_str("Could not parse Spotify playlist/album"))
    }
}

/// The playlist (or album) that a Spotify embed page describes: one search
/// entry per listed track, or an error when the page holds none.
pub fn spotify_playlist_from_page(body: &str) -> (r: Result<PlaylistInfo, String>)
    ensures
        match r {
            Ok(p) => spotify_playlist_spec(body@) == Ok::<PlaylistView, Seq<char>>(p@),
            Err(e) => spotify_playlist_spec(body@) == Err::<PlaylistView, Seq<char>>(e@),
        },
{
    let b = to_chars(body);
    let block = block_after_exec(
        b.as_slice(),
        "<script id=\"__NEXT_DATA__\" type=\"application/json\">",
        "</script>",
    );
    match block {
        Some(text) => match parse_json(text.as_str()) {
            Some(json) => spotify_playlist_from_json(&json),
            None => Err(String::from_str("Could not parse Spotify playlist/album")),
        },
        None => Err(String::from_str("Could not parse Spotify playlist/album")),
    }
}

// ---------------------------------------------------------------------------
// Single tracks
// ---------------------------------------------------------------------------

/// The page title with Spotify's decorations removed and HTML entities
/// decoded, in the order they are applied.
pub open spec fn clean_page_title(t: Seq<char>) -> Seq<char> {
    let t = replace_all(t, " | Spotify"@, ""@);
    let t = replace_all(t, " - Spotify"@, ""@);
    let t = replace_all(t, " - song and lyrics by "@, " "@);
    let t = replace_all(t, " - song by "@, " "@);
    let t = replace_all(t, " - playlist by "@, " "@);
    let t = replace_all(t, " - EP by "@, " "@);
    let t = replace_all(t, " - album by "@, " "@);
    let t = replace_all(t, " - single by "@, " "@);
    let t = replace_all(t, "&#39;"@, "'"@);
    let t = replace_all(t, "&amp;"@, "&"@);
    let t = replace_all(t, "&quot;"@, "\""@);
    let t = replace_all(t, "&lt;"@, "<"@);
    replace_all(t, "&gt;"@, ">"@)
}

/// The search that stands for a Spotify track page: the first search result
/// for the page's cleaned `<title>`.
pub open spec fn spotify_search_spec(body: Seq<char>) -> Result<Seq<char>, Seq<char>> {
    match find(body, "<title>"@) {
        Some(s) => match find(body.subrange(s, body.len() as int), "</title>"@) {
            Some(e) => Ok("ytsearch1:"@ + trim(clean_page_title(body.subrange(s + 7, s + e)))),
            None => Err("Could not extract title from Spotify page"@),
        },
        None => Err("Could not extract title from Spotify page"@),
    }
}

fn clean_page_title_exec(t: &[char]) -> (r: Vec<char>)
    ensures
        r@ == clean_page_title(t@),
{
    proof {
        reveal_strlit(" | Spotify");
        reveal_strlit(" - Spotify");
        reveal_strlit(" - song and lyrics by ");
        reveal_strlit(" - song by ");
        reveal_strlit(" - playlist by ");
        reveal_strlit(" - EP by ");
        reveal_strlit(" - album by ");
        reveal_strlit(" - single by ");
        reveal_strlit("&#39;");
        reveal_strlit("&amp;");
        reveal_strlit("&quot;");
        reveal_strlit("&lt;");
        reveal_strlit("&gt;");
        reveal_strlit("");
    }
    let t = replace_text(t, " | Spotify", "");
    let t = replace_text(t.as_slice(), " - Spotify", "");
    let t = replace_text(t.as_slice(), " - song and lyrics by ", " ");
    let t = replace_text(t.as_slice(), " - song by ", " ");
    let t = replace_text(t.as_slice(), " - playlist by ", " ");
    let t = replace_text(t.as_slice(), " - EP by ", " ");
    let t = replace_text(t.as_slice(), " - album by ", " ");
    let t = replace_text(t.as_slice(), " - single by ", " ");
    let t = replace_text(t.as_slice(), "&#39;", "'");
    let t = replace_text(t.as_slice(), "&amp;", "&");
    let t = replace_text(t.as_slice(), "&quot;", "\"");
    let t = replace_text(t.as_slice(), "&lt;", "<");
    replace_text(t.as_slice(), "&gt;", ">")
}

/// `"</title>"` cannot start inside a leading `"<title>"`.
proof fn lemma_title_close_after_open(rest: Seq<char>, e: int)
    requires
        rest.len() >= 7,
        rest.subrange(0, 7) == "<title>"@,
        matches_at(rest, "</title>"@, e),
    ensures
        e >= 7,
{
    reveal_strlit("<title>");
    reveal_strlit("</title>");
    if e < 7 {
        assert(rest[e] == rest.subrange(e, e + 8)[0]);
        assert(rest[e + 1] == rest.subrange(e, e + 8)[1]);
        assert(rest[e] == rest.subrange(0, 7)[e]);
        if e < 6 {
            assert(rest[e + 1] == rest.subrange(0, 7)[e + 1]);
        }
    }
}

/// The search that stands for a Spotify track page.
pub fn spotify_search_from_page(body: &str) -> (r: Result<String, String>)
    ensures
        match r {
            Ok(s) => spotify_search_spec(body@) == Ok::<Seq<char>, Seq<char>>(s@),
            Err(e) => spotify_search_spec(body@) == Err::<Seq<char>, Seq<char>>(e@),
        },
{
    proof {
        reveal_strlit("<title>");
        reveal_strlit("</title>");
    }
    let b = to_chars(body);
    let open = to_chars("<title>");
    let close = to_chars("</title>");
    match find_exec(b.as_slice(), open.as_slice()) {
        Some(s) => {
            proof {
                lemma_find(b@, "<title>"@);
            }
            let rest = slice_subrange(b.as_slice(), s, b.len());
            match find_exec(rest, close.as_slice()) {
                Some(e) => {
                    proof {
                        lemma_find(rest@, "</title>"@);
                        assert(rest@.subrange(0, 7) =~= b@.subrange(s as int, s + 7));
                        lemma_title_close_after_open(rest@, e as int);
                    }
                    let inner = slice_subrange(b.as_slice(), s + 7, s + e);
                    let cleaned = clean_page_title_exec(inner);
                    let query = trim_to_string(cleaned.as_slice());
                    let mut out = String::from_str("ytsearch1:");
                    out.append(query.as_str());
                    Ok(out)
                },
                None => Err(String::from_str("Could not extract title from Spotify page")),
            }
        },
        None => Err(String::from_str("Could not extract title from Spotify page")),
    }
}

} // verus!
