//! Apple Music pages: playlists and albums read from the page's structured
//! data blocks.

use vstd::prelude::*;
use crate::json::{JsonValue, parse_json, spec_parse_json};
use crate::models::{EntryView, PlaylistEntry, PlaylistInfo, PlaylistView, playlist_of, search_entry, search_entry_view};
use crate::spotify::{member, text_of};
use crate::text::{find, find_exec, lemma_find, slice_to_string, to_chars};
use vstd::slice::slice_subrange;

verus! {

broadcast use vstd::string::group_string_axioms;

/// The marker before a structured data block.
pub open spec fn data_block_marker() -> Seq<char> {
    "<script type=\"application/ld+json\">"@
}

/// The message when no block of the page describes a playlist with tracks.
pub open spec fn apple_failure() -> Seq<char> {
    "Konnte Apple Music Playlist nicht auswerten. Bitte stelle sicher, dass die Playlist öffentlich ist."@
}

/// The entries for the first `n` items of a track list: one per recording
/// that names its title and its artist, numbered by position.
pub open spec fn apple_entries(tracks: Seq<JsonValue>, n: int) -> Seq<EntryView>
    decreases n,
{
    if n <= 0 {
        Seq::empty()
    } else {
        let prev = apple_entries(tracks, n - 1);
        let t = tracks[n - 1];
        let artist = t.at("byArtist"@);
        if t.at("@type"@).str_value() == Some("MusicRecording"@) && artist.is_object() {
            match (t.at("name"@).str_value(), artist.at("name"@).str_value()) {
                (Some(title), Some(name)) => prev.push(search_entry_view(name + " - "@ + title, n)),
                _ => prev,
            }
        } else {
            prev
        }
    }
}

/// The playlist that one parsed data block describes, when it is a playlist
/// or album with at least one usable track.
pub open spec fn apple_json_playlist(json: JsonValue) -> Option<PlaylistView> {
    let kind = json.at("@type"@).str_value();
    if kind == Some("MusicPlaylist"@) || kind == Some("MusicAlbum"@) {
        let es = match json.at("track"@).items() {
            Some(ts) => apple_entries(ts, ts.len() as int),
            None => Seq::empty(),
        };
        let title = match json.at("name"@).str_value() {
            Some(n) => n,
            None => "Apple Music Playlist"@,
        };
        if es.len() > 0 {
            Some(PlaylistView { title, entries: es, total: es.len() as int })
        } else {
            None
        }
    } else {
        None
    }
}

/// The playlist that one data block describes, when it is a playlist or album
/// with at least one usable track.
pub open spec fn apple_block_playlist(text: Seq<char>) -> Option<PlaylistView> {
    match spec_parse_json(text) {
        Some(json) => apple_json_playlist(json),
        None => None,
    }
}

/// The first playlist described by a data block that starts at or after
/// position `pos` of `body`.
pub open spec fn apple_scan(body: Seq<char>, pos: int) -> Option<PlaylistView>
    decreases body.len() - pos,
{
    if pos < 0 || pos > body.len() {
        None
    } else {
        match find(body.subrange(pos, body.len() as int), data_block_marker()) {
            Some(s) => {
                let off = pos + s + 35;
                match find(body.subrange(off, body.len() as int), "</script>"@) {
                    Some(e) => match apple_block_playlist(body.subrange(off, off + e)) {
                        Some(p) => Some(p),
                        None => if pos < off + e <= body.len() {
                            apple_scan(body, off + e)
                        } else {
                            None
                        },
                    },
                    None => None,
                }
            },
            None => None,
        }
    }
}

/// The playlist that an Apple Music page describes.
pub open spec fn apple_playlist_spec(body: Seq<char>) -> Result<PlaylistView, Seq<char>> {
    match apple_scan(body, 0) {
        Some(p) => Ok(p),
        None => Err(apple_failure()),
    }
}

/// The entries of a track list: one search entry per recording that names
/// its title and its artist, numbered by position.
pub fn apple_track_entries(tracks: &Vec<JsonValue>) -> (r: Vec<PlaylistEntry>)
    ensures
        r@.map_values(|e: PlaylistEntry| e@) == apple_entries(tracks@, tracks@.len() as int),
{
    let mut out: Vec<PlaylistEntry> = Vec::new();
    let n = tracks.len();
    for i in 0..n
        invariant
            n == tracks@.len(),
            out@.map_values(|e: PlaylistEntry| e@) == apple_entries(tracks@, i as int),
    {
        let t = &tracks[i];
        let kind = text_of(member(Some(t), "@type"));
        let artist = member(Some(t), "byArtist");
        let is_obj = match artist {
            Some(a) => a.object_check(),
            None => false,
        };
        let ghost before = out@;
        let recording = match kind {
            Some(k) => k == String::from_str("MusicRecording"),
            None => false,
        };
        if recording && is_obj {
            let title = text_of(member(Some(t), "name"));
            let name = text_of(member(artist, "name"));
            match (title, name) {
                (Some(title), Some(name)) => {
                    let mut full = name;
                    full.append(" - ");
                    full.append(title.as_str());
                    let e = search_entry(full, i + 1);
                    let ghost ev = e@;
                    out.push(e);
                    assert(out@.map_values(|e: PlaylistEntry| e@) =~= before.map_values(
                        |e: PlaylistEntry| e@,
                    ).push(ev));
                },
                _ => {},
            }
        }
    }
    out
}

/// The playlist that one parsed data block of an Apple Music page describes,
/// when it is a playlist or album with at least one usable track.
pub fn apple_playlist_from_json(json: &JsonValue) -> (r: Option<PlaylistInfo>)
    ensures
        match r {
            Some(p) => apple_json_playlist(*json) == Some(p@),
            None => apple_json_playlist(*json) is None,
        },
{
    let kind = text_of(member(Some(json), "@type"));
    let wanted = match kind {
        Some(k) => k == String::from_str("MusicPlaylist") || k == String::from_str("MusicAlbum"),
        None => false,
    };
    if !wanted {
        return None;
    }
    let title = match text_of(member(Some(json), "name")) {
        Some(n) => n,
        None => String::from_str("Apple Music Playlist"),
    };
    let entries = match member(Some(json), "track") {
        Some(v) => match v.as_array() {
            Some(ts) => apple_track_entries(ts),
            None => Vec::new(),
        },
        None => Vec::new(),
    };
    if entries.len() > 0 {
        Some(playlist_of(title, entries))
    } else {
        None
    }
}

/// The playlist that one data block describes, if any.
fn apple_block_exec(text: &String) -> (r: Option<PlaylistInfo>)
    ensures
        match r {
            Some(p) => apple_block_playlist(text@) == Some(p@),
            None => apple_block_playlist(text@) is None,
        },
{
    match parse_json(text.as_str()) {
        Some(json) => apple_playlist_from_json(&json),
        None => None,
    }
}

/// The playlist (or album) that an Apple Music page describes: the first
/// structured data block that is a playlist or album with usable tracks, or an
/// error when there is none.
pub fn apple_music_playlist_from_page(body: &str) -> (r: Result<PlaylistInfo, String>)
    ensures
        match r {
            Ok(p) => apple_playlist_spec(body@) == Ok::<PlaylistView, Seq<char>>(p@),
            Err(e) => apple_playlist_spec(body@) == Err::<PlaylistView, Seq<char>>(e@),
        },
{
    proof {
        reveal_strlit("<script type=\"application/ld+json\">");
        reveal_strlit("</script>");
    }
    let b = to_chars(body);
    let marker = to_chars("<script type=\"application/ld+json\">");
    let close = to_chars("</script>");
    let n = b.len();
    let mut pos: usize = 0;
    loop
        invariant
            n == b@.len(),
            b@ == body@,
            pos <= n,
            marker@ == data_block_marker(),
            marker@.len() == 35,
            close@ == "</script>"@,
            close@.len() == 9,
            apple_scan(body@, 0) == apple_scan(body@, pos as int),
        decreases n - pos,
    {
        let rest = slice_subrange(b.as_slice(), pos, n);
        match find_exec(rest, marker.as_slice()) {
            Some(s) => {
                proof {
                    lemma_find(rest@, marker@);
                }
                let off = pos + s + 35;
                let tail = slice_subrange(b.as_slice(), off, n);
                match find_exec(tail, close.as_slice()) {
                    Some(e) => {
                        proof {
                            lemma_find(tail@, close@);
                        }
                        let text = slice_to_string(b.as_slice(), off, off + e);
                        match apple_block_exec(&text) {
                            Some(p) => {
                                return Ok(p);
                            },
                            None => {
                                pos = off + e;
                            },
                        }
                    },
                    None => {
                        return Err(apple_failure_message());
                    },
                }
            },
            None => {
                return Err(apple_failure_message());
            },
        }
    }
}

/// The message when no block of the page describes a playlist with tracks.
fn apple_failure_message() -> (r: String)
    ensures
        r@ == apple_failure(),
{
    String::from_str(
        "Konnte Apple Music Playlist nicht auswerten. Bitte stelle sicher, dass die Playlist öffentlich ist.",
    )
}

} // verus!
