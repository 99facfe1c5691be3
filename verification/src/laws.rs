//! Properties that hold across the library's operations.

use vstd::prelude::*;
use crate::download::{
    ActionView, TrackerView, SessionView, add_path, after_already, after_destination,
    cleanup_files, next_state, spec_begin, spec_cancel, spec_reset, spec_unregister,
    step_events, with_leftovers, without, is_percent_line, exit_outcome_spec, error_lines,
    joined_lines, last_items, quoted_error_lines,
};
use crate::text::{trim, lines, replace_all, starts_with, ends_with, matches_at, signed_decimal};
use crate::models::{EntryView, PlaylistView, search_entry_view};
use crate::listing::{entries_of, listing_result, line_entry, link_of, field_text, first_text};
use crate::spotify::{clean_page_title, spotify_entries, spotify_playlist_spec, block_after, spotify_data_marker, spotify_entity};
use crate::json::spec_parse_json;
use crate::applemusic::{apple_entries, apple_scan, apple_block_playlist, apple_playlist_spec};
use crate::ffmpeg::{output_path_spec, eq_ignore_ascii_case, convert_args_spec, bitrate_args};
use crate::ytdlp::{download_args_spec, listing_args_spec, audio_formats, video_selection, format_args};
use crate::text::decimal;
use crate::utils::{
    PresenceReply, PresenceStep, presence_next_spec, presence_step_spec, winget_outcome_spec, winget_error_spec,
    means_installed, installed_phrases, spec_to_lowercase,
};
use crate::server::{listed_files_spec, route_spec, RequestMethod, RouteView, spec_url_decode, could_be_file_name, requested_name};

verus! {

// ---------------------------------------------------------------------------
// The download session
// ---------------------------------------------------------------------------

/// After a cancel, no further track starts: each is refused as cancelled.
pub proof fn law_cancel_refuses_tracks(s: SessionView)
    ensures
        spec_begin(spec_cancel(s)) == Err::<(), Seq<char>>("Cancelled"@),
        !spec_cancel(s).downloading,
{
}

/// A new batch is not held back by an earlier cancel.
pub proof fn law_reset_accepts_tracks(s: SessionView)
    ensures
        spec_begin(spec_reset(s)) == Ok::<(), Seq<char>>(()),
        spec_reset(s).downloading,
        spec_reset(s).pids == s.pids,
{
}

/// Cancelling leaves no process recorded (all of them were handed over for
/// termination).
pub proof fn law_cancel_forgets_processes(s: SessionView)
    ensures
        spec_cancel(s).pids.len() == 0,
{
}

/// An ended process is forgotten, and every other process is kept in order.
pub proof fn law_unregister_forgets_only_that_process(s: SessionView, pid: u32)
    ensures
        !spec_unregister(s, pid).pids.contains(pid),
        forall|q: u32| q != pid ==> (s.pids.contains(q) <==> spec_unregister(s, pid).pids.contains(q)),
        spec_unregister(s, pid).aborted == s.aborted,
    decreases s.pids.len(),
{
    lemma_without(s.pids, pid);
}

proof fn lemma_push_contains(s: Seq<u32>, x: u32, q: u32)
    ensures
        s.push(x).contains(q) <==> (s.contains(q) || x == q),
{
    if s.push(x).contains(q) {
        let k = choose|k: int| 0 <= k < s.push(x).len() && s.push(x)[k] == q;
        if k < s.len() {
            assert(s[k] == q);
        }
    }
    if s.contains(q) {
        let k = choose|k: int| 0 <= k < s.len() && s[k] == q;
        assert(s.push(x)[k] == q);
    }
    if x == q {
        assert(s.push(x)[s.len() as int] == q);
    }
}

proof fn lemma_without(ps: Seq<u32>, pid: u32)
    ensures
        !without(ps, pid).contains(pid),
        forall|q: u32| q != pid ==> (ps.contains(q) <==> without(ps, pid).contains(q)),
    decreases ps.len(),
{
    if ps.len() > 0 {
        let init = ps.drop_last();
        let x = ps.last();
        lemma_without(init, pid);
        assert(ps =~= init.push(x));
        let w = without(init, pid);
        assert forall|q: u32| q != pid implies (ps.contains(q) <==> without(ps, pid).contains(q)) by {
            lemma_push_contains(init, x, q);
            lemma_push_contains(w, x, q);
        }
        if x != pid {
            lemma_push_contains(w, x, pid);
        }
    }
}

// ---------------------------------------------------------------------------
// Following a download
// ---------------------------------------------------------------------------

/// No file is recorded twice.
pub open spec fn distinct_paths(ps: Seq<Seq<char>>) -> bool {
    forall|i: int, j: int| 0 <= i < j < ps.len() ==> ps[i] != ps[j]
}

/// `a` is a prefix of `b`.
pub open spec fn is_prefix(a: Seq<Seq<char>>, b: Seq<Seq<char>>) -> bool {
    a.len() <= b.len() && forall|i: int| 0 <= i < a.len() ==> a[i] == b[i]
}

proof fn lemma_add_path(ps: Seq<Seq<char>>, p: Seq<char>)
    ensures
        distinct_paths(ps) ==> distinct_paths(add_path(ps, p)),
        is_prefix(ps, add_path(ps, p)),
        add_path(ps, p).contains(p),
{
    if !ps.contains(p) {
        assert(ps.push(p)[ps.len() as int] == p);
        if distinct_paths(ps) {
            assert forall|i: int, j: int| 0 <= i < j < ps.push(p).len() implies ps.push(p)[i] != ps.push(p)[j] by {
                if j == ps.len() {
                    if ps[i] == p {
                        assert(ps.contains(p));
                    }
                }
            }
        }
    }
}

/// A line never records a file twice, never forgets a recorded file, and
/// leaves the track's position in the batch as it was.
pub proof fn law_step_keeps_files(st: TrackerView, line: Seq<char>, stem: Option<Seq<char>>)
    ensures
        distinct_paths(st.paths) ==> distinct_paths(next_state(st, line, stem).paths),
        is_prefix(st.paths, next_state(st, line, stem).paths),
        next_state(st, line, stem).index == st.index,
        next_state(st, line, stem).total == st.total,
{
    let t = trim(line);
    let a = after_destination(st, t, stem);
    lemma_step_destination(st, t, stem);
    lemma_step_already(a, t);
}

proof fn lemma_step_destination(st: TrackerView, t: Seq<char>, stem: Option<Seq<char>>)
    ensures
        distinct_paths(st.paths) ==> distinct_paths(after_destination(st, t, stem).paths),
        is_prefix(st.paths, after_destination(st, t, stem).paths),
        after_destination(st, t, stem).index == st.index,
        after_destination(st, t, stem).total == st.total,
        after_destination(st, t, stem).already == st.already,
{
    let a = after_destination(st, t, stem);
    if a.paths != st.paths {
        let p = choose|p: Seq<char>| a.paths == add_path(st.paths, p);
        lemma_add_path(st.paths, p);
    }
}

proof fn lemma_step_already(st: TrackerView, t: Seq<char>)
    ensures
        distinct_paths(st.paths) ==> distinct_paths(after_already(st, t).paths),
        is_prefix(st.paths, after_already(st, t).paths),
        after_already(st, t).index == st.index,
        after_already(st, t).total == st.total,
        st.already ==> after_already(st, t).already,
{
    let a = after_already(st, t);
    if a.paths != st.paths {
        let p = choose|p: Seq<char>| a.paths == add_path(st.paths, p);
        lemma_add_path(st.paths, p);
    }
}

/// A line that reports the track as present never takes that back.
pub proof fn law_step_keeps_already(st: TrackerView, line: Seq<char>, stem: Option<Seq<char>>)
    ensures
        st.already ==> next_state(st, line, stem).already,
{
    let t = trim(line);
    lemma_step_destination(st, t, stem);
    lemma_step_already(after_destination(st, t, stem), t);
}

/// Every progress event of a line is about the tracked track: it carries the
/// track's position in the batch, and its file name is its title.
pub proof fn law_events_name_the_track(st: TrackerView, line: Seq<char>, stem: Option<Seq<char>>)
    ensures
        forall|i: int|
            0 <= i < step_events(st, line, stem).len() ==> match #[trigger] step_events(st, line, stem)[i] {
                ActionView::Progress { progress, store } => progress.current == st.index && progress.total
                    == st.total && progress.filename == progress.title && progress.title == next_state(
                    st,
                    line,
                    stem,
                ).title,
                ActionView::Log(_) => true,
            },
{
    law_step_keeps_files(st, line, stem);
}

/// A percentage line is reported as progress and not logged; every other line
/// is logged once, trimmed, as the last of its events.
pub proof fn law_logging(st: TrackerView, line: Seq<char>, stem: Option<Seq<char>>)
    ensures
        is_percent_line(trim(line)) ==> forall|i: int|
            0 <= i < step_events(st, line, stem).len() ==> !(#[trigger] step_events(st, line, stem)[i] is Log),
        !is_percent_line(trim(line)) ==> {
            let ev = step_events(st, line, stem);
            &&& ev.len() > 0
            &&& ev.last() == ActionView::Log(trim(line))
            &&& forall|i: int| 0 <= i < ev.len() - 1 ==> !(#[trigger] ev[i] is Log)
        },
{
}

/// A failed download reports its exit code first and quotes the downloader's
/// last non-blank error line at the end; a successful one reports success
/// whatever was printed on the error stream.
pub proof fn law_failure_quotes_last_error_line(code: Option<i32>, stderr: Seq<Seq<char>>)
    ensures
        exit_outcome_spec(true, code, stderr) == Ok::<Seq<char>, Seq<char>>("Success"@),
        exit_outcome_spec(false, code, stderr) is Err,
        starts_with(exit_outcome_spec(false, code, stderr)->Err_0, "yt-dlp exited with code: "@),
        stderr.len() > 0 && trim(stderr.last()).len() > 0 ==> ends_with(
            exit_outcome_spec(false, code, stderr)->Err_0,
            trim(stderr.last()),
        ),
{
    let head = "yt-dlp exited with code: "@ + signed_decimal(
        match code {
            Some(c) => c as int,
            None => -1,
        },
    );
    let tail = last_items(error_lines(stderr), quoted_error_lines());
    let msg = exit_outcome_spec(false, code, stderr)->Err_0;
    assert(msg.subrange(0, "yt-dlp exited with code: "@.len() as int) =~= "yt-dlp exited with code: "@);
    if stderr.len() > 0 && trim(stderr.last()).len() > 0 {
        let el = error_lines(stderr);
        assert(el.last() == trim(stderr.last()));
        assert(tail.len() > 0 && tail.last() == el.last());
        lemma_joined_ends_with_last(tail);
        let j = joined_lines(tail);
        let t = tail.last();
        assert(msg == head + "\n"@ + j);
        assert(msg.subrange(msg.len() - t.len(), msg.len() as int) =~= j.subrange(j.len() - t.len(), j.len() as int));
    }
}

/// Joined lines end with the last line.
proof fn lemma_joined_ends_with_last(s: Seq<Seq<char>>)
    requires
        s.len() > 0,
    ensures
        ends_with(joined_lines(s), s.last()),
{
    let j = joined_lines(s);
    if s.len() == 1 {
        assert(j.subrange(0, j.len() as int) =~= j);
    } else {
        let p = joined_lines(s.drop_last()) + "\n"@;
        assert(j == p + s.last());
        assert(j.subrange(j.len() - s.last().len(), j.len() as int) =~= s.last());
    }
}

/// Nothing is deleted after a download that was not cancelled, nor for a track
/// that was already present; after a cancelled new download, every recorded
/// file is deleted together with its leftovers.
pub proof fn law_cleanup(st: TrackerView, aborted: bool)
    ensures
        !aborted || st.already ==> cleanup_files(st, aborted).len() == 0,
        aborted && !st.already ==> cleanup_files(st, aborted).len() == 3 * st.paths.len(),
        aborted && !st.already ==> forall|i: int|
            0 <= i < st.paths.len() ==> {
                &&& cleanup_files(st, aborted)[3 * i] == #[trigger] st.paths[i]
                &&& cleanup_files(st, aborted)[3 * i + 1] == st.paths[i] + ".part"@
                &&& cleanup_files(st, aborted)[3 * i + 2] == st.paths[i] + ".ytdl"@
            },
{
    if aborted && !st.already {
        lemma_leftovers(st.paths);
    }
}

proof fn lemma_leftovers(ps: Seq<Seq<char>>)
    ensures
        with_leftovers(ps).len() == 3 * ps.len(),
        forall|i: int|
            0 <= i < ps.len() ==> {
                &&& with_leftovers(ps)[3 * i] == #[trigger] ps[i]
                &&& with_leftovers(ps)[3 * i + 1] == ps[i] + ".part"@
                &&& with_leftovers(ps)[3 * i + 2] == ps[i] + ".ytdl"@
            },
    decreases ps.len(),
{
    if ps.len() > 0 {
        let init = ps.drop_last();
        lemma_leftovers(init);
        assert forall|i: int| 0 <= i < ps.len() implies {
            &&& with_leftovers(ps)[3 * i] == #[trigger] ps[i]
            &&& with_leftovers(ps)[3 * i + 1] == ps[i] + ".part"@
            &&& with_leftovers(ps)[3 * i + 2] == ps[i] + ".ytdl"@
        } by {
            if i < init.len() {
                assert(init[i] == ps[i]);
            }
        }
    }
}

// ---------------------------------------------------------------------------
// Playlists
// ---------------------------------------------------------------------------

/// Entries numbered in increasing order, each between 1 and `n`.
pub open spec fn numbered_within(es: Seq<EntryView>, n: int) -> bool {
    &&& forall|i: int| 0 <= i < es.len() ==> 1 <= #[trigger] es[i].index <= n
    &&& forall|i: int, j: int| 0 <= i < j < es.len() ==> es[i].index < es[j].index
}

/// Every entry is a search for its own title.
pub open spec fn all_searches(es: Seq<EntryView>) -> bool {
    forall|i: int| 0 <= i < es.len() ==> #[trigger] es[i] == search_entry_view(es[i].title, es[i].index)
}

/// A well-formed playlist: it counts its entries, and they are numbered in
/// increasing order within `n` source items.
pub open spec fn counted_and_numbered(p: PlaylistView, n: int) -> bool {
    p.total == p.entries.len() && numbered_within(p.entries, n)
}

proof fn lemma_numbered_push(es: Seq<EntryView>, e: EntryView, n: int)
    requires
        numbered_within(es, n - 1),
        e.index == n,
        n >= 1,
    ensures
        numbered_within(es.push(e), n),
{
    assert forall|i: int, j: int| 0 <= i < j < es.push(e).len() implies es.push(e)[i].index < es.push(e)[j].index by {
        if j == es.len() {
            assert(1 <= es[i].index <= n - 1);
        }
    }
    assert forall|i: int| 0 <= i < es.push(e).len() implies 1 <= #[trigger] es.push(e)[i].index <= n by {
        if i < es.len() {
            assert(1 <= es[i].index <= n - 1);
        }
    }
}

proof fn lemma_entries_of(ls: Seq<Seq<char>>, n: int)
    requires
        0 <= n,
    ensures
        numbered_within(entries_of(ls, n), n),
    decreases n,
{
    if n > 0 {
        lemma_entries_of(ls, n - 1);
        match line_entry(ls[n - 1], n - 1) {
            Some(e) => lemma_numbered_push(entries_of(ls, n - 1), e, n),
            None => {},
        }
    }
}

/// A listing's playlist counts its entries, and numbers them by the line
/// they came from, in order.
pub proof fn law_listing_numbered(success: bool, out: Seq<char>, err: Seq<char>)
    ensures
        listing_result(success, out, err) matches Ok(p) ==> counted_and_numbered(p, lines(out).len() as int),
{
    lemma_entries_of(lines(out), lines(out).len() as int);
}

/// A listed video links to its page: `webpage_url` when it is a string, else
/// `original_url` when that is, and the extractor's raw `url` only when
/// neither is.
pub proof fn law_listing_prefers_page_links(info: crate::json::JsonValue)
    ensures
        field_text(info, "webpage_url"@) matches Some(w) ==> link_of(info) == w,
        field_text(info, "webpage_url"@) is None ==> (field_text(info, "original_url"@) matches Some(o)
            ==> link_of(info) == o),
        field_text(info, "webpage_url"@) is None && field_text(info, "original_url"@) is None ==> link_of(info)
            == match field_text(info, "url"@) {
                Some(u) => u,
                None => Seq::empty(),
            },
{
    let keys = seq!["webpage_url"@, "original_url"@, "url"@];
    assert(keys.drop_first() =~= seq!["original_url"@, "url"@]);
    assert(keys.drop_first().drop_first() =~= seq!["url"@]);
    assert(keys.drop_first().drop_first().drop_first() =~= Seq::<Seq<char>>::empty());
    reveal_with_fuel(first_text, 4);
}

proof fn lemma_spotify_entries(ts: Seq<crate::json::JsonValue>, n: int)
    requires
        0 <= n,
    ensures
        numbered_within(spotify_entries(ts, n), n),
        all_searches(spotify_entries(ts, n)),
    decreases n,
{
    if n > 0 {
        lemma_spotify_entries(ts, n - 1);
        let prev = spotify_entries(ts, n - 1);
        if spotify_entries(ts, n) != prev {
            let e = spotify_entries(ts, n).last();
            assert(spotify_entries(ts, n) == prev.push(e));
            lemma_numbered_push(prev, e, n);
            assert forall|i: int| 0 <= i < prev.push(e).len() implies #[trigger] prev.push(e)[i]
                == search_entry_view(prev.push(e)[i].title, prev.push(e)[i].index) by {
                if i < prev.len() {
                    assert(prev.push(e)[i] == prev[i]);
                }
            }
        }
    }
}

/// A Spotify collection becomes searches, one per usable track, counted and
/// numbered by the track's position in the list.
pub proof fn law_spotify_tracks_are_searches(body: Seq<char>)
    ensures
        spotify_playlist_spec(body) matches Ok(p) ==> p.entries.len() > 0 && p.total == p.entries.len()
            && all_searches(p.entries) && forall|i: int, j: int|
            0 <= i < j < p.entries.len() ==> p.entries[i].index < p.entries[j].index,
{
    match block_after(body, spotify_data_marker(), "</script>"@) {
        Some(text) => match spec_parse_json(text) {
            Some(json) => match spotify_entity(json).at("trackList"@).items() {
                Some(ts) => lemma_spotify_entries(ts, ts.len() as int),
                None => {},
            },
            None => {},
        },
        None => {},
    }
}

/// The facts that every playlist read from a page holds.
pub open spec fn page_playlist_facts(p: PlaylistView) -> bool {
    &&& p.entries.len() > 0
    &&& p.total == p.entries.len()
    &&& all_searches(p.entries)
    &&& forall|i: int, j: int| 0 <= i < j < p.entries.len() ==> p.entries[i].index < p.entries[j].index
}

proof fn lemma_apple_entries(ts: Seq<crate::json::JsonValue>, n: int)
    requires
        0 <= n,
    ensures
        numbered_within(apple_entries(ts, n), n),
        all_searches(apple_entries(ts, n)),
    decreases n,
{
    if n > 0 {
        lemma_apple_entries(ts, n - 1);
        let prev = apple_entries(ts, n - 1);
        if apple_entries(ts, n) != prev {
            let e = apple_entries(ts, n).last();
            assert(apple_entries(ts, n) == prev.push(e));
            lemma_numbered_push(prev, e, n);
            assert forall|i: int| 0 <= i < prev.push(e).len() implies #[trigger] prev.push(e)[i]
                == search_entry_view(prev.push(e)[i].title, prev.push(e)[i].index) by {
                if i < prev.len() {
                    assert(prev.push(e)[i] == prev[i]);
                }
            }
        }
    }
}

proof fn lemma_apple_block(text: Seq<char>)
    ensures
        apple_block_playlist(text) matches Some(p) ==> page_playlist_facts(p),
{
    match spec_parse_json(text) {
        Some(json) => match json.at("track"@).items() {
            Some(ts) => lemma_apple_entries(ts, ts.len() as int),
            None => {},
        },
        None => {},
    }
}

proof fn lemma_apple_scan(body: Seq<char>, pos: int)
    ensures
        apple_scan(body, pos) matches Some(p) ==> page_playlist_facts(p),
    decreases body.len() - pos,
{
    if 0 <= pos <= body.len() {
        match crate::text::find(body.subrange(pos, body.len() as int), crate::applemusic::data_block_marker()) {
            Some(s) => {
                let off = pos + s + 35;
                match crate::text::find(body.subrange(off, body.len() as int), "</script>"@) {
                    Some(e) => {
                        lemma_apple_block(body.subrange(off, off + e));
                        if pos < off + e <= body.len() {
                            lemma_apple_scan(body, off + e);
                        }
                    },
                    None => {},
                }
            },
            None => {},
        }
    }
}

/// An Apple Music playlist becomes searches ("artist - title"), one per
/// usable recording, counted and numbered by position.
pub proof fn law_apple_tracks_are_searches(body: Seq<char>)
    ensures
        apple_playlist_spec(body) matches Ok(p) ==> page_playlist_facts(p),
{
    lemma_apple_scan(body, 0);
}

// ---------------------------------------------------------------------------
// Commands
// ---------------------------------------------------------------------------

/// A conversion never writes over its input: the output file differs from
/// `parent/stem.ext` whatever the target format.
pub proof fn law_conversion_keeps_input(parent: Seq<char>, stem: Seq<char>, ext: Seq<char>, format: Seq<char>)
    ensures
        output_path_spec(parent, stem, ext, format) != parent + "/"@ + stem + "."@ + ext,
{
    reveal_strlit("/");
    reveal_strlit(".");
    reveal_strlit("_converted.");
    let input = parent + "/"@ + stem + "."@ + ext;
    let head = parent + "/"@ + stem;
    if eq_ignore_ascii_case(ext, format) {
        let out = head + "_converted."@ + format;
        assert(out.len() == input.len() + 10);
    } else {
        let out = head + "."@ + format;
        assert("."@.len() == 1);
        assert(out.len() == head.len() + 1 + format.len());
        assert(input.len() == head.len() + 1 + ext.len());
        if out == input {
            assert(ext.len() == format.len());
            assert forall|i: int| 0 <= i < ext.len() implies ext[i] == format[i] by {
                assert(input[head.len() + 1 + i] == ext[i]);
                assert(out[head.len() + 1 + i] == format[i]);
            }
            assert(ext =~= format);
        }
    }
}

/// The downloaded or listed link is always the last argument.
pub proof fn law_link_is_last_argument(
    url: Seq<char>,
    format: Seq<char>,
    folder: Seq<char>,
    cookies: Option<Seq<char>>,
    quality: Seq<char>,
    file_exists: bool,
    tagging: bool,
)
    ensures
        download_args_spec(url, format, folder, cookies, quality, file_exists, tagging).last() == url,
        listing_args_spec(url, cookies, file_exists).last() == url,
        convert_args_spec(url, quality, folder).last() == folder,
{
}

/// A download request names the file written after `/download/`, decoded
/// (when that path does not repeat `/download/`); it is served only when that
/// name is a single entry of the download folder (by the platform's verdict
/// `single_entry`), and is otherwise not found.
pub proof fn law_download_route_names_file(name: Seq<char>, single_entry: bool)
    requires
        !crate::text::contains(name, "/download/"@),
    ensures
        ({
            let decoded = match spec_url_decode(name) {
                Some(d) => d,
                None => name,
            };
            route_spec(RequestMethod::Get, "/download/"@ + name, single_entry) == if could_be_file_name(decoded)
                && single_entry {
                RouteView::Download(decoded)
            } else {
                RouteView::NotFound
            }
        }),
{
    reveal_strlit("/download/");
    reveal_strlit("/");
    reveal_strlit("/status");
    reveal_strlit("/files");
    reveal_strlit("/remote-config");
    let url = "/download/"@ + name;
    let pat = "/download/"@;
    assert(url.subrange(0, pat.len() as int) =~= pat);
    assert(url != "/"@) by {
        assert(url.len() != "/"@.len() || url[1] != "/"@[1]);
    }
    assert(url != "/status"@) by {
        assert(url[1] == 'd');
        if url.len() == "/status"@.len() {
            assert(url[1] != "/status"@[1]);
        }
    }
    assert(url != "/files"@) by {
        assert(url[1] == 'd');
        if url.len() == "/files"@.len() {
            assert(url[1] != "/files"@[1]);
        }
    }
    assert(url != "/remote-config"@) by {
        assert(url[1] == 'd');
        if url.len() == "/remote-config"@.len() {
            assert(url[1] != "/remote-config"@[1]);
        }
    }
    lemma_replace_prefix_only(pat, name);
    assert(replace_all(url, pat, Seq::empty()) == name);
}

/// No request to the remote server names a file outside the download folder:
/// whatever the method and path, a file that is served or deleted is the one
/// the request names, under a name with no `/` that is neither `.` nor `..`,
/// and only when the platform finds it to be one path component.
pub proof fn law_remote_files_stay_in_folder(method: RequestMethod, url: Seq<char>, single_entry: bool)
    ensures
        route_spec(method, url, single_entry) matches RouteView::Download(n) ==> {
            &&& could_be_file_name(n)
            &&& single_entry
            &&& requested_name(method, url) == Some(n)
        },
        route_spec(method, url, single_entry) matches RouteView::Delete(n) ==> {
            &&& could_be_file_name(n)
            &&& single_entry
            &&& requested_name(method, url) == Some(n)
        },
{
}

/// The settings request is answered with the settings, whatever came before.
pub proof fn law_remote_config_route(single_entry: bool)
    ensures
        route_spec(RequestMethod::Get, "/remote-config"@, single_entry) == RouteView::RemoteConfig,
{
    reveal_strlit("/");
    reveal_strlit("/status");
    reveal_strlit("/files");
    reveal_strlit("/remote-config");
    let url = "/remote-config"@;
    assert(url != "/"@) by {
        assert(url.len() != "/"@.len());
    }
    assert(url != "/status"@) by {
        assert(url.len() != "/status"@.len());
    }
    assert(url != "/files"@) by {
        assert(url.len() != "/files"@.len());
    }
}

/// Replacing `pat` in `pat + rest`, where `rest` does not contain `pat`,
/// leaves `rest`.
proof fn lemma_replace_prefix_only(pat: Seq<char>, rest: Seq<char>)
    requires
        pat.len() > 0,
        !crate::text::contains(rest, pat),
    ensures
        replace_all(pat + rest, pat, Seq::empty()) == rest,
{
    let s = pat + rest;
    assert(s.subrange(0, pat.len() as int) =~= pat);
    assert(s.subrange(pat.len() as int, s.len() as int) =~= rest);
    assert(Seq::<char>::empty() + rest =~= rest);
    lemma_replace_absent(rest, pat, Seq::empty());
}

/// Replacing a pattern that does not occur changes nothing.
proof fn lemma_replace_absent(s: Seq<char>, pat: Seq<char>, rep: Seq<char>)
    requires
        pat.len() > 0,
        !crate::text::contains(s, pat),
    ensures
        replace_all(s, pat, rep) == s,
    decreases s.len(),
{
    if s.len() > 0 {
        assert(!matches_at(s, pat, 0));
        if starts_with(s, pat) {
            assert(matches_at(s, pat, 0));
        }
        let t = s.drop_first();
        assert(!crate::text::contains(t, pat)) by {
            if crate::text::contains(t, pat) {
                let k = choose|k: int| matches_at(t, pat, k);
                assert(t.subrange(k, k + pat.len()) =~= s.subrange(k + 1, k + 1 + pat.len()));
                assert(matches_at(s, pat, k + 1));
            }
        }
        lemma_replace_absent(t, pat, rep);
        assert(seq![s[0]] + t =~= s);
    }
}

// ---------------------------------------------------------------------------
// Discord presence
// ---------------------------------------------------------------------------

/// An update while the presence is switched off keeps no connection and
/// succeeds.  When it is on, a failed outside call (connecting, or showing the
/// activity) keeps no connection and reports its error, so that the next
/// update connects anew; a connection that opened is kept and the activity is
/// shown on it next.
pub proof fn law_presence_failures_drop_connection(enabled: bool, connected: bool, e: String)
    ensures
        !enabled ==> presence_next_spec(presence_step_spec(enabled, connected), Err(e))
            == (false, PresenceReply::Finish(Ok(()))),
        enabled ==> presence_next_spec(presence_step_spec(enabled, connected), Err(e))
            == (false, PresenceReply::Finish(Err(e))),
        enabled && !connected ==> presence_next_spec(presence_step_spec(enabled, connected), Ok(()))
            == (true, PresenceReply::Continue(PresenceStep::Show)),
        enabled ==> presence_next_spec(PresenceStep::Show, Ok(()))
            == (true, PresenceReply::Finish(Ok(()))),
{
}

// ---------------------------------------------------------------------------
// Download and conversion quality
// ---------------------------------------------------------------------------

/// The selection that caps the video height at `n` lines.
pub open spec fn height_capped_selection(n: nat) -> Seq<char> {
    "bestvideo[height<="@ + decimal(n) + "]+bestaudio/best"@
}

/// A video download at quality `Np` (`480p`, `720p`, `1080p`) selects the best
/// video no higher than `N` lines, merged with the best audio; `4k` caps the
/// height at 2160 lines.  The selection stands right after `-f`, followed by
/// the container format.
pub proof fn law_video_quality_caps_height(
    url: Seq<char>,
    format: Seq<char>,
    folder: Seq<char>,
    cookies: Option<Seq<char>>,
    n: nat,
    file_exists: bool,
    tagging: bool,
)
    requires
        !audio_formats().contains(format),
        n == 480 || n == 720 || n == 1080,
    ensures
        video_selection(decimal(n) + "p"@) == height_capped_selection(n),
        video_selection("4k"@) == height_capped_selection(2160),
        ({
            let args = download_args_spec(url, format, folder, cookies, decimal(n) + "p"@, file_exists, tagging);
            &&& args[10] == "-f"@
            &&& args[11] == height_capped_selection(n)
            &&& args[12] == "--merge-output-format"@
            &&& args[13] == format
        }),
{
    reveal_strlit("4k");
    reveal_strlit("1080p");
    reveal_strlit("720p");
    reveal_strlit("480p");
    reveal_strlit("worst");
    reveal_strlit("p");
    reveal_strlit("bestvideo[height<=");
    reveal_strlit("]+bestaudio/best");
    reveal_strlit("bestvideo[height<=2160]+bestaudio/best");
    reveal_strlit("bestvideo[height<=1080]+bestaudio/best");
    reveal_strlit("bestvideo[height<=720]+bestaudio/best");
    reveal_strlit("bestvideo[height<=480]+bestaudio/best");
    reveal_with_fuel(decimal, 5);
    assert(decimal(2160) =~= seq!['2', '1', '6', '0']);
    assert(decimal(1080) =~= seq!['1', '0', '8', '0']);
    assert(decimal(720) =~= seq!['7', '2', '0']);
    assert(decimal(480) =~= seq!['4', '8', '0']);
    assert(height_capped_selection(2160) =~= "bestvideo[height<=2160]+bestaudio/best"@);
    let q = decimal(n) + "p"@;
    if n == 1080 {
        assert(q =~= "1080p"@);
        assert(height_capped_selection(n) =~= "bestvideo[height<=1080]+bestaudio/best"@);
    } else if n == 720 {
        assert(q =~= "720p"@);
        assert(q != "4k"@);
        assert(q != "1080p"@);
        assert(height_capped_selection(n) =~= "bestvideo[height<=720]+bestaudio/best"@);
    } else {
        assert(q =~= "480p"@);
        assert(q != "4k"@);
        assert(q != "1080p"@);
        assert(q != "720p"@) by {
            assert(q[0] != "720p"@[0]);
        }
        assert(height_capped_selection(n) =~= "bestvideo[height<=480]+bestaudio/best"@);
    }
    assert(format_args(format, q) == seq!["-f"@, video_selection(q), "--merge-output-format"@, format]);
}

/// A video download at quality `worst` takes the worst video and audio; at
/// any quality name without its own selection it takes the best video and
/// audio, uncapped.
pub proof fn law_video_quality_others(q: Seq<char>)
    requires
        q != "4k"@,
        q != "1080p"@,
        q != "720p"@,
        q != "480p"@,
    ensures
        video_selection("worst"@) == "worstvideo+worstaudio/worst"@,
        q != "worst"@ ==> video_selection(q) == "bestvideo+bestaudio/best"@,
{
    reveal_strlit("4k");
    reveal_strlit("1080p");
    reveal_strlit("720p");
    reveal_strlit("480p");
    reveal_strlit("worst");
    assert("worst"@ != "4k"@) by {
        assert("worst"@.len() != "4k"@.len());
    }
    assert("worst"@ != "1080p"@) by {
        assert("worst"@[0] != "1080p"@[0]);
    }
    assert("worst"@ != "720p"@) by {
        assert("worst"@.len() != "720p"@.len());
    }
    assert("worst"@ != "480p"@) by {
        assert("worst"@.len() != "480p"@.len());
    }
}

/// The rank of a named conversion quality, from `low` (0) to `max` (3); -1
/// for any other name.
pub open spec fn quality_rank(q: Seq<char>) -> int {
    if q == "low"@ {
        0
    } else if q == "medium"@ {
        1
    } else if q == "high"@ {
        2
    } else if q == "max"@ {
        3
    } else {
        -1
    }
}

/// The audio bitrate, in kbit/s, documented for each rank: 96, 192, 320, 500.
pub open spec fn documented_kbps(rank: int) -> nat {
    if rank == 0 {
        96
    } else if rank == 1 {
        192
    } else if rank == 2 {
        320
    } else {
        500
    }
}

/// A conversion at a named quality sets the audio bitrate (`-b:a`) to the
/// documented rate, which strictly grows from `low` to `medium` to `high` to
/// `max`; only `max` also sets the video bitrate, to 8000 kbit/s; any other
/// quality name sets no bitrate.  In the full command line the bitrate
/// arguments stand right after `-y`, before the output.
pub proof fn law_bitrate_by_quality(q1: Seq<char>, q2: Seq<char>, input: Seq<char>, output: Seq<char>)
    ensures
        quality_rank(q1) >= 0 ==> {
            &&& bitrate_args(q1)[0] == "-b:a"@
            &&& bitrate_args(q1)[1] == decimal(documented_kbps(quality_rank(q1))) + "k"@
            &&& convert_args_spec(input, q1, output)[7] == "-b:a"@
            &&& convert_args_spec(input, q1, output)[8] == decimal(documented_kbps(quality_rank(q1))) + "k"@
        },
        quality_rank(q1) >= 0 && quality_rank(q1) < quality_rank(q2) ==> documented_kbps(quality_rank(q1))
            < documented_kbps(quality_rank(q2)),
        quality_rank(q1) >= 0 && quality_rank(q1) < 3 ==> bitrate_args(q1).len() == 2,
        q1 == "max"@ ==> bitrate_args(q1) == seq![
            "-b:a"@,
            decimal(500) + "k"@,
            "-b:v"@,
            decimal(8000) + "k"@,
        ],
        quality_rank(q1) < 0 ==> bitrate_args(q1).len() == 0,
{
    reveal_strlit("low");
    reveal_strlit("medium");
    reveal_strlit("high");
    reveal_strlit("max");
    reveal_strlit("k");
    reveal_strlit("96k");
    reveal_strlit("192k");
    reveal_strlit("320k");
    reveal_strlit("500k");
    reveal_strlit("8000k");
    reveal_with_fuel(decimal, 5);
    assert(decimal(96) + "k"@ =~= "96k"@);
    assert(decimal(192) + "k"@ =~= "192k"@);
    assert(decimal(320) + "k"@ =~= "320k"@);
    assert(decimal(500) + "k"@ =~= "500k"@);
    assert(decimal(8000) + "k"@ =~= "8000k"@);
    let head = seq!["-hwaccel"@, "auto"@, "-i"@, input, "-threads"@, "0"@, "-y"@];
    let full = convert_args_spec(input, q1, output);
    assert(full =~= head + bitrate_args(q1) + seq![output]);
    if q1 == "max"@ {
        assert(q1 != "low"@) by {
            assert(q1[0] != "low"@[0]);
        }
        assert(q1 != "medium"@) by {
            assert(q1.len() != "medium"@.len());
        }
        assert(q1 != "high"@) by {
            assert(q1.len() != "high"@.len());
        }
    }
    if quality_rank(q1) >= 0 {
        assert(full[7] == bitrate_args(q1)[0]);
        assert(full[8] == bitrate_args(q1)[1]);
    }
}

// ---------------------------------------------------------------------------
// Package installs
// ---------------------------------------------------------------------------

/// Whether `phrase` is one of the phrases by which winget says, in English or
/// German, that the package is installed already or has no newer version.
pub open spec fn is_already_installed_phrase(phrase: Seq<char>) -> bool {
    ||| phrase == "already installed"@
    ||| phrase == "no available upgrade"@
    ||| phrase == "kein verfügbares upgrade"@
    ||| phrase == "kein verfugbares upgrade"@
    ||| phrase == "no newer package versions are available"@
    ||| phrase == "keine neueren paketversionen verfügbar"@
    ||| phrase == "keine neueren paketversionen verfugbar"@
}

/// A winget run whose output, in lower case, holds one of those phrases
/// counts as a success even when winget exits with an error code; a failed
/// run whose output holds none of them is reported as the failure.
pub proof fn law_installed_phrases_mean_success(
    package: Seq<char>,
    code: Option<i32>,
    output: Seq<char>,
    done: Seq<char>,
    phrase: Seq<char>,
)
    ensures
        is_already_installed_phrase(phrase) && crate::text::contains(spec_to_lowercase(output), phrase) ==> {
            &&& means_installed(output)
            &&& winget_outcome_spec(package, false, code, output, done) == Ok::<Seq<char>, Seq<char>>(done)
        },
        (forall|p: Seq<char>| is_already_installed_phrase(p) ==> !crate::text::contains(spec_to_lowercase(output), p))
            ==> winget_outcome_spec(package, false, code, output, done) == Err::<Seq<char>, Seq<char>>(
            winget_error_spec(package, code, output),
        ),
        winget_outcome_spec(package, true, code, output, done) == Ok::<Seq<char>, Seq<char>>(done),
{
    let ps = installed_phrases();
    assert(forall|i: int| 0 <= i < ps.len() ==> is_already_installed_phrase(#[trigger] ps[i]));
    if is_already_installed_phrase(phrase) && crate::text::contains(spec_to_lowercase(output), phrase) {
        if phrase == "already installed"@ {
            assert(ps[0] == phrase);
        } else if phrase == "no available upgrade"@ {
            assert(ps[1] == phrase);
        } else if phrase == "kein verfügbares upgrade"@ {
            assert(ps[2] == phrase);
        } else if phrase == "kein verfugbares upgrade"@ {
            assert(ps[3] == phrase);
        } else if phrase == "no newer package versions are available"@ {
            assert(ps[4] == phrase);
        } else if phrase == "keine neueren paketversionen verfügbar"@ {
            assert(ps[5] == phrase);
        } else {
            assert(ps[6] == phrase);
        }
    }
}

// ---------------------------------------------------------------------------
// Files offered by the remote server
// ---------------------------------------------------------------------------

/// The files offered for a list of names: a single name is offered unless it
/// ends with `.part` or `.ytdl` (a download still being written); a list is
/// offered piece by piece, in order (the offer for `a + b` is the offer for `a`
/// followed by the offer for `b`).  Hence no offered name ends with either
/// suffix, every other name is offered, and nothing else is.
pub proof fn law_partial_downloads_not_offered(a: Seq<Seq<char>>, b: Seq<Seq<char>>, name: Seq<char>)
    ensures
        listed_files_spec(seq![name]) == if ends_with(name, ".part"@) || ends_with(name, ".ytdl"@) {
            Seq::<Seq<char>>::empty()
        } else {
            seq![name]
        },
        listed_files_spec(a + b) == listed_files_spec(a) + listed_files_spec(b),
        forall|i: int|
            0 <= i < listed_files_spec(a).len() ==> !ends_with(#[trigger] listed_files_spec(a)[i], ".part"@)
                && !ends_with(listed_files_spec(a)[i], ".ytdl"@),
        forall|n: Seq<char>|
            a.contains(n) && !ends_with(n, ".part"@) && !ends_with(n, ".ytdl"@) ==> #[trigger] listed_files_spec(
                a,
            ).contains(n),
        forall|n: Seq<char>| #[trigger] listed_files_spec(a).contains(n) ==> a.contains(n),
    decreases b.len(),
{
    assert(seq![name].drop_last() =~= Seq::<Seq<char>>::empty());
    assert(listed_files_spec(Seq::<Seq<char>>::empty()) =~= Seq::<Seq<char>>::empty());
    if b.len() == 0 {
        assert(a + b =~= a);
        assert(listed_files_spec(a) + listed_files_spec(b) =~= listed_files_spec(a));
    } else {
        law_partial_downloads_not_offered(a, b.drop_last(), name);
        assert((a + b).drop_last() =~= a + b.drop_last());
        assert((a + b).last() == b.last());
        assert(listed_files_spec(a) + listed_files_spec(b) =~= if crate::server::is_listed_file(b.last()) {
            (listed_files_spec(a) + listed_files_spec(b.drop_last())).push(b.last())
        } else {
            listed_files_spec(a) + listed_files_spec(b.drop_last())
        });
    }
    lemma_offered_names(a);
}

/// What is offered for `a`: no partial download, every other name, nothing
/// else.
proof fn lemma_offered_names(a: Seq<Seq<char>>)
    ensures
        forall|i: int|
            0 <= i < listed_files_spec(a).len() ==> !ends_with(#[trigger] listed_files_spec(a)[i], ".part"@)
                && !ends_with(listed_files_spec(a)[i], ".ytdl"@),
        forall|n: Seq<char>|
            a.contains(n) && !ends_with(n, ".part"@) && !ends_with(n, ".ytdl"@) ==> #[trigger] listed_files_spec(
                a,
            ).contains(n),
        forall|n: Seq<char>| #[trigger] listed_files_spec(a).contains(n) ==> a.contains(n),
    decreases a.len(),
{
    if a.len() > 0 {
        let p = a.drop_last();
        lemma_offered_names(p);
        let r = listed_files_spec(a);
        let rp = listed_files_spec(p);
        assert(r == if crate::server::is_listed_file(a.last()) {
            rp.push(a.last())
        } else {
            rp
        });
        assert forall|n: Seq<char>| a.contains(n) && !ends_with(n, ".part"@) && !ends_with(n, ".ytdl"@) implies
            #[trigger] r.contains(n) by {
            let j = choose|j: int| 0 <= j < a.len() && a[j] == n;
            if j < a.len() - 1 {
                assert(p[j] == n);
                assert(p.contains(n));
                assert(listed_files_spec(p).contains(n));
                let k = choose|k: int| 0 <= k < rp.len() && rp[k] == n;
                assert(r[k] == n);
            } else {
                assert(r.last() == n);
            }
        }
        assert forall|n: Seq<char>| #[trigger] r.contains(n) implies a.contains(n) by {
            let k = choose|k: int| 0 <= k < r.len() && r[k] == n;
            if k < rp.len() {
                assert(rp[k] == n);
                assert(rp.contains(n));
                let j = choose|j: int| 0 <= j < p.len() && p[j] == n;
                assert(a[j] == n);
            } else {
                assert(a[a.len() - 1] == n);
            }
        }
        assert forall|i: int| 0 <= i < r.len() implies !ends_with(#[trigger] r[i], ".part"@) && !ends_with(
            r[i],
            ".ytdl"@,
        ) by {
            if i < rp.len() {
                assert(r[i] == rp[i]);
            }
        }
    }
}

// ---------------------------------------------------------------------------
// Spotify track titles
// ---------------------------------------------------------------------------

/// The decorations that Spotify puts between a track's title and its artist
/// in a track page's title.
pub open spec fn spotify_decorations() -> Seq<Seq<char>> {
    seq![
        " - song and lyrics by "@,
        " - song by "@,
        " - playlist by "@,
        " - EP by "@,
        " - album by "@,
        " - single by "@,
    ]
}

/// A character by which a Spotify decoration or an HTML entity is told
/// apart from ordinary title text.
pub open spec fn is_marker_char(c: char) -> bool {
    c == '-' || c == '|' || c == '&'
}

/// Text with no `-`, `|` or `&`: a plain title or artist name.
pub open spec fn marker_free(s: Seq<char>) -> bool {
    forall|i: int| 0 <= i < s.len() ==> !is_marker_char(#[trigger] s[i])
}

/// A Spotify track page titled `title + decoration + artist + " | Spotify"`,
/// for any of Spotify's decorations, is cleaned to `title + " " + artist`;
/// a title with only the `" | Spotify"` or `" - Spotify"` suffix is cleaned
/// to the bare title.
pub proof fn law_track_title_cleaned(title: Seq<char>, d: int, artist: Seq<char>)
    requires
        marker_free(title),
        marker_free(artist),
        0 <= d < 6,
    ensures
        clean_page_title(title + spotify_decorations()[d] + artist + " | Spotify"@) == title + " "@ + artist,
        clean_page_title(title + " | Spotify"@) == title,
        clean_page_title(title + " - Spotify"@) == title,
{
    reveal_strlit(" | Spotify");
    reveal_strlit(" - Spotify");
    reveal_strlit(" - song and lyrics by ");
    reveal_strlit(" - song by ");
    reveal_strlit(" - playlist by ");
    reveal_strlit(" - EP by ");
    reveal_strlit(" - album by ");
    reveal_strlit(" - single by ");
    reveal_strlit(" ");
    reveal_strlit("");
    let deco = spotify_decorations()[d];
    let ds = spotify_decorations();
    assert(forall|k: int| 0 <= k < 6 ==> (#[trigger] ds[k])[0] == ' ' && ds[k][1] == '-' && ds[k].len() >= 4);
    assert(forall|k: int, i: int|
        0 <= k < 6 && 0 <= i < ds[k].len() && i != 1 ==> !is_marker_char(#[trigger] ds[k][i]));
    let x = title + deco + artist;
    let sfx = " | Spotify"@;
    // The suffix goes.
    assert(forall|i: int| 0 <= i < x.len() ==> (#[trigger] x[i]) != '|');
    lemma_strip_suffix(x, sfx, 1);
    // " - Spotify" is not there.
    lemma_title_step(title, deco, artist, " - Spotify"@, ""@, 3, false);
    let s0 = title + deco + artist;
    assert(ds[0] == " - song and lyrics by "@);
    lemma_title_step(title, deco, artist, ds[0], " "@, decoration_diff(ds[0], deco), false);
    let m0 = ds[0] == deco;
    lemma_title_step(title, deco, artist, ds[1], " "@, decoration_diff(ds[1], deco), m0);
    let m1 = m0 || ds[1] == deco;
    lemma_title_step(title, deco, artist, ds[2], " "@, decoration_diff(ds[2], deco), m1);
    let m2 = m1 || ds[2] == deco;
    lemma_title_step(title, deco, artist, ds[3], " "@, decoration_diff(ds[3], deco), m2);
    let m3 = m2 || ds[3] == deco;
    lemma_title_step(title, deco, artist, ds[4], " "@, decoration_diff(ds[4], deco), m3);
    let m4 = m3 || ds[4] == deco;
    lemma_title_step(title, deco, artist, ds[5], " "@, decoration_diff(ds[5], deco), m4);
    let m5 = m4 || ds[5] == deco;
    assert(m5);
    let plain = title + " "@ + artist;
    assert(marker_free(plain));
    lemma_entities_untouched(plain);
    // The bare suffixes.
    assert(forall|i: int| 0 <= i < title.len() ==> (#[trigger] title[i]) != '|');
    lemma_strip_suffix(title, " | Spotify"@, 1);
    assert(forall|i: int| 0 <= i < title.len() ==> (#[trigger] title[i]) != '-');
    let dash = title + " - Spotify"@;
    assert forall|i: int| 0 <= i < dash.len() implies (#[trigger] dash[i]) != " | Spotify"@[1] by {
        if i >= title.len() {
            assert(dash[i] == " - Spotify"@[i - title.len()]);
        }
    }
    lemma_absent_by_char(dash, " | Spotify"@, 1);
    lemma_replace_absent(dash, " | Spotify"@, ""@);
    lemma_strip_suffix(title, " - Spotify"@, 1);
    lemma_plain_untouched(title);
}

/// The first position below which two decorations agree, where they differ.
pub open spec fn decoration_diff(p: Seq<char>, q: Seq<char>) -> int {
    if p[3] != q[3] {
        3
    } else if p[4] != q[4] {
        4
    } else {
        8
    }
}

/// Removing `sfx` from `x + sfx`, where the character at `k` of `sfx` occurs
/// neither in `x` nor before `k` in `sfx`, leaves `x`; the same holds for any
/// pattern whose marker character is placed so.
proof fn lemma_strip_suffix(x: Seq<char>, sfx: Seq<char>, k: int)
    requires
        0 <= k < sfx.len(),
        forall|i: int| 0 <= i < x.len() ==> (#[trigger] x[i]) != sfx[k],
        forall|i: int| 0 <= i < k ==> (#[trigger] sfx[i]) != sfx[k],
    ensures
        replace_all(x + sfx, sfx, ""@) == x,
{
    reveal_strlit("");
    let s = x + sfx;
    assert forall|i: int| 0 <= i < x.len() implies !matches_at(s, sfx, i) by {
        if matches_at(s, sfx, i) {
            assert(s.subrange(i, i + sfx.len())[k] == s[i + k]);
            if i + k < x.len() {
                assert(s[i + k] == x[i + k]);
            } else {
                assert(s[i + k] == sfx[i + k - x.len()]);
            }
        }
    }
    lemma_replace_skip(x, sfx, sfx, ""@);
    assert(sfx.subrange(sfx.len() as int, sfx.len() as int) =~= Seq::<char>::empty());
    assert(sfx.subrange(0, sfx.len() as int) =~= sfx);
    let e = sfx.subrange(sfx.len() as int, sfx.len() as int);
    assert(replace_all(e, sfx, ""@) == e);
    assert(replace_all(sfx, sfx, ""@) == ""@ + replace_all(e, sfx, ""@));
    assert(""@ + e =~= Seq::<char>::empty());
    assert(x + Seq::<char>::empty() =~= x);
}

/// One decoration step of the cleaning on `title + deco + artist` (or, once a
/// decoration was replaced, on `title + " " + artist`): the pattern `p` that
/// is the decoration is replaced by `rep`; any other leaves the text as is.
proof fn lemma_title_step(
    title: Seq<char>,
    deco: Seq<char>,
    artist: Seq<char>,
    p: Seq<char>,
    rep: Seq<char>,
    j: int,
    done: bool,
)
    requires
        marker_free(title),
        marker_free(artist),
        marker_free(rep),
        deco.len() >= 2,
        deco[0] == ' ',
        deco[1] == '-',
        forall|i: int| 0 <= i < deco.len() && i != 1 ==> !is_marker_char(#[trigger] deco[i]),
        p.len() >= 2,
        p[1] == '-',
        p == deco || (0 <= j < p.len() && j < deco.len() && p[j] != deco[j]),
        done ==> rep == " "@,
    ensures
        !done ==> replace_all(title + deco + artist, p, rep) == if p == deco {
            title + rep + artist
        } else {
            title + deco + artist
        },
        done ==> replace_all(title + rep + artist, p, rep) == title + rep + artist,
{
    if done {
        let s = title + rep + artist;
        assert forall|i: int| 0 <= i < s.len() implies (#[trigger] s[i]) != p[1] by {
            if i < title.len() {
                assert(s[i] == title[i]);
            } else if i < title.len() + rep.len() {
                assert(s[i] == rep[i - title.len()]);
            } else {
                assert(s[i] == artist[i - title.len() - rep.len()]);
            }
        }
        lemma_absent_by_char(s, p, 1);
        lemma_replace_absent(s, p, rep);
    } else {
        let z = deco + artist;
        let s = title + z;
        assert(title + deco + artist =~= s);
        assert forall|i: int| 0 <= i < title.len() implies !matches_at(s, p, i) by {
            if matches_at(s, p, i) {
                assert(s.subrange(i, i + p.len())[1] == s[i + 1]);
                if i + 1 < title.len() {
                    assert(s[i + 1] == title[i + 1]);
                } else {
                    assert(s[i + 1] == deco[0]);
                }
            }
        }
        lemma_replace_skip(title, z, p, rep);
        assert forall|i: int| 0 <= i < artist.len() implies (#[trigger] artist[i]) != p[1] by {}
        lemma_absent_by_char(artist, p, 1);
        lemma_replace_absent(artist, p, rep);
        if p == deco {
            assert(z.subrange(0, p.len() as int) =~= p);
            assert(z.subrange(p.len() as int, z.len() as int) =~= artist);
            assert(title + (rep + artist) =~= title + rep + artist);
        } else {
            assert(!crate::text::contains(z, p)) by {
                if crate::text::contains(z, p) {
                    let i = choose|i: int| matches_at(z, p, i);
                    assert(z.subrange(i, i + p.len())[1] == z[i + 1]);
                    if i + 1 >= deco.len() {
                        assert(z[i + 1] == artist[i + 1 - deco.len()]);
                    } else if i + 1 != 1 {
                        assert(z[i + 1] == deco[i + 1]);
                    } else {
                        assert(z.subrange(i, i + p.len())[j] == z[j]);
                        assert(z[j] == deco[j]);
                    }
                }
            }
            lemma_replace_absent(z, p, rep);
        }
    }
}

/// A pattern holding, at `k`, a character that `s` lacks does not occur in
/// `s`.
proof fn lemma_absent_by_char(s: Seq<char>, p: Seq<char>, k: int)
    requires
        0 <= k < p.len(),
        forall|i: int| 0 <= i < s.len() ==> (#[trigger] s[i]) != p[k],
    ensures
        !crate::text::contains(s, p),
{
    if crate::text::contains(s, p) {
        let i = choose|i: int| matches_at(s, p, i);
        assert(s.subrange(i, i + p.len())[k] == s[i + k]);
    }
}

/// Replacing when no occurrence starts within `x` leaves `x` in front.
proof fn lemma_replace_skip(x: Seq<char>, z: Seq<char>, pat: Seq<char>, rep: Seq<char>)
    requires
        pat.len() > 0,
        forall|i: int| 0 <= i < x.len() ==> !matches_at(x + z, pat, i),
    ensures
        replace_all(x + z, pat, rep) == x + replace_all(z, pat, rep),
    decreases x.len(),
{
    let s = x + z;
    if x.len() == 0 {
        assert(s =~= z);
        assert(x + replace_all(z, pat, rep) =~= replace_all(z, pat, rep));
    } else {
        assert(!matches_at(s, pat, 0));
        if starts_with(s, pat) {
            assert(matches_at(s, pat, 0));
        }
        let x1 = x.drop_first();
        assert(s.drop_first() =~= x1 + z);
        assert forall|i: int| 0 <= i < x1.len() implies !matches_at(x1 + z, pat, i) by {
            if matches_at(x1 + z, pat, i) {
                assert((x1 + z).subrange(i, i + pat.len()) =~= s.subrange(i + 1, i + 1 + pat.len()));
                assert(matches_at(s, pat, i + 1));
            }
        }
        lemma_replace_skip(x1, z, pat, rep);
        assert(seq![s[0]] + (x1 + replace_all(z, pat, rep)) =~= x + replace_all(z, pat, rep));
    }
}

/// The entity decoding leaves text without `&` as it is.
proof fn lemma_entities_untouched(s: Seq<char>)
    requires
        forall|i: int| 0 <= i < s.len() ==> (#[trigger] s[i]) != '&',
    ensures
        replace_all(s, "&#39;"@, "'"@) == s,
        replace_all(s, "&amp;"@, "&"@) == s,
        replace_all(s, "&quot;"@, "\""@) == s,
        replace_all(s, "&lt;"@, "<"@) == s,
        replace_all(s, "&gt;"@, ">"@) == s,
{
    reveal_strlit("&#39;");
    reveal_strlit("&amp;");
    reveal_strlit("&quot;");
    reveal_strlit("&lt;");
    reveal_strlit("&gt;");
    lemma_absent_by_char(s, "&#39;"@, 0);
    lemma_replace_absent(s, "&#39;"@, "'"@);
    lemma_absent_by_char(s, "&amp;"@, 0);
    lemma_replace_absent(s, "&amp;"@, "&"@);
    lemma_absent_by_char(s, "&quot;"@, 0);
    lemma_replace_absent(s, "&quot;"@, "\""@);
    lemma_absent_by_char(s, "&lt;"@, 0);
    lemma_replace_absent(s, "&lt;"@, "<"@);
    lemma_absent_by_char(s, "&gt;"@, 0);
    lemma_replace_absent(s, "&gt;"@, ">"@);
}

/// Cleaning leaves text without `-`, `|` or `&` as it is, past the suffix
/// steps.
proof fn lemma_plain_untouched(t: Seq<char>)
    requires
        marker_free(t),
    ensures
        replace_all(t, " | Spotify"@, ""@) == t,
        replace_all(t, " - Spotify"@, ""@) == t,
        clean_page_title(t) == t,
{
    reveal_strlit(" | Spotify");
    reveal_strlit(" - Spotify");
    reveal_strlit(" - song and lyrics by ");
    reveal_strlit(" - song by ");
    reveal_strlit(" - playlist by ");
    reveal_strlit(" - EP by ");
    reveal_strlit(" - album by ");
    reveal_strlit(" - single by ");
    assert(forall|i: int| 0 <= i < t.len() ==> (#[trigger] t[i]) != '-' && t[i] != '|' && t[i] != '&');
    lemma_absent_by_char(t, " | Spotify"@, 1);
    lemma_replace_absent(t, " | Spotify"@, ""@);
    lemma_absent_by_char(t, " - Spotify"@, 1);
    lemma_replace_absent(t, " - Spotify"@, ""@);
    lemma_absent_by_char(t, " - song and lyrics by "@, 1);
    lemma_replace_absent(t, " - song and lyrics by "@, " "@);
    lemma_absent_by_char(t, " - song by "@, 1);
    lemma_replace_absent(t, " - song by "@, " "@);
    lemma_absent_by_char(t, " - playlist by "@, 1);
    lemma_replace_absent(t, " - playlist by "@, " "@);
    lemma_absent_by_char(t, " - EP by "@, 1);
    lemma_replace_absent(t, " - EP by "@, " "@);
    lemma_absent_by_char(t, " - album by "@, 1);
    lemma_replace_absent(t, " - album by "@, " "@);
    lemma_absent_by_char(t, " - single by "@, 1);
    lemma_replace_absent(t, " - single by "@, " "@);
    lemma_entities_untouched(t);
}

} // verus!
