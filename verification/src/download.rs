//! Following the output of a yt-dlp download, line by line.
//!
//! The downloader prints one line per event; each line updates what is known
//! about the download (the files it writes, whether the track was already
//! there, the track's title) and yields the events to show to the user.

use vstd::prelude::*;
use crate::models::{DownloadProgress, ProgressView};
use crate::text::{
    contains, contains_exec, digits_and_dots, digits_and_dots_exec, find, find_exec, from_chars,
    lemma_find, matches_at, replace_all, signed_decimal, signed_decimal_string, replace_exec, starts_with, starts_with_exec, to_chars,
    trim, trim_chars, trim_end_char, trim_end_char_exec, trim_str, trim_to_string,
};
use crate::models::opt_text;
use crate::paths::{is_portable_path, path_file_stem, portable_file_name, stem_of_name};
use vstd::slice::slice_subrange;

verus! {

broadcast use vstd::string::group_string_axioms;

// ---------------------------------------------------------------------------
// State and events
// ---------------------------------------------------------------------------

/// What is known about one running download.
#[derive(Debug)]
pub struct DownloadTracker {
    /// The title shown for the track; it follows the file being written.
    pub current_title: String,
    /// The files that the download has written, each once, in order.
    pub downloaded_paths: Vec<String>,
    /// Whether the downloader reported the track as already present.
    pub already_downloaded: bool,
    /// The position of the track in the batch (from 1).
    pub track_index: usize,
    /// The number of tracks in the batch.
    pub total_tracks: usize,
}

/// The abstract value of a `DownloadTracker`.
pub struct TrackerView {
    pub title: Seq<char>,
    pub paths: Seq<Seq<char>>,
    pub already: bool,
    pub index: int,
    pub total: int,
}

impl View for DownloadTracker {
    type V = TrackerView;

    open spec fn view(&self) -> TrackerView {
        TrackerView {
            title: self.current_title@,
            paths: self.downloaded_paths@.map_values(|p: String| p@),
            already: self.already_downloaded,
            index: self.track_index as int,
            total: self.total_tracks as int,
        }
    }
}

/// Something to show to the user after a line of downloader output.
#[derive(Debug)]
pub enum DownloadAction {
    /// Report progress; when `store` holds, it also becomes the progress that
    /// the remote page reads.
    Progress { progress: DownloadProgress, store: bool },
    /// Show a line in the download log.
    Log(String),
}

/// The abstract value of a `DownloadAction`.
pub enum ActionView {
    Progress { progress: ProgressView, store: bool },
    Log(Seq<char>),
}

impl View for DownloadAction {
    type V = ActionView;

    open spec fn view(&self) -> ActionView {
        match self {
            DownloadAction::Progress { progress, store } => ActionView::Progress {
                progress: progress@,
                store: *store,
            },
            DownloadAction::Log(s) => ActionView::Log(s@),
        }
    }
}

// ---------------------------------------------------------------------------
// Specification of one step
// ---------------------------------------------------------------------------

/// A progress report for the tracked track.
pub open spec fn report(
    st: TrackerView,
    status: Seq<char>,
    percent: Seq<char>,
    speed: Seq<char>,
    eta: Seq<char>,
) -> ProgressView {
    ProgressView {
        status,
        percent,
        speed,
        eta,
        title: st.title,
        current: st.index,
        total: st.total,
        filename: st.title,
    }
}

/// `paths` with `p` added at the end, unless it is already there.
pub open spec fn add_path(paths: Seq<Seq<char>>, p: Seq<char>) -> Seq<Seq<char>> {
    if paths.contains(p) {
        paths
    } else {
        paths.push(p)
    }
}

/// The path named after `prefix` on a line that starts with it.
pub open spec fn path_after(t: Seq<char>, prefix: Seq<char>) -> Seq<char> {
    trim(replace_all(t, prefix, Seq::empty()))
}

/// The file that a merge line names.
pub open spec fn merge_target(t: Seq<char>) -> Seq<char> {
    trim_end_char(replace_all(t, "[Merger] Merging formats into \""@, Seq::empty()), '"')
}

/// Whether `t` announces a download destination.
pub open spec fn is_destination_line(t: Seq<char>) -> bool {
    starts_with(t, "[download] Destination:"@)
}

/// The effect of a line that names a file being written; `stem` is the file
/// name without its extension of the path on a destination line.
pub open spec fn after_destination(st: TrackerView, t: Seq<char>, stem: Option<Seq<char>>) -> TrackerView {
    if is_destination_line(t) {
        let p = path_after(t, "[download] Destination:"@);
        TrackerView {
            title: match stem {
                Some(s) => s,
                None => st.title,
            },
            paths: add_path(st.paths, p),
            ..st
        }
    } else if starts_with(t, "[ExtractAudio] Destination:"@) {
        TrackerView { paths: add_path(st.paths, path_after(t, "[ExtractAudio] Destination:"@)), ..st }
    } else if starts_with(t, "[Merger] Merging formats into \""@) {
        TrackerView { paths: add_path(st.paths, merge_target(t)), ..st }
    } else {
        st
    }
}

/// Whether `t` reports that the file is already there.
pub open spec fn is_already_line(t: Seq<char>) -> bool {
    contains(t, "has already been downloaded"@)
}

/// The effect of an "already downloaded" line: the named file is recorded
/// (the text between the first space and " has already"), and the track is
/// marked as present.
pub open spec fn after_already(st: TrackerView, t: Seq<char>) -> TrackerView {
    if is_already_line(t) {
        let paths = match (find(t, " "@), find(t, " has already"@)) {
            (Some(a), Some(e)) => add_path(st.paths, trim(t.subrange(a, e))),
            _ => st.paths,
        };
        TrackerView { paths, already: true, ..st }
    } else {
        st
    }
}

/// Whether `t` is a percentage line of the downloader.
pub open spec fn is_percent_line(t: Seq<char>) -> bool {
    starts_with(t, "[download]"@) && contains(t, "%"@)
}

/// The speed and remaining time on a percentage line: what stands between
/// " at " and " ETA ", and after " ETA ".
pub open spec fn speed_and_eta(t: Seq<char>) -> (Seq<char>, Seq<char>) {
    match find(t, " at "@) {
        Some(at) => match find(t, " ETA "@) {
            Some(e) => if at + 4 < e {
                (trim(t.subrange(at + 4, e)), trim(t.subrange(e + 5, t.len() as int)))
            } else {
                (Seq::empty(), Seq::empty())
            },
            None => (trim(t.subrange(at + 4, t.len() as int)), Seq::empty()),
        },
        None => (Seq::empty(), Seq::empty()),
    }
}

/// The percentage on a percentage line: the digits and dots before the first '%'.
pub open spec fn percent_text(t: Seq<char>) -> Seq<char> {
    match find(t, "%"@) {
        Some(p) => digits_and_dots(t.subrange(0, p)),
        None => Seq::empty(),
    }
}

/// Whether `t` reports a post-processing step.
pub open spec fn is_converting_line(t: Seq<char>) -> bool {
    (starts_with(t, "[ExtractAudio]"@) || starts_with(t, "[Merger]"@) || starts_with(
        t,
        "[VideoConvertor]"@,
    ) || starts_with(t, "[Fixup"@)) && !contains(t, "Not converting"@)
}

/// The events that a line yields, given the state after the line's updates.
pub open spec fn line_events(st: TrackerView, t: Seq<char>) -> Seq<ActionView> {
    let skipped = if is_already_line(t) {
        seq![
            ActionView::Progress {
                progress: report(st, "downloading"@, "100"@, "Skipped (Exists)"@, "0s"@),
                store: false,
            },
        ]
    } else {
        Seq::empty()
    };
    let percent = if is_percent_line(t) {
        let (speed, eta) = speed_and_eta(t);
        seq![
            ActionView::Progress {
                progress: report(st, "downloading"@, percent_text(t), speed, eta),
                store: true,
            },
        ]
    } else {
        Seq::empty()
    };
    let converting = if is_converting_line(t) {
        seq![
            ActionView::Progress {
                progress: report(st, "converting"@, "100"@, Seq::empty(), Seq::empty()),
                store: true,
            },
        ]
    } else {
        Seq::empty()
    };
    let log = if is_percent_line(t) {
        Seq::empty()
    } else {
        seq![ActionView::Log(t)]
    };
    skipped + percent + converting + log
}

/// The state after the line `line`, whose destination file (if it names one)
/// has the stem `stem`.
pub open spec fn next_state(st: TrackerView, line: Seq<char>, stem: Option<Seq<char>>) -> TrackerView {
    let t = trim(line);
    after_already(after_destination(st, t, stem), t)
}

/// The events that the line `line` yields.
pub open spec fn step_events(st: TrackerView, line: Seq<char>, stem: Option<Seq<char>>) -> Seq<ActionView> {
    let t = trim(line);
    line_events(next_state(st, line, stem), t)
}

// ---------------------------------------------------------------------------
// Executable steps
// ---------------------------------------------------------------------------

/// A progress report for the tracked track.
fn make_report(
    title: &String,
    index: usize,
    total: usize,
    status: &str,
    percent: String,
    speed: String,
    eta: String,
) -> (r: DownloadProgress)
    ensures
        r@ == (ProgressView {
            status: status@,
            percent: percent@,
            speed: speed@,
            eta: eta@,
            title: title@,
            current: index as int,
            total: total as int,
            filename: title@,
        }),
{
    DownloadProgress {
        status: String::from_str(status),
        percent,
        speed,
        eta,
        title: title.clone(),
        current: index,
        total,
        filename: title.clone(),
    }
}

/// The speed and remaining time on a percentage line.
fn speed_and_eta_exec(t: &[char]) -> (r: (String, String))
    ensures
        (r.0@, r.1@) == speed_and_eta(t@),
{
    proof {
        reveal_strlit(" at ");
        reveal_strlit(" ETA ");
    }
    let len = t.len();
    assert(len == t@.len());
    let at_pat = to_chars(" at ");
    let eta_pat = to_chars(" ETA ");
    match find_exec(t, at_pat.as_slice()) {
        Some(at) => {
            proof {
                lemma_find(t@, " at "@);
            }
            match find_exec(t, eta_pat.as_slice()) {
                Some(e) => {
                    proof {
                        lemma_find(t@, " ETA "@);
                        assert(" ETA "@.len() == 5);
                        assert(e + 5 <= t@.len());
                    }
                    if at + 4 < e {
                        let speed = trim_to_string(slice_subrange(t, at + 4, e));
                        let eta = trim_to_string(slice_subrange(t, e + 5, t.len()));
                        (speed, eta)
                    } else {
                        (String::new(), String::new())
                    }
                },
                None => {
                    let speed = trim_to_string(slice_subrange(t, at + 4, t.len()));
                    (speed, String::new())
                },
            }
        },
        None => (String::new(), String::new()),
    }
}

/// The percentage on a percentage line.
fn percent_text_exec(t: &[char]) -> (r: String)
    ensures
        r@ == percent_text(t@),
{
    let pct = to_chars("%");
    match find_exec(t, pct.as_slice()) {
        Some(p) => {
            proof {
                lemma_find(t@, "%"@);
            }
            let kept = digits_and_dots_exec(slice_subrange(t, 0, p));
            from_chars(kept.as_slice())
        },
        None => String::new(),
    }
}

/// Whether `t` is a percentage line.
fn is_percent_line_exec(t: &[char]) -> (r: bool)
    ensures
        r == is_percent_line(t@),
{
    let dl = to_chars("[download]");
    let pct = to_chars("%");
    starts_with_exec(t, dl.as_slice()) && contains_exec(t, pct.as_slice())
}

/// Whether `t` reports a post-processing step.
fn is_converting_line_exec(t: &[char]) -> (r: bool)
    ensures
        r == is_converting_line(t@),
{
    let a = to_chars("[ExtractAudio]");
    let m = to_chars("[Merger]");
    let v = to_chars("[VideoConvertor]");
    let f = to_chars("[Fixup");
    let n = to_chars("Not converting");
    (starts_with_exec(t, a.as_slice()) || starts_with_exec(t, m.as_slice()) || starts_with_exec(
        t,
        v.as_slice(),
    ) || starts_with_exec(t, f.as_slice())) && !contains_exec(t, n.as_slice())
}

impl DownloadTracker {
    /// The tracker's invariant: no file is recorded twice.
    pub open spec fn wf(&self) -> bool {
        crate::laws::distinct_paths(self@.paths)
    }

    /// A tracker for the track `title`, number `track_index` of `total_tracks`.
    pub fn new(title: String, track_index: usize, total_tracks: usize) -> (r: DownloadTracker)
        ensures
            r@ == (TrackerView {
                title: title@,
                paths: Seq::empty(),
                already: false,
                index: track_index as int,
                total: total_tracks as int,
            }),
            r.wf(),
    {
        let r = DownloadTracker {
            current_title: title,
            downloaded_paths: Vec::new(),
            already_downloaded: false,
            track_index,
            total_tracks,
        };
        assert(r@.paths =~= Seq::<Seq<char>>::empty());
        r
    }

    /// Records the file `p`, unless it is recorded already.
    fn add_path_exec(&mut self, p: String)
        ensures
            final(self)@ == (TrackerView { paths: add_path(old(self)@.paths, p@), ..old(self)@ }),
    {
        let n = self.downloaded_paths.len();
        let ghost paths = self@.paths;
        let mut i: usize = 0;
        while i < n
            invariant
                n == self.downloaded_paths@.len(),
                i <= n,
                paths == self.downloaded_paths@.map_values(|q: String| q@),
                forall|j: int| 0 <= j < i ==> paths[j] != p@,
            decreases n - i,
        {
            if self.downloaded_paths[i] == p {
                assert(paths[i as int] == p@);
                assert(paths.contains(p@));
                return;
            }
            i = i + 1;
        }
        assert(!paths.contains(p@));
        let ghost pv = p@;
        self.downloaded_paths.push(p);
        assert(self@.paths =~= paths.push(pv));
    }

    /// Applies the file-naming part of a line.
    fn apply_destination(&mut self, t: &[char], stem: Option<String>)
        ensures
            final(self)@ == after_destination(old(self)@, t@, opt_text(stem)),
    {
        proof {
            reveal_strlit("[download] Destination:");
            reveal_strlit("[ExtractAudio] Destination:");
            reveal_strlit("[Merger] Merging formats into \"");
        }
        let p1 = to_chars("[download] Destination:");
        let p2 = to_chars("[ExtractAudio] Destination:");
        let p3 = to_chars("[Merger] Merging formats into \"");
        let empty: Vec<char> = Vec::new();
        if starts_with_exec(t, p1.as_slice()) {
            let rest = replace_exec(t, p1.as_slice(), empty.as_slice());
            let path = trim_to_string(rest.as_slice());
            match stem {
                Some(s) => {
                    self.current_title = s;
                },
                None => {},
            }
            self.add_path_exec(path);
        } else if starts_with_exec(t, p2.as_slice()) {
            let rest = replace_exec(t, p2.as_slice(), empty.as_slice());
            let path = trim_to_string(rest.as_slice());
            self.add_path_exec(path);
        } else if starts_with_exec(t, p3.as_slice()) {
            let rest = replace_exec(t, p3.as_slice(), empty.as_slice());
            let path = trim_end_char_exec(rest.as_slice(), '"');
            self.add_path_exec(from_chars(path.as_slice()));
        }
    }

    /// Applies the "already downloaded" part of a line.
    fn apply_already(&mut self, t: &[char])
        ensures
            final(self)@ == after_already(old(self)@, t@),
    {
        proof {
            reveal_strlit(" ");
            reveal_strlit(" has already");
        }
        let marker = to_chars("has already been downloaded");
        if contains_exec(t, marker.as_slice()) {
            let sp = to_chars(" ");
            let ha = to_chars(" has already");
            match (find_exec(t, sp.as_slice()), find_exec(t, ha.as_slice())) {
                (Some(a), Some(e)) => {
                    proof {
                        lemma_find(t@, " "@);
                        lemma_find(t@, " has already"@);
                        assert(t@.subrange(e as int, e + 1) =~= " "@);
                        assert(matches_at(t@, " "@, e as int));
                    }
                    let path = trim_to_string(slice_subrange(t, a, e));
                    self.add_path_exec(path);
                },
                _ => {},
            }
            self.already_downloaded = true;
        }
    }

    /// The events of the line `t`, given the state after its updates.
    fn events(&self, t: &[char]) -> (r: Vec<DownloadAction>)
        ensures
            r@.map_values(|a: DownloadAction| a@) == line_events(self@, t@),
    {
        let mut out: Vec<DownloadAction> = Vec::new();
        let ghost st = self@;
        let marker = to_chars("has already been downloaded");
        let already = contains_exec(t, marker.as_slice());
        if already {
            let progress = make_report(
                &self.current_title,
                self.track_index,
                self.total_tracks,
                "downloading",
                String::from_str("100"),
                String::from_str("Skipped (Exists)"),
                String::from_str("0s"),
            );
            out.push(DownloadAction::Progress { progress, store: false });
        }
        let ghost s1 = out@.map_values(|a: DownloadAction| a@);
        let percent_line = is_percent_line_exec(t);
        if percent_line {
            let (speed, eta) = speed_and_eta_exec(t);
            let pct = percent_text_exec(t);
            let progress = make_report(
                &self.current_title,
                self.track_index,
                self.total_tracks,
                "downloading",
                pct,
                speed,
                eta,
            );
            out.push(DownloadAction::Progress { progress, store: true });
        }
        let ghost s2 = out@.map_values(|a: DownloadAction| a@);
        if is_converting_line_exec(t) {
            let progress = make_report(
                &self.current_title,
                self.track_index,
                self.total_tracks,
                "converting",
                String::from_str("100"),
                String::new(),
                String::new(),
            );
            out.push(DownloadAction::Progress { progress, store: true });
        }
        let ghost s3 = out@.map_values(|a: DownloadAction| a@);
        if !percent_line {
            out.push(DownloadAction::Log(from_chars(t)));
        }
        proof {
            let skipped = if is_already_line(t@) {
                seq![
                    ActionView::Progress {
                        progress: report(st, "downloading"@, "100"@, "Skipped (Exists)"@, "0s"@),
                        store: false,
                    },
                ]
            } else {
                Seq::empty()
            };
            let percent = if is_percent_line(t@) {
                let (speed, eta) = speed_and_eta(t@);
                seq![
                    ActionView::Progress {
                        progress: report(st, "downloading"@, percent_text(t@), speed, eta),
                        store: true,
                    },
                ]
            } else {
                Seq::empty()
            };
            let converting = if is_converting_line(t@) {
                seq![
                    ActionView::Progress {
                        progress: report(st, "converting"@, "100"@, Seq::empty(), Seq::empty()),
                        store: true,
                    },
                ]
            } else {
                Seq::empty()
            };
            let log = if is_percent_line(t@) {
                Seq::empty()
            } else {
                seq![ActionView::Log(t@)]
            };
            assert(s1 =~= skipped);
            assert(s2 =~= skipped + percent);
            assert(s3 =~= skipped + percent + converting);
            assert(out@.map_values(|a: DownloadAction| a@) =~= skipped + percent + converting + log);
        }
        out
    }

    /// Takes in one line of the downloader's output, where a destination
    /// line's file has the stem `stem`, and gives the events to show.
    pub fn process_line_with_stem(&mut self, line: &str, stem: Option<String>) -> (r: Vec<DownloadAction>)
        ensures
            final(self)@ == next_state(old(self)@, line@, opt_text(stem)),
            r@.map_values(|a: DownloadAction| a@) == step_events(old(self)@, line@, opt_text(stem)),
            old(self).wf() ==> final(self).wf(),
    {
        proof {
            crate::laws::law_step_keeps_files(self@, line@, opt_text(stem));
        }
        let chars = to_chars(line);
        let t = trim_chars(chars.as_slice());
        self.apply_destination(t.as_slice(), stem);
        self.apply_already(t.as_slice());
        self.events(t.as_slice())
    }

    /// Takes in one line of the downloader's output and gives the events to
    /// show.  The stem of a destination line's file is taken from the path
    /// by the platform's rules: a non-empty piece of that path, which becomes
    /// the track's title; for a path made of portable names, the stem of its
    /// last name as std documents it.
    pub fn process_line(&mut self, line: &str) -> (r: Vec<DownloadAction>)
        ensures
            exists|stem: Option<Seq<char>>|
                {
                    &&& stem matches Some(s) ==> s.len() > 0 && contains(
                        path_after(trim(line@), "[download] Destination:"@),
                        s,
                    )
                    &&& final(self)@ == next_state(old(self)@, line@, stem)
                    &&& r@.map_values(|a: DownloadAction| a@) == step_events(old(self)@, line@, stem)
                },
            !is_destination_line(trim(line@)) ==> final(self)@ == next_state(old(self)@, line@, None),
            is_destination_line(trim(line@)) && is_portable_path(path_after(trim(line@), "[download] Destination:"@))
                ==> {
                let stem = Some(stem_of_name(portable_file_name(path_after(trim(line@), "[download] Destination:"@))));
                &&& final(self)@ == next_state(old(self)@, line@, stem)
                &&& r@.map_values(|a: DownloadAction| a@) == step_events(old(self)@, line@, stem)
            },
            final(self)@.paths == next_state(old(self)@, line@, None).paths,
            final(self)@.already == next_state(old(self)@, line@, None).already,
            old(self).wf() ==> final(self).wf(),
    {
        proof {
            reveal_strlit("[download] Destination:");
        }
        let chars = to_chars(line);
        let t = trim_chars(chars.as_slice());
        let p1 = to_chars("[download] Destination:");
        let stem = if starts_with_exec(t.as_slice(), p1.as_slice()) {
            let empty: Vec<char> = Vec::new();
            let rest = replace_exec(t.as_slice(), p1.as_slice(), empty.as_slice());
            let path = trim_to_string(rest.as_slice());
            path_file_stem(path.as_str())
        } else {
            None
        };
        let ghost s = opt_text(stem);
        let r = self.process_line_with_stem(line, stem);
        assert(final(self)@ == next_state(old(self)@, line@, s));
        r
    }
}

// ---------------------------------------------------------------------------
// After the download
// ---------------------------------------------------------------------------

/// Each of `paths` followed by its partial-download leftovers
/// (`.part` and `.ytdl`).
pub open spec fn with_leftovers(paths: Seq<Seq<char>>) -> Seq<Seq<char>>
    decreases paths.len(),
{
    if paths.len() == 0 {
        Seq::empty()
    } else {
        let p = paths.last();
        with_leftovers(paths.drop_last()) + seq![p, p + ".part"@, p + ".ytdl"@]
    }
}

/// The files to delete after the download ended: when it was cancelled and the
/// track was not already present, every written file and its leftovers.
pub open spec fn cleanup_files(st: TrackerView, aborted: bool) -> Seq<Seq<char>> {
    if aborted && !st.already {
        with_leftovers(st.paths)
    } else {
        Seq::empty()
    }
}

/// `a` followed by `b`, as a new `String`.
fn concat_str(a: &String, b: &str) -> (r: String)
    ensures
        r@ == a@ + b@,
{
    let mut r = a.clone();
    r.append(b);
    r
}

impl DownloadTracker {
    /// The files to delete once the download has ended; `aborted` tells
    /// whether the user cancelled.
    pub fn cleanup_targets(&self, aborted: bool) -> (r: Vec<String>)
        ensures
            r@.map_values(|s: String| s@) == cleanup_files(self@, aborted),
    {
        let mut out: Vec<String> = Vec::new();
        if aborted && !self.already_downloaded {
            let n = self.downloaded_paths.len();
            let ghost paths = self@.paths;
            for i in 0..n
                invariant
                    n == self.downloaded_paths@.len(),
                    paths == self.downloaded_paths@.map_values(|q: String| q@),
                    out@.map_values(|s: String| s@) == with_leftovers(paths.take(i as int)),
            {
                let p = &self.downloaded_paths[i];
                let ghost before = out@;
                out.push(p.clone());
                out.push(concat_str(p, ".part"));
                out.push(concat_str(p, ".ytdl"));
                proof {
                    assert(paths.take(i + 1).drop_last() =~= paths.take(i as int));
                    assert(paths.take(i + 1).last() == p@);
                    assert(out@.map_values(|s: String| s@) =~= before.map_values(|s: String| s@)
                        + seq![p@, p@ + ".part"@, p@ + ".ytdl"@]);
                }
            }
            assert(paths.take(n as int) =~= paths);
        } else {
            assert(out@.map_values(|s: String| s@) =~= Seq::<Seq<char>>::empty());
        }
        out
    }
}

/// The lines of the downloader's error output that a failure report can
/// quote: each trimmed, blank ones left out, in order.
pub open spec fn error_lines(lines: Seq<Seq<char>>) -> Seq<Seq<char>>
    decreases lines.len(),
{
    if lines.len() == 0 {
        Seq::empty()
    } else {
        let prev = error_lines(lines.drop_last());
        let t = trim(lines.last());
        if t.len() == 0 {
            prev
        } else {
            prev.push(t)
        }
    }
}

/// How many of the last error lines a failure report quotes.
pub open spec fn quoted_error_lines() -> nat {
    5
}

/// The last `n` items of `s` (all of them when there are fewer).
pub open spec fn last_items(s: Seq<Seq<char>>, n: nat) -> Seq<Seq<char>> {
    if s.len() <= n {
        s
    } else {
        s.subrange(s.len() - n, s.len() as int)
    }
}

/// The lines `s`, one after the other, with a line break between two.
pub open spec fn joined_lines(s: Seq<Seq<char>>) -> Seq<char>
    decreases s.len(),
{
    if s.len() == 0 {
        Seq::empty()
    } else if s.len() == 1 {
        s[0]
    } else {
        joined_lines(s.drop_last()) + "\n"@ + s.last()
    }
}

/// What a finished download reports: `"Success"` when the downloader exited
/// successfully; else its exit code (`-1` when there is none), followed, on
/// lines of their own, by the last few non-blank lines of its error output.
pub open spec fn exit_outcome_spec(success: bool, code: Option<i32>, stderr: Seq<Seq<char>>) -> Result<Seq<char>, Seq<char>> {
    if success {
        Ok("Success"@)
    } else {
        let head = "yt-dlp exited with code: "@ + signed_decimal(
            match code {
                Some(c) => c as int,
                None => -1,
            },
        );
        let tail = last_items(error_lines(stderr), quoted_error_lines());
        Err(if tail.len() == 0 { head } else { head + "\n"@ + joined_lines(tail) })
    }
}

/// What a finished download reports, from the downloader's exit status and
/// the lines of its error output.
pub fn exit_outcome(success: bool, code: Option<i32>, stderr_lines: &Vec<String>) -> (r: Result<String, String>)
    ensures
        match r {
            Ok(s) => exit_outcome_spec(success, code, stderr_lines@.map_values(|l: String| l@))
                == Ok::<Seq<char>, Seq<char>>(s@),
            Err(e) => exit_outcome_spec(success, code, stderr_lines@.map_values(|l: String| l@))
                == Err::<Seq<char>, Seq<char>>(e@),
        },
{
    if success {
        return Ok(String::from_str("Success"));
    }
    let ghost lv = stderr_lines@.map_values(|l: String| l@);
    let n = stderr_lines.len();
    let mut kept: Vec<String> = Vec::new();
    for i in 0..n
        invariant
            n == stderr_lines@.len(),
            lv == stderr_lines@.map_values(|l: String| l@),
            kept@.map_values(|l: String| l@) == error_lines(lv.take(i as int)),
    {
        assert(lv.take(i + 1).drop_last() =~= lv.take(i as int));
        assert(lv.take(i + 1).last() == stderr_lines@[i as int]@);
        let t = trim_str(stderr_lines[i].as_str());
        if !t.as_str().is_empty() {
            let ghost before = kept@;
            let ghost tv = t@;
            kept.push(t);
            assert(kept@.map_values(|l: String| l@) =~= before.map_values(|l: String| l@).push(tv));
        }
    }
    assert(lv.take(n as int) =~= lv);
    let ghost kv = kept@.map_values(|l: String| l@);
    let k = kept.len();
    let start: usize = if k > 5 { k - 5 } else { 0 };
    let mut tail = String::new();
    for j in start..k
        invariant
            k == kept@.len(),
            kv == kept@.map_values(|l: String| l@),
            start <= k,
            tail@ == joined_lines(kv.subrange(start as int, j as int)),
    {
        let ghost before = tail@;
        assert(kv.subrange(start as int, j + 1).drop_last() =~= kv.subrange(start as int, j as int));
        assert(kv.subrange(start as int, j + 1).last() == kept@[j as int]@);
        if j > start {
            tail.append("\n");
        } else {
            assert(kv.subrange(start as int, j + 1) =~= seq![kept@[j as int]@]);
        }
        tail.append(kept[j].as_str());
        assert(tail@ =~= joined_lines(kv.subrange(start as int, j + 1)));
    }
    assert(last_items(kv, quoted_error_lines()) =~= kv.subrange(start as int, k as int));
    let c: i64 = match code {
        Some(c) => c as i64,
        None => -1,
    };
    let digits = signed_decimal_string(c);
    let mut msg = String::from_str("yt-dlp exited with code: ");
    msg.append(digits.as_str());
    if k > start {
        msg.append("\n");
        msg.append(tail.as_str());
    }
    Err(msg)
}

// ---------------------------------------------------------------------------
// The download session
// ---------------------------------------------------------------------------

/// Whether downloads are running or cancelled, and which downloader processes
/// are alive.
#[derive(Debug)]
pub struct DownloadSession {
    pub abort_flag: bool,
    pub is_downloading: bool,
    pub active_pids: Vec<u32>,
}

/// The abstract value of a `DownloadSession`.
pub struct SessionView {
    pub aborted: bool,
    pub downloading: bool,
    pub pids: Seq<u32>,
}

impl View for DownloadSession {
    type V = SessionView;

    open spec fn view(&self) -> SessionView {
        SessionView { aborted: self.abort_flag, downloading: self.is_downloading, pids: self.active_pids@ }
    }
}

/// The session after the user starts a new batch.
pub open spec fn spec_reset(s: SessionView) -> SessionView {
    SessionView { aborted: false, downloading: true, ..s }
}

/// The session after the user cancels: every process is handed over for
/// termination.
pub open spec fn spec_cancel(s: SessionView) -> SessionView {
    SessionView { aborted: true, downloading: false, pids: Seq::empty() }
}

/// `pids` without any occurrence of `pid`, in order.
pub open spec fn without(pids: Seq<u32>, pid: u32) -> Seq<u32>
    decreases pids.len(),
{
    if pids.len() == 0 {
        pids
    } else if pids.last() == pid {
        without(pids.drop_last(), pid)
    } else {
        without(pids.drop_last(), pid).push(pids.last())
    }
}

/// The session after the process `pid` has ended.
pub open spec fn spec_unregister(s: SessionView, pid: u32) -> SessionView {
    SessionView { pids: without(s.pids, pid), ..s }
}

/// What starting a track gives: refused while the session is cancelled.
pub open spec fn spec_begin(s: SessionView) -> Result<(), Seq<char>> {
    if s.aborted {
        Err("Cancelled"@)
    } else {
        Ok(())
    }
}

impl DownloadSession {
    /// A session in which nothing runs.
    pub fn new() -> (r: DownloadSession)
        ensures
            r@ == (SessionView { aborted: false, downloading: false, pids: Seq::empty() }),
    {
        DownloadSession { abort_flag: false, is_downloading: false, active_pids: Vec::new() }
    }

    /// Clears a previous cancellation as a new batch starts.
    pub fn reset(&mut self)
        ensures
            final(self)@ == spec_reset(old(self)@),
    {
        self.abort_flag = false;
        self.is_downloading = true;
    }

    /// Cancels the batch and hands over the processes to terminate.
    pub fn cancel(&mut self) -> (r: Vec<u32>)
        ensures
            final(self)@ == spec_cancel(old(self)@),
            r@ == old(self)@.pids,
    {
        self.abort_flag = true;
        self.is_downloading = false;
        let mut pids: Vec<u32> = Vec::new();
        std::mem::swap(&mut pids, &mut self.active_pids);
        pids
    }

    /// Whether a track may start; refused with `"Cancelled"` after a cancel.
    pub fn begin_track(&self) -> (r: Result<(), String>)
        ensures
            match r {
                Ok(()) => spec_begin(self@) == Ok::<(), Seq<char>>(()),
                Err(e) => spec_begin(self@) == Err::<(), Seq<char>>(e@),
            },
    {
        if self.abort_flag {
            Err(String::from_str("Cancelled"))
        } else {
            Ok(())
        }
    }

    /// Records a started downloader process.
    pub fn register(&mut self, pid: u32)
        ensures
            final(self)@ == (SessionView { pids: old(self)@.pids.push(pid), ..old(self)@ }),
    {
        self.active_pids.push(pid);
    }

    /// Forgets an ended downloader process.
    pub fn unregister(&mut self, pid: u32)
        ensures
            final(self)@ == spec_unregister(old(self)@, pid),
    {
        let ghost old_pids = self.active_pids@;
        let mut kept: Vec<u32> = Vec::new();
        let n = self.active_pids.len();
        for i in 0..n
            invariant
                n == self.active_pids@.len(),
                self.active_pids@ == old_pids,
                kept@ == without(old_pids.take(i as int), pid),
        {
            proof {
                assert(old_pids.take(i + 1).drop_last() =~= old_pids.take(i as int));
            }
            if self.active_pids[i] != pid {
                kept.push(self.active_pids[i]);
            }
        }
        assert(old_pids.take(n as int) =~= old_pids);
        self.active_pids = kept;
    }

    /// Whether the user has cancelled.
    pub fn is_aborted(&self) -> (r: bool)
        ensures
            r == self@.aborted,
    {
        self.abort_flag
    }
}

} // verus!
