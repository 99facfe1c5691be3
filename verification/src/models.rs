//! The values that the application passes between its parts.

use vstd::prelude::*;

verus! {

/// The text of an optional string.
pub open spec fn opt_text(o: Option<String>) -> Option<Seq<char>> {
    match o {
        Some(s) => Some(s@),
        None => None,
    }
}

/// The saved settings of the application.
#[derive(Debug, Clone)]
pub struct AppConfig {
    pub download_folder: String,
    pub cookies_path: String,
    pub language: String,
    pub disable_changelog: bool,
    pub auto_url_detection: bool,
    pub discord_rpc: bool,
    pub accent_color: Option<String>,
    pub custom_background: Option<String>,
    pub quality: String,
    pub auto_scroll_log: bool,
    pub eco_mode: bool,
    pub auto_tagging: bool,
    pub after_download: String,
}

/// What to do once a download finishes, when the settings do not say.
pub fn default_after_download() -> (r: String)
    ensures
        r@ == "nothing"@,
{
    String::from_str("nothing")
}

/// Whether clipboard URLs are detected, when the settings do not say.
pub fn default_auto_url_detection() -> (r: bool)
    ensures
        r,
{
    true
}

/// The default of the settings that are on unless switched off.
pub fn default_true() -> (r: bool)
    ensures
        r,
{
    true
}

/// The download quality, when the settings do not say.
pub fn default_quality() -> (r: String)
    ensures
        r@ == "best"@,
{
    String::from_str("best")
}

impl AppConfig {
    /// The settings of a first start, downloading into `home` (the user's home
    /// directory, when it is known) or else into `"."`.
    pub fn default_for_home(home: Option<String>) -> (r: AppConfig)
        ensures
            r.download_folder@ == match home {
                Some(h) => h@,
                None => "."@,
            },
            r.cookies_path@ == Seq::<char>::empty(),
            r.language@ == "en"@,
            !r.disable_changelog,
            r.auto_url_detection,
            !r.discord_rpc,
            r.accent_color is None,
            r.custom_background is None,
            r.quality@ == "best"@,
            r.auto_scroll_log,
            r.eco_mode,
            r.auto_tagging,
            r.after_download@ == "nothing"@,
    {
        let download_folder = match home {
            Some(h) => h,
            None => String::from_str("."),
        };
        AppConfig {
            download_folder,
            cookies_path: String::new(),
            language: String::from_str("en"),
            disable_changelog: false,
            auto_url_detection: true,
            discord_rpc: false,
            accent_color: None,
            custom_background: None,
            quality: String::from_str("best"),
            auto_scroll_log: true,
            eco_mode: true,
            auto_tagging: true,
            after_download: String::from_str("nothing"),
        }
    }
}

/// A URL handed over by the remote-control page.
#[derive(Debug, Clone)]
pub struct RemotePayload {
    pub url: String,
    pub format: Option<String>,
    pub auto_start: Option<bool>,
}

/// One track of a playlist.  `duration` is the number of seconds as the
/// listing wrote it, when it gave one.
#[derive(Debug, Clone)]
pub struct PlaylistEntry {
    pub title: String,
    pub url: String,
    pub thumbnail: Option<String>,
    pub duration: Option<String>,
    pub index: usize,
}

/// The abstract value of a `PlaylistEntry`.
pub struct EntryView {
    pub title: Seq<char>,
    pub url: Seq<char>,
    pub thumbnail: Option<Seq<char>>,
    pub duration: Option<Seq<char>>,
    pub index: int,
}

impl View for PlaylistEntry {
    type V = EntryView;

    open spec fn view(&self) -> EntryView {
        EntryView {
            title: self.title@,
            url: self.url@,
            thumbnail: opt_text(self.thumbnail),
            duration: opt_text(self.duration),
            index: self.index as int,
        }
    }
}

/// A playlist: its title and its tracks.
#[derive(Debug, Clone)]
pub struct PlaylistInfo {
    pub title: String,
    pub entries: Vec<PlaylistEntry>,
    pub total: usize,
}

/// The abstract value of a `PlaylistInfo`.
pub struct PlaylistView {
    pub title: Seq<char>,
    pub entries: Seq<EntryView>,
    pub total: int,
}

impl View for PlaylistInfo {
    type V = PlaylistView;

    open spec fn view(&self) -> PlaylistView {
        PlaylistView {
            title: self.title@,
            entries: self.entries@.map_values(|e: PlaylistEntry| e@),
            total: self.total as int,
        }
    }
}

/// The state of the running download, as shown to the user.  `percent` is the
/// percentage as text (`"100"` for a finished step).
#[derive(Debug, Clone)]
pub struct DownloadProgress {
    pub status: String,
    pub percent: String,
    pub speed: String,
    pub eta: String,
    pub title: String,
    pub current: usize,
    pub total: usize,
    pub filename: String,
}

/// The abstract value of a `DownloadProgress`.
pub struct ProgressView {
    pub status: Seq<char>,
    pub percent: Seq<char>,
    pub speed: Seq<char>,
    pub eta: Seq<char>,
    pub title: Seq<char>,
    pub current: int,
    pub total: int,
    pub filename: Seq<char>,
}

impl View for DownloadProgress {
    type V = ProgressView;

    open spec fn view(&self) -> ProgressView {
        ProgressView {
            status: self.status@,
            percent: self.percent@,
            speed: self.speed@,
            eta: self.eta@,
            title: self.title@,
            current: self.current as int,
            total: self.total as int,
            filename: self.filename@,
        }
    }
}

/// A request to download one URL.
#[derive(Debug, Clone)]
pub struct DownloadRequest {
    pub url: String,
    pub format: String,
    pub folder: String,
    pub cookies_path: Option<String>,
    pub quality: String,
}

/// A request to convert one file.
#[derive(Debug, Clone)]
pub struct ConvertRequest {
    pub input_path: String,
    pub output_format: String,
    pub quality: String,
}

/// Which of the external tools are present, and their versions.
#[derive(Debug, Clone)]
pub struct SystemCheckResult {
    pub ffmpeg_installed: bool,
    pub ffmpeg_version: String,
    pub ytdlp_installed: bool,
    pub ytdlp_version: String,
    pub pot_provider_installed: bool,
    pub pot_provider_status: String,
}

/// The entry for a track that is to be found by a search: it downloads the
/// first search result for its title.
pub open spec fn search_entry_view(title: Seq<char>, index: int) -> EntryView {
    EntryView { title, url: "ytsearch1:"@ + title, thumbnail: None, duration: None, index }
}

/// The entry for a track that is to be found by a search for `title`.
pub fn search_entry(title: String, index: usize) -> (r: PlaylistEntry)
    ensures
        r@ == search_entry_view(title@, index as int),
{
    let mut url = String::from_str("ytsearch1:");
    url.append(title.as_str());
    PlaylistEntry { title, url, thumbnail: None, duration: None, index }
}

/// The playlist titled `title` with the entries `entries`.
pub fn playlist_of(title: String, entries: Vec<PlaylistEntry>) -> (r: PlaylistInfo)
    ensures
        r@ == (PlaylistView {
            title: title@,
            entries: entries@.map_values(|e: PlaylistEntry| e@),
            total: entries@.len() as int,
        }),
{
    let total = entries.len();
    PlaylistInfo { title, entries, total }
}

} // verus!
