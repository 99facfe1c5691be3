use soundsync::download::{exit_outcome, DownloadAction, DownloadSession, DownloadTracker};
use soundsync::models::{DownloadProgress, DownloadRequest};
use soundsync::ytdlp::download_args;

fn progress_of(a: &DownloadAction) -> Option<(&DownloadProgress, bool)> {
    match a {
        DownloadAction::Progress { progress, store } => Some((progress, *store)),
        DownloadAction::Log(_) => None,
    }
}

#[test]
fn destination_line_records_file_and_title() {
    let mut t = DownloadTracker::new("Queued".to_string(), 2, 5);
    let ev = t.process_line("[download] Destination: /music/My Song.webm\n");
    assert_eq!(t.current_title, "My Song");
    assert_eq!(t.downloaded_paths, vec!["/music/My Song.webm".to_string()]);
    assert_eq!(ev.len(), 1);
    match &ev[0] {
        DownloadAction::Log(l) => assert_eq!(l, "[download] Destination: /music/My Song.webm"),
        _ => panic!("expected a log line"),
    }
}

#[test]
fn destination_with_given_stem() {
    let mut t = DownloadTracker::new("Queued".to_string(), 1, 1);
    t.process_line_with_stem("[download] Destination: a/b.mp3", Some("b".to_string()));
    assert_eq!(t.current_title, "b");
    t.process_line_with_stem("[download] Destination: a/b.mp3", None);
    assert_eq!(t.current_title, "b");
    assert_eq!(t.downloaded_paths.len(), 1);
}

#[test]
fn percent_line_reports_progress_without_log() {
    let mut t = DownloadTracker::new("Track".to_string(), 3, 7);
    let ev = t.process_line("[download]  42.5% of 3.00MiB at  1.20MiB/s ETA 00:02");
    assert_eq!(ev.len(), 1);
    let (p, store) = progress_of(&ev[0]).unwrap();
    assert!(store);
    assert_eq!(p.status, "downloading");
    assert_eq!(p.percent, "42.5");
    assert_eq!(p.speed, "1.20MiB/s");
    assert_eq!(p.eta, "00:02");
    assert_eq!(p.title, "Track");
    assert_eq!(p.filename, "Track");
    assert_eq!(p.current, 3);
    assert_eq!(p.total, 7);
}

#[test]
fn percent_line_without_eta() {
    let mut t = DownloadTracker::new("T".to_string(), 1, 1);
    let ev = t.process_line("[download] 100% of 3.00MiB at 2MiB/s");
    let (p, _) = progress_of(&ev[0]).unwrap();
    assert_eq!(p.percent, "100");
    assert_eq!(p.speed, "2MiB/s");
    assert_eq!(p.eta, "");
}

#[test]
fn percent_line_with_eta_before_speed_gives_nothing() {
    let mut t = DownloadTracker::new("T".to_string(), 1, 1);
    let ev = t.process_line("[download] ETA 5 at 9%");
    let (p, _) = progress_of(&ev[0]).unwrap();
    assert_eq!(p.percent, "59");
    assert_eq!(p.speed, "");
    assert_eq!(p.eta, "");
}

#[test]
fn already_downloaded_line() {
    let mut t = DownloadTracker::new("Song".to_string(), 1, 2);
    let ev = t.process_line("[download] /music/Song.mp3 has already been downloaded");
    assert!(t.already_downloaded);
    assert_eq!(t.downloaded_paths, vec!["/music/Song.mp3".to_string()]);
    assert_eq!(ev.len(), 2);
    let (p, store) = progress_of(&ev[0]).unwrap();
    assert!(!store);
    assert_eq!(p.percent, "100");
    assert_eq!(p.speed, "Skipped (Exists)");
    assert_eq!(p.eta, "0s");
    assert!(matches!(ev[1], DownloadAction::Log(_)));
    // Nothing is deleted for a track that was already there.
    assert!(t.cleanup_targets(true).is_empty());
}

#[test]
fn converting_and_merge_lines() {
    let mut t = DownloadTracker::new("Clip".to_string(), 1, 1);
    let ev = t.process_line("[Merger] Merging formats into \"/v/Clip.mp4\"");
    assert_eq!(t.downloaded_paths, vec!["/v/Clip.mp4".to_string()]);
    let (p, store) = progress_of(&ev[0]).unwrap();
    assert!(store);
    assert_eq!(p.status, "converting");
    assert_eq!(p.percent, "100");
    let ev2 = t.process_line("[ExtractAudio] Not converting audio /v/Clip.mp4");
    assert_eq!(ev2.len(), 1);
    assert!(matches!(ev2[0], DownloadAction::Log(_)));
    let ev3 = t.process_line("[ExtractAudio] Destination: /v/Clip.mp3");
    assert_eq!(ev3.len(), 2);
    assert_eq!(t.downloaded_paths.len(), 2);
}

#[test]
fn cancelled_download_cleans_every_file() {
    let mut t = DownloadTracker::new("X".to_string(), 1, 1);
    t.process_line("[download] Destination: /d/X.webm");
    t.process_line("[ExtractAudio] Destination: /d/X.mp3");
    t.process_line("[ExtractAudio] Destination: /d/X.mp3");
    assert_eq!(
        t.cleanup_targets(true),
        vec!["/d/X.webm", "/d/X.webm.part", "/d/X.webm.ytdl", "/d/X.mp3", "/d/X.mp3.part", "/d/X.mp3.ytdl"]
    );
    assert!(t.cleanup_targets(false).is_empty());
}

#[test]
fn exit_outcomes() {
    let none: Vec<String> = Vec::new();
    assert_eq!(exit_outcome(true, Some(0), &none), Ok("Success".to_string()));
    assert_eq!(exit_outcome(true, Some(0), &vec!["WARNING: x".to_string()]), Ok("Success".to_string()));
    assert_eq!(exit_outcome(false, Some(2), &none), Err("yt-dlp exited with code: 2".to_string()));
    assert_eq!(exit_outcome(false, None, &none), Err("yt-dlp exited with code: -1".to_string()));
}

#[test]
fn failures_quote_last_error_lines() {
    let lines: Vec<String> = ["a", "  ", "b", "c ", "d", "e", "\tf", ""].iter().map(|s| s.to_string()).collect();
    assert_eq!(
        exit_outcome(false, Some(1), &lines),
        Err("yt-dlp exited with code: 1\nb\nc\nd\ne\nf".to_string())
    );
    let one = vec!["ERROR: [youtube] abc: Video unavailable".to_string()];
    assert_eq!(
        exit_outcome(false, Some(1), &one),
        Err("yt-dlp exited with code: 1\nERROR: [youtube] abc: Video unavailable".to_string())
    );
    let blank = vec![" ".to_string(), "".to_string()];
    assert_eq!(exit_outcome(false, Some(3), &blank), Err("yt-dlp exited with code: 3".to_string()));
}

#[test]
fn session_cancel_and_reset() {
    let mut s = DownloadSession::new();
    assert!(s.begin_track().is_ok());
    s.register(10);
    s.register(11);
    s.register(10);
    s.unregister(10);
    assert_eq!(s.active_pids, vec![11]);
    s.register(12);
    let killed = s.cancel();
    assert_eq!(killed, vec![11, 12]);
    assert!(s.active_pids.is_empty());
    assert!(s.is_aborted());
    assert!(!s.is_downloading);
    assert_eq!(s.begin_track(), Err("Cancelled".to_string()));
    s.reset();
    assert!(s.begin_track().is_ok());
    assert!(s.is_downloading);
}

fn request(format: &str, quality: &str, cookies: Option<&str>) -> DownloadRequest {
    DownloadRequest {
        url: "https://youtu.be/x".to_string(),
        format: format.to_string(),
        folder: "/music".to_string(),
        cookies_path: cookies.map(|c| c.to_string()),
        quality: quality.to_string(),
    }
}

#[test]
fn audio_download_arguments() {
    let args = download_args(&request("ogg", "good", Some("/c.txt")), true, true);
    assert_eq!(
        args,
        vec![
            "--newline", "--no-color", "--progress", "--windows-filenames", "-o",
            "/music/%(title)s.%(ext)s", "--extractor-args", "youtube:player_client=android",
            "--postprocessor-args", "ffmpeg:-threads 0", "-f", "bestaudio/best", "-x",
            "--audio-format", "vorbis", "--audio-quality", "2", "--cookies", "/c.txt",
            "--embed-metadata", "--embed-thumbnail", "--convert-thumbnails", "jpg",
            "https://youtu.be/x",
        ]
    );
}

#[test]
fn video_download_arguments() {
    let args = download_args(&request("mp4", "720p", Some("")), true, false);
    assert_eq!(&args[10..], &["-f", "bestvideo[height<=720]+bestaudio/best", "--merge-output-format", "mp4", "https://youtu.be/x"]);
    let args = download_args(&request("mkv", "whatever", Some("/c")), false, false);
    assert_eq!(&args[10..], &["-f", "bestvideo+bestaudio/best", "--merge-output-format", "mkv", "https://youtu.be/x"]);
    let args = download_args(&request("mp3", "best", None), false, false);
    assert_eq!(&args[10..], &["-f", "bestaudio/best", "-x", "--audio-format", "mp3", "--audio-quality", "0", "https://youtu.be/x"]);
}

#[test]
fn already_present_stays_present() {
    let mut t = DownloadTracker::new("S".to_string(), 4, 9);
    t.process_line("[download] S.mp3 has already been downloaded");
    t.process_line("[download] Destination: other.mp3");
    t.process_line("[download]  10.0% of 1MiB at 1MiB/s ETA 00:01");
    assert!(t.already_downloaded);
    assert_eq!(t.track_index, 4);
    assert_eq!(t.total_tracks, 9);
    assert_eq!(t.downloaded_paths, vec!["S.mp3".to_string(), "other.mp3".to_string()]);
}
