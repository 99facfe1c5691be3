use soundsync::ffmpeg::{
    convert_args, duration_text, output_path_for, plan_conversion, plan_conversion_with, time_fields, time_text,
};
use soundsync::models::{
    default_after_download, default_auto_url_detection, default_quality, default_true, AppConfig,
};
use soundsync::utils::{
    command_output_text, format_winget_error, installer_command, presence_next, presence_step, tool_check_result,
    winget_install_args, winget_outcome, winget_output_means_installed, PresenceReply, PresenceStep,
};

#[test]
fn setting_defaults() {
    assert_eq!(default_after_download(), "nothing");
    assert!(default_auto_url_detection());
    assert!(default_true());
    assert_eq!(default_quality(), "best");
    let c = AppConfig::default_for_home(Some("/home/me".to_string()));
    assert_eq!(c.download_folder, "/home/me");
    assert_eq!(c.language, "en");
    assert!(c.auto_url_detection);
    assert!(!c.discord_rpc);
    assert_eq!(c.quality, "best");
    assert_eq!(c.after_download, "nothing");
    assert!(c.eco_mode && c.auto_tagging && c.auto_scroll_log);
    assert_eq!(AppConfig::default_for_home(None).download_folder, ".");
}

#[test]
fn winget_installed_detection() {
    assert!(winget_output_means_installed("Found an existing package already installed."));
    assert!(winget_output_means_installed("NO AVAILABLE UPGRADE found"));
    assert!(winget_output_means_installed("Kein verfügbares Upgrade gefunden."));
    assert!(winget_output_means_installed("KEINE NEUEREN PAKETVERSIONEN VERFÜGBAR"));
    assert!(!winget_output_means_installed("Installer failed with exit code 1603"));
}

#[test]
fn winget_error_messages() {
    assert_eq!(
        format_winget_error("FFmpeg", Some(-1978335189), "  \n"),
        "Installation failed for FFmpeg: winget exited with code -1978335189."
    );
    assert_eq!(
        format_winget_error("yt-dlp", None, " boom \n"),
        "Installation failed for yt-dlp: winget exited with code unknown.\nboom"
    );
    assert_eq!(winget_outcome("x", false, Some(1), "already installed", "done"), Ok("done".to_string()));
    assert_eq!(winget_outcome("x", true, Some(0), "", "done"), Ok("done".to_string()));
    assert_eq!(
        winget_outcome("x", false, Some(1), "err", "done"),
        Err("Installation failed for x: winget exited with code 1.\nerr".to_string())
    );
}

#[test]
fn winget_install_arguments() {
    assert_eq!(
        winget_install_args("--id=Gyan.FFmpeg"),
        vec!["install", "--id=Gyan.FFmpeg", "-e", "--silent", "--accept-source-agreements", "--accept-package-agreements"]
    );
}

#[test]
fn conversion_of_plain_paths() {
    let plan = plan_conversion("song.wav", "mp3", "low");
    assert_eq!(plan.stem, "song");
    assert_eq!(plan.output_path, "/song.mp3");
    let plan = plan_conversion("/music/.hidden", "mp3", "low");
    assert_eq!(plan.stem, ".hidden");
    assert_eq!(plan.output_path, "/music/.hidden.mp3");
    let plan = plan_conversion("a/b/tape.", "ogg", "low");
    assert_eq!(plan.stem, "tape");
    assert_eq!(plan.output_path, "a/b/tape.ogg");
    let plan = plan_conversion("/x.tar.gz", "GZ", "low");
    assert_eq!(plan.stem, "x.tar");
    assert_eq!(plan.output_path, "//x.tar_converted.GZ");
}

#[test]
fn command_output_joining() {
    assert_eq!(command_output_text(" out \n", "\terr "), "out\nerr");
    assert_eq!(command_output_text("", " err"), "err");
    assert_eq!(command_output_text("out", "  "), "out");
    assert_eq!(command_output_text(" ", ""), "");
}

#[test]
fn tool_versions() {
    assert_eq!(tool_check_result(true, "ffmpeg version 6.0\nbuilt with gcc\n"), (true, "ffmpeg version 6.0".to_string()));
    assert_eq!(tool_check_result(false, ""), (false, "unknown".to_string()));
}

#[test]
fn installer_commands() {
    let (prog, args) = installer_command("C:/tmp/setup.msi");
    assert_eq!(prog, "msiexec");
    assert_eq!(args, vec!["/i", "C:/tmp/setup.msi", "/passive"]);
    let (prog, args) = installer_command("C:/tmp/setup.exe");
    assert_eq!(prog, "C:/tmp/setup.exe");
    assert!(args.is_empty());
}

#[test]
fn presence_steps() {
    assert_eq!(presence_step(false, true), PresenceStep::Close);
    assert_eq!(presence_step(true, false), PresenceStep::Connect);
    assert_eq!(presence_step(true, true), PresenceStep::Show);
}

#[test]
fn presence_failures_drop_the_connection() {
    let (kept, next) = presence_next(PresenceStep::Connect, Err("no discord".to_string()));
    assert!(!kept);
    assert!(matches!(next, PresenceReply::Finish(Err(ref e)) if e == "no discord"));
    let (kept, next) = presence_next(PresenceStep::Connect, Ok(()));
    assert!(kept);
    assert!(matches!(next, PresenceReply::Continue(PresenceStep::Show)));
    let (kept, next) = presence_next(PresenceStep::Show, Err("pipe closed".to_string()));
    assert!(!kept);
    assert!(matches!(next, PresenceReply::Finish(Err(ref e)) if e == "pipe closed"));
    let (kept, next) = presence_next(PresenceStep::Show, Ok(()));
    assert!(kept);
    assert!(matches!(next, PresenceReply::Finish(Ok(()))));
    let (kept, next) = presence_next(PresenceStep::Close, Err("ignored".to_string()));
    assert!(!kept);
    assert!(matches!(next, PresenceReply::Finish(Ok(()))));
}

#[test]
fn conversion_outputs() {
    assert_eq!(output_path_for("/m", "song", "MP3", "mp3"), "/m/song_converted.mp3");
    assert_eq!(output_path_for("/m", "song", "wav", "mp3"), "/m/song.mp3");
    let plan = plan_conversion("/m/song.wav", "flac", "max");
    assert_eq!(plan.stem, "song");
    assert_eq!(plan.output_path, "/m/song.flac");
    assert_eq!(
        plan.args,
        vec!["-hwaccel", "auto", "-i", "/m/song.wav", "-threads", "0", "-y", "-b:a", "500k", "-b:v", "8000k", "/m/song.flac"]
    );
    let plan = plan_conversion("/m/track.MP3", "mp3", "low");
    assert_eq!(plan.output_path, "/m/track_converted.mp3");
    let plan = plan_conversion_with("x", "ogg", "low", None, None, None);
    assert_eq!(plan.stem, "output");
    assert_eq!(plan.output_path, "./output.ogg");
    let plan = plan_conversion_with(
        "d/a.b.wav",
        "wav",
        "high",
        Some("a.b".to_string()),
        Some("d".to_string()),
        Some("WAV".to_string()),
    );
    assert_eq!(plan.output_path, "d/a.b_converted.wav");
    assert_eq!(plan.args[plan.args.len() - 1], "d/a.b_converted.wav");
    assert_eq!(convert_args("in", "medium", "out"), vec!["-hwaccel", "auto", "-i", "in", "-threads", "0", "-y", "-b:a", "192k", "out"]);
    assert_eq!(convert_args("in", "other", "out").len(), 8);
}

#[test]
fn ffmpeg_reported_times() {
    assert_eq!(
        duration_text("  Duration: 00:03:25.47, start: 0.000000, bitrate: 320 kb/s").as_deref(),
        Some("00:03:25.47")
    );
    assert_eq!(duration_text("no length here"), None);
    assert_eq!(
        time_text("size=  1024kB time=00:01:02.50 bitrate= 134.2kbits/s").as_deref(),
        Some("00:01:02.50")
    );
    assert_eq!(time_text("time=12:00:00.00\r").as_deref(), Some("12:00:00.00"));
    assert_eq!(time_text("nothing"), None);
    assert_eq!(
        time_fields("01:02:03.5"),
        Some(("01".to_string(), "02".to_string(), "03.5".to_string()))
    );
    assert_eq!(time_fields("02:03.5"), None);
    assert_eq!(time_fields("1:2:3:4"), None);
}
