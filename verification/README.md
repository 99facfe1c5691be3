# soundsync

The logic of a desktop downloader for YouTube, SoundCloud, Spotify and Apple
Music links, written in Verus: each function states what it does in
`requires`/`ensures`, and Verus proves it.

`src/` is the verified library:

- `text` — character-level string operations (find, replace, trim, split,
  lines, decimal numbers) with their specifications.
- `json` — the JSON value that the extraction logic reads; `serde_json` parses.
- `models` — the values passed between the parts of the application.
- `listing` — playlists from `yt-dlp --dump-json` output.
- `spotify`, `applemusic` — playlists and searches from the services' pages.
- `ytdlp` — the command lines for listing and downloading, and where a link is
  read from.
- `download` — following a download's output line by line, the files to
  delete after a cancel, the report of a finished download (with the last
  error lines of a failure), and the download session (cancel/reset).
- `ffmpeg` — conversion output files, command lines, reported times.
- `utils` — tool versions, winget arguments and results, installer commands, the Discord
  presence updates (what to do next, and what a failed call leaves).
- `server` — request routing of the remote-control server (files are served
  and deleted only under names that are one entry of the download folder), and its
  settings reply.
- `paths` — the platform's path splitting, and what it gives on every
  platform for paths made of portable names.
- `laws` — properties that span operations, proved.

`app/` is the Tauri application around it: windows, tray, processes, files,
network and serialisation. `tests/` exercises the library on concrete values.
