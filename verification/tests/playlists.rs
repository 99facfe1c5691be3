use soundsync::applemusic::{apple_music_playlist_from_page, apple_playlist_from_json, apple_track_entries};
use soundsync::json::JsonValue;
use soundsync::listing::{listing_entry, playlist_from_listing, playlist_from_listing_output};
use soundsync::spotify::{
    embed_url, spotify_playlist_from_json, spotify_playlist_from_page, spotify_search_from_page,
    spotify_track_entries,
};
use soundsync::ytdlp::{listing_args, playlist_source, search_link, trending_link, PlaylistSource};

const SPOTIFY_MARKER: &str = "<script id=\"__NEXT_DATA__\" type=\"application/json\">";

fn spotify_page(json: &str) -> String {
    format!("<html><head></head><body>{}{}</script></body></html>", SPOTIFY_MARKER, json)
}

#[test]
fn spotify_embed_links() {
    assert_eq!(
        embed_url("https://open.spotify.com/playlist/abc"),
        "https://open.spotify.com/embed/playlist/abc"
    );
    assert_eq!(
        embed_url("https://open.spotify.com/album/xyz"),
        "https://open.spotify.com/embed/album/xyz"
    );
    assert_eq!(embed_url("https://open.spotify.com/track/1"), "https://open.spotify.com/track/1");
}

#[test]
fn spotify_collection_page() {
    let json = r#"{"props":{"pageProps":{"state":{"data":{"entity":{"name":"Road Trip","trackList":[
        {"title":"Don&#39;t Stop","subtitle":"Queen &amp; Friends"},
        {"title":"Missing artist"},
        {"title":"Song 3","subtitle":"Band"}]}}}}}}"#;
    let p = spotify_playlist_from_page(&spotify_page(json)).unwrap();
    assert_eq!(p.title, "Road Trip");
    assert_eq!(p.total, 2);
    assert_eq!(p.entries[0].title, "Queen & Friends - Don't Stop");
    assert_eq!(p.entries[0].url, "ytsearch1:Queen & Friends - Don't Stop");
    assert_eq!(p.entries[0].index, 1);
    assert_eq!(p.entries[1].title, "Band - Song 3");
    assert_eq!(p.entries[1].index, 3);
    assert!(p.entries[1].thumbnail.is_none());
    assert!(p.entries[1].duration.is_none());
}

#[test]
fn spotify_title_fallbacks() {
    let json = r#"{"props":{"pageProps":{"state":{"data":{"entity":{"title":"Album X","trackList":[{"title":"a","subtitle":"b"}]}}}}}}"#;
    assert_eq!(spotify_playlist_from_page(&spotify_page(json)).unwrap().title, "Album X");
    let json = r#"{"props":{"pageProps":{"state":{"data":{"entity":{"trackList":[{"title":"a","subtitle":"b"}]}}}}}}"#;
    assert_eq!(spotify_playlist_from_page(&spotify_page(json)).unwrap().title, "Spotify Playlist");
}

#[test]
fn spotify_collection_errors() {
    let msg = "Could not parse Spotify playlist/album".to_string();
    assert_eq!(spotify_playlist_from_page("<html></html>").unwrap_err(), msg);
    assert_eq!(spotify_playlist_from_page(&spotify_page("not json")).unwrap_err(), msg);
    assert_eq!(spotify_playlist_from_page(&spotify_page(r#"{"props":{}}"#)).unwrap_err(), msg);
    let unterminated = format!("{}{{}}", SPOTIFY_MARKER);
    assert_eq!(spotify_playlist_from_page(&unterminated).unwrap_err(), msg);
}

#[test]
fn spotify_track_page() {
    let body = "<head><title>Bohemian Rhapsody - song and lyrics by Queen | Spotify</title></head>";
    assert_eq!(spotify_search_from_page(body).unwrap(), "ytsearch1:Bohemian Rhapsody Queen");
    let body = "<title> Tom &amp; Jerry &#39;Live&#39; - single by Duo - Spotify </title>";
    assert_eq!(spotify_search_from_page(body).unwrap(), "ytsearch1:Tom & Jerry 'Live' Duo");
    assert_eq!(
        spotify_search_from_page("<title>no end").unwrap_err(),
        "Could not extract title from Spotify page"
    );
    assert!(spotify_search_from_page("nothing").is_err());
}

const APPLE_MARKER: &str = "<script type=\"application/ld+json\">";

#[test]
fn apple_music_page_skips_other_blocks() {
    let body = format!(
        "{m}{{\"@type\":\"WebSite\"}}</script> junk {m}not json</script>{m}{{\"@type\":\"MusicAlbum\",\"name\":\"Best Of\",\"track\":[{{\"@type\":\"MusicRecording\",\"name\":\"One\",\"byArtist\":{{\"name\":\"Artist\"}}}},{{\"@type\":\"MusicVideo\",\"name\":\"Two\",\"byArtist\":{{\"name\":\"A\"}}}},{{\"@type\":\"MusicRecording\",\"name\":\"Three\",\"byArtist\":\"plain\"}},{{\"@type\":\"MusicRecording\",\"name\":\"Four\",\"byArtist\":{{\"name\":\"B\"}}}}]}}</script>",
        m = APPLE_MARKER
    );
    let p = apple_music_playlist_from_page(&body).unwrap();
    assert_eq!(p.title, "Best Of");
    assert_eq!(p.total, 2);
    assert_eq!(p.entries[0].title, "Artist - One");
    assert_eq!(p.entries[0].url, "ytsearch1:Artist - One");
    assert_eq!(p.entries[0].index, 1);
    assert_eq!(p.entries[1].title, "B - Four");
    assert_eq!(p.entries[1].index, 4);
}

#[test]
fn apple_music_errors() {
    let msg = "Konnte Apple Music Playlist nicht auswerten. Bitte stelle sicher, dass die Playlist öffentlich ist.";
    assert_eq!(apple_music_playlist_from_page("<html/>").unwrap_err(), msg);
    let empty = format!("{}{{\"@type\":\"MusicPlaylist\",\"track\":[]}}</script>", APPLE_MARKER);
    assert_eq!(apple_music_playlist_from_page(&empty).unwrap_err(), msg);
    let named = format!(
        "{}{{\"@type\":\"MusicPlaylist\",\"track\":[{{\"@type\":\"MusicRecording\",\"name\":\"x\",\"byArtist\":{{\"name\":\"y\"}}}}]}}</script>",
        APPLE_MARKER
    );
    assert_eq!(apple_music_playlist_from_page(&named).unwrap().title, "Apple Music Playlist");
}

#[test]
fn listing_output_entries() {
    let out = [
        "{\"title\":\"First\",\"url\":\"u1\",\"duration\":12.5,\"playlist_title\":\"Mix\",\"thumbnails\":[{\"url\":\"t0\"},{\"url\":\"t1\"}]}\n",
        "\n",
        "garbage\n",
        "{\"webpage_url\":\"w4\",\"thumbnail\":\"th4\",\"duration\":200}\r\n",
        "{\"url\":\"raw5\",\"original_url\":\"o5\",\"webpage_url\":null}\n",
        "{\"url\":null}\n",
    ]
    .join("");
    let out = out.as_str();
    let p = playlist_from_listing_output(out);
    assert_eq!(p.title, "Mix");
    assert_eq!(p.total, 4);
    assert_eq!(p.entries[0].title, "First");
    assert_eq!(p.entries[0].url, "u1");
    assert_eq!(p.entries[0].thumbnail.as_deref(), Some("t1"));
    assert_eq!(p.entries[0].duration.as_deref(), Some("12.5"));
    assert_eq!(p.entries[0].index, 1);
    assert_eq!(p.entries[1].title, "Track 4");
    assert_eq!(p.entries[1].url, "w4");
    assert_eq!(p.entries[1].thumbnail.as_deref(), Some("th4"));
    assert_eq!(p.entries[1].duration.as_deref(), Some("200"));
    assert_eq!(p.entries[1].index, 4);
    assert_eq!(p.entries[2].url, "o5");
    assert_eq!(p.entries[2].index, 5);
    assert_eq!(p.entries[3].url, "");
    assert_eq!(p.entries[3].index, 6);
}

#[test]
fn listing_title_comes_from_first_line_only() {
    let out = "{\"title\":\"a\"}\n{\"title\":\"b\",\"playlist_title\":\"Late\"}\n";
    assert_eq!(playlist_from_listing_output(out).title, "Downloads");
    assert_eq!(playlist_from_listing_output("").total, 0);
}

#[test]
fn listing_failures() {
    assert_eq!(
        playlist_from_listing(false, "", "ERROR: bad").unwrap_err(),
        "yt-dlp error: ERROR: bad"
    );
    assert_eq!(playlist_from_listing(false, "{\"title\":\"x\"}", "").unwrap().total, 1);
    assert_eq!(playlist_from_listing(true, "", "").unwrap().total, 0);
}

#[test]
fn link_sources_and_listing_arguments() {
    assert_eq!(playlist_source("https://open.spotify.com/playlist/1"), PlaylistSource::SpotifyCollection);
    assert_eq!(playlist_source("https://open.spotify.com/album/1"), PlaylistSource::SpotifyCollection);
    assert_eq!(playlist_source("https://open.spotify.com/track/1"), PlaylistSource::SpotifyTrack);
    assert_eq!(playlist_source("https://youtube.com/playlist/1"), PlaylistSource::Direct);
    assert_eq!(search_link("lofi beats"), "ytsearch20:lofi beats");
    assert_eq!(trending_link(), "https://www.youtube.com/playlist?list=PL4fGSI1pDJn6jXS_Tv_N9B8Z0HTRVJE0m");
    let args = listing_args("u", &Some("/c".to_string()), true);
    assert_eq!(
        args,
        vec![
            "--flat-playlist", "--dump-json", "--no-warnings", "-i", "--no-color",
            "--windows-filenames", "--extractor-args", "youtube:player_client=android",
            "--cookies", "/c", "u",
        ]
    );
    assert_eq!(listing_args("u", &Some("/c".to_string()), false).len(), 9);
    assert_eq!(listing_args("u", &None, true).len(), 9);
}

fn text(s: &str) -> JsonValue {
    JsonValue::Str(s.to_string())
}

fn object(members: Vec<(&str, JsonValue)>) -> JsonValue {
    JsonValue::Object(members.into_iter().map(|(k, v)| (k.to_string(), v)).collect())
}

#[test]
fn listing_entry_prefers_page_links() {
    let both = object(vec![("url", text("https://api/raw")), ("webpage_url", text("https://page/w"))]);
    assert_eq!(listing_entry(&both, 0).url, "https://page/w");
    let original = object(vec![("url", text("raw")), ("original_url", text("orig"))]);
    assert_eq!(listing_entry(&original, 0).url, "orig");
    let raw_only = object(vec![("url", text("raw")), ("webpage_url", JsonValue::Number("3".to_string()))]);
    assert_eq!(listing_entry(&raw_only, 0).url, "raw");
    let e = listing_entry(&object(vec![("duration", JsonValue::Number("61".to_string()))]), 6);
    assert_eq!(e.url, "");
    assert_eq!(e.title, "Track 7");
    assert_eq!(e.index, 7);
    assert_eq!(e.duration.as_deref(), Some("61"));
    assert!(e.thumbnail.is_none());
}

#[test]
fn spotify_data_block_values() {
    let tracks = vec![
        object(vec![("title", text("A &amp; B")), ("subtitle", text("X"))]),
        object(vec![("subtitle", text("only artist"))]),
        object(vec![("title", text("C")), ("subtitle", text("Y"))]),
    ];
    let entries = spotify_track_entries(&tracks);
    assert_eq!(entries.len(), 2);
    assert_eq!(entries[0].title, "X - A & B");
    assert_eq!(entries[1].url, "ytsearch1:Y - C");
    assert_eq!(entries[1].index, 3);
    let entity = object(vec![("name", text("Mix")), ("trackList", JsonValue::Array(tracks))]);
    let data = object(vec![(
        "props",
        object(vec![("pageProps", object(vec![("state", object(vec![("data", object(vec![("entity", entity)]))]))]))]),
    )]);
    let p = spotify_playlist_from_json(&data).unwrap();
    assert_eq!(p.title, "Mix");
    assert_eq!(p.total, 2);
    assert_eq!(
        spotify_playlist_from_json(&JsonValue::Null).unwrap_err(),
        "Could not parse Spotify playlist/album"
    );
}

#[test]
fn apple_data_block_values() {
    let tracks = vec![
        object(vec![
            ("@type", text("MusicRecording")),
            ("name", text("Song")),
            ("byArtist", object(vec![("name", text("Singer"))])),
        ]),
        object(vec![("@type", text("MusicRecording")), ("name", text("No artist"))]),
    ];
    let entries = apple_track_entries(&tracks);
    assert_eq!(entries.len(), 1);
    assert_eq!(entries[0].title, "Singer - Song");
    let album = object(vec![("@type", text("MusicAlbum")), ("track", JsonValue::Array(tracks))]);
    let p = apple_playlist_from_json(&album).unwrap();
    assert_eq!(p.title, "Apple Music Playlist");
    assert_eq!(p.total, 1);
    assert!(apple_playlist_from_json(&object(vec![("@type", text("WebSite"))])).is_none());
}
