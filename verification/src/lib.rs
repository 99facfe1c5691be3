pub mod text;
pub mod json;
pub mod models;
pub mod download;
pub mod listing;
pub mod spotify;
pub mod applemusic;
pub mod ytdlp;
pub mod paths;
pub mod ffmpeg;
pub mod utils;
pub mod server;
pub mod laws;
