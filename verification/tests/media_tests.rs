use pulse_player::paths::{
    get_mime_type, is_video_extension, file_stem, file_title, lower_extension, file_extension,
    estimated_bytes_per_second, is_playable_media, filter_playable_paths, video_probe_hint,
};
use pulse_player::metadata::{
    data_url, sniff_id3_picture_type, sniff_visual_type, id3_cover_url, visual_cover_url, MetaTag,
    StandardKey, collect_tag_text, TagText, song_text, video_song_text, unreadable_song_text,
    uses_id3_tags, TrackTiming, TimeBaseValue, track_seconds, longest_track_seconds,
    format_duration, is_duration_tag_key,
};
use pulse_player::config::Config;

#[test]
fn mime_types() {
    assert_eq!(get_mime_type("/x/song.MP3"), Some("audio/mpeg"));
    assert_eq!(get_mime_type("a.flac"), Some("audio/flac"));
    assert_eq!(get_mime_type("a.mpg"), Some("video/mpeg"));
    assert_eq!(get_mime_type("a.3gp"), Some("video/3gpp"));
    assert_eq!(get_mime_type("a.m4a"), Some("audio/mp4"));
    assert_eq!(get_mime_type("a.xyz"), Some("application/octet-stream"));
    assert_eq!(get_mime_type("/x/noext"), None);
}

#[test]
fn video_detection() {
    assert!(is_video_extension("/v/clip.MKV"));
    assert!(is_video_extension("clip.ogv"));
    assert!(!is_video_extension("song.mp3"));
    assert!(!is_video_extension(".mp4"));
    assert!(!is_video_extension("noext"));
}

#[test]
fn extensions_and_stems() {
    assert_eq!(lower_extension("/a/b/Song.Tar.GZ"), Some("gz".to_string()));
    assert_eq!(file_extension("/a/b/Song.Tar.GZ"), Some("GZ".to_string()));
    assert_eq!(file_stem("/a/b/song.tar.gz"), Some("song.tar".to_string()));
    assert_eq!(file_stem("/a/.hidden"), Some(".hidden".to_string()));
    assert_eq!(file_extension("/a/.hidden"), None);
    assert_eq!(file_extension("/a/..foo"), Some("foo".to_string()));
    assert_eq!(file_extension("/a/name."), Some(String::new()));
    assert_eq!(file_title("/a/b/Track 01.wav"), "Track 01");
    assert_eq!(file_title(""), "");
    assert_eq!(file_title("/a/.."), "");
}

#[test]
fn bytes_per_second() {
    assert_eq!(estimated_bytes_per_second("a.mkv"), 75_000);
    assert_eq!(estimated_bytes_per_second("a.AVI"), 100_000);
    assert_eq!(estimated_bytes_per_second("a.3gp"), 25_000);
    assert_eq!(estimated_bytes_per_second("a.unknown"), 62_500);
    assert_eq!(estimated_bytes_per_second("noext"), 62_500);
}

#[test]
fn playable_files() {
    assert!(is_playable_media("x.FLAC"));
    assert!(is_playable_media("x.avi"));
    assert!(!is_playable_media("x.wmv"));
    let paths = vec![
        "a.mp3".to_string(),
        "b.txt".to_string(),
        "c.MKV".to_string(),
        "d".to_string(),
        "e.aac".to_string(),
    ];
    assert_eq!(
        filter_playable_paths(&paths),
        vec!["a.mp3".to_string(), "c.MKV".to_string(), "e.aac".to_string()]
    );
}

#[test]
fn probe_hints() {
    assert_eq!(video_probe_hint("x.MP4"), Some("m4v".to_string()));
    assert_eq!(video_probe_hint("x.mpg"), Some("mpeg".to_string()));
    assert_eq!(video_probe_hint("x.webm"), Some("webm".to_string()));
    assert_eq!(video_probe_hint("x"), None);
}

#[test]
fn data_urls() {
    assert_eq!(data_url("image/png", b"hi"), "data:image/png;base64,aGk=");
    assert_eq!(data_url("audio/mpeg", b""), "data:audio/mpeg;base64,");
}

#[test]
fn picture_sniffing() {
    assert_eq!(sniff_id3_picture_type(&[0xFF, 0xD8, 0, 0, 0]), "image/jpeg");
    assert_eq!(sniff_id3_picture_type(&[0x89, 0x50, 0, 0, 0]), "image/png");
    assert_eq!(sniff_id3_picture_type(&[0x89, 0x50, 0, 0]), "image/jpeg");
    assert_eq!(sniff_visual_type(&[0x89, 0x50, 0x4E, 0x47, 0]), "image/png");
    assert_eq!(sniff_visual_type(&[0x89, 0x50, 0x00, 0x47, 0]), "image/jpeg");
    assert_eq!(sniff_visual_type(&[0x47, 0x49, 0x46, 0x38, 0x39]), "image/gif");
    assert_eq!(sniff_visual_type(&[1, 2, 3, 4, 5]), "image/jpeg");
}

#[test]
fn cover_urls() {
    assert_eq!(id3_cover_url("", &[0x89, 0x50, 1, 2, 3]), "data:image/png;base64,iVABAgM=");
    assert_eq!(id3_cover_url("image/webp", &[1]), "data:image/webp;base64,AQ==");
    assert_eq!(visual_cover_url("", &[]), None);
    assert_eq!(
        visual_cover_url("", &[0x47, 0x49, 0x46, 0x38, 0x39]),
        Some("data:image/gif;base64,R0lGODk=".to_string())
    );
}

fn tag(std_key: Option<StandardKey>, key: &str, value: &str) -> MetaTag {
    MetaTag { std_key, key: key.to_string(), value: value.to_string() }
}

#[test]
fn tags_last_one_wins() {
    let tags = vec![
        tag(Some(StandardKey::TrackTitle), "TIT2", "First"),
        tag(None, "ARTIST", "Band"),
        tag(Some(StandardKey::Other), "title", "Second"),
        tag(Some(StandardKey::Album), "whatever", "Record"),
    ];
    let t = collect_tag_text(&tags);
    assert_eq!(t.title, Some("Second".to_string()));
    assert_eq!(t.artist, Some("Band".to_string()));
    assert_eq!(t.album, Some("Record".to_string()));
}

#[test]
fn tags_unknown_keys_ignored() {
    let t = collect_tag_text(&vec![tag(None, "comment", "x")]);
    assert!(t.title.is_none() && t.artist.is_none() && t.album.is_none());
}

#[test]
fn song_text_defaults() {
    let s = song_text(TagText { title: None, artist: Some("A".to_string()), album: None }, "/m/Tune.ogg");
    assert_eq!((s.title.as_str(), s.artist.as_str(), s.album.as_str()), ("Tune", "A", "Desconocido"));
    let v = video_song_text("/v/Movie.mkv");
    assert_eq!((v.title.as_str(), v.artist.as_str(), v.album.as_str()), ("Movie", "Video", "Videos"));
    let u = unreadable_song_text("/m/broken.wav");
    assert_eq!((u.title.as_str(), u.artist.as_str(), u.album.as_str()), ("broken", "Desconocido", "Desconocido"));
}

#[test]
fn id3_dispatch() {
    assert!(uses_id3_tags("/a/b.Mp3"));
    assert!(!uses_id3_tags("/a/b.flac"));
}

#[test]
fn durations_from_tracks() {
    let t = TrackTiming { time_base: Some(TimeBaseValue { numer: 1, denom: 44100 }), n_frames: Some(441_000) };
    assert_eq!(track_seconds(&t), Some(10));
    let t2 = TrackTiming { time_base: Some(TimeBaseValue { numer: 1, denom: 1000 }), n_frames: Some(1999) };
    assert_eq!(track_seconds(&t2), Some(1));
    let none = TrackTiming { time_base: None, n_frames: Some(5) };
    assert_eq!(track_seconds(&none), None);
    let long = TrackTiming { time_base: Some(TimeBaseValue { numer: 1, denom: 1 }), n_frames: Some(90_000) };
    assert_eq!(longest_track_seconds(&vec![t, long, t2]), Some(10));
    assert_eq!(longest_track_seconds(&vec![none, long]), None);
    assert_eq!(longest_track_seconds(&vec![]), None);
}

#[test]
fn duration_text() {
    assert_eq!(format_duration(0), "0:00");
    assert_eq!(format_duration(65), "1:05");
    assert_eq!(format_duration(600), "10:00");
    assert_eq!(format_duration(3599), "59:59");
    assert_eq!(format_duration(7384), "123:04");
}

#[test]
fn duration_keys() {
    assert!(is_duration_tag_key("DURATION"));
    assert!(!is_duration_tag_key("length"));
}

#[test]
fn default_config() {
    let c = Config::default();
    assert_eq!(c.welcome_message, "Hola desde tu configuración personalizada!");
    assert!(!c.auto_play);
    assert_eq!(c.theme, "dark");
    assert_eq!(c.accent_color, "#ff8a00");
    assert!(c.hardware_acceleration);
    assert!(c.auto_update);
}
