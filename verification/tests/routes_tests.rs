use cast_away::routes::{dash_plan, hls_plan, hls_plan_for, is_hls_playlist, media_file_path, stream_plan, ContentType};

#[test]
fn dash_route_serves_manifests_uncached() {
    let p = dash_plan("manifest.mpd");
    assert!(matches!(p.content_type, ContentType::DashManifest));
    assert!(p.no_cache && p.from_cache);
    assert_eq!(p.content_type.mime(), "application/dash+xml");
    let p = dash_plan("chunk-stream0-00001.m4s");
    assert!(matches!(p.content_type, ContentType::DashSegment));
    assert!(!p.no_cache && p.from_cache);
    assert_eq!(p.content_type.mime(), "video/iso.segment");
}

#[test]
fn stream_route_reads_segments_from_root() {
    let p = stream_plan("manifest.mpd");
    assert!(matches!(p.content_type, ContentType::DashManifest));
    assert!(p.no_cache && p.from_cache);
    let p = stream_plan("init-stream0.m4s");
    assert!(matches!(p.content_type, ContentType::DashSegment));
    assert!(!p.no_cache && !p.from_cache);
}

#[test]
fn hls_playlist_of_plain_names() {
    assert!(is_hls_playlist(".m3u8"));
    assert!(!is_hls_playlist("index.m3u8"));
    assert!(!is_hls_playlist(".m3u8x"));
    assert!(!is_hls_playlist("seg0.ts"));
    assert!(!is_hls_playlist(""));
    assert!(!is_hls_playlist("."));
}

#[test]
fn hls_playlist_agrees_with_path_ends_with() {
    for name in [".m3u8", "x/.m3u8", "x//.m3u8//", "./.m3u8", ".m3u8/b", "a\\.m3u8", "C:.m3u8", "index.m3u8", "..", ".", ""] {
        let joined = std::path::Path::new("cache").join(std::path::Path::new(name));
        assert_eq!(is_hls_playlist(name), joined.ends_with(".m3u8"), "{name:?}");
    }
}

#[test]
fn hls_route_content_types() {
    let p = hls_plan(".m3u8");
    assert!(matches!(p.content_type, ContentType::HlsPlaylist));
    assert!(p.no_cache && p.from_cache);
    assert_eq!(p.content_type.mime(), "application/vnd.apple.mpegurl");
    let p = hls_plan("index.m3u8");
    assert!(matches!(p.content_type, ContentType::HlsSegment));
    assert!(!p.no_cache && p.from_cache);
    assert_eq!(p.content_type.mime(), "video/mp2t");
}

#[test]
fn hls_plan_for_follows_the_playlist_flag() {
    let p = hls_plan_for(true);
    assert!(matches!(p.content_type, ContentType::HlsPlaylist));
    assert!(p.no_cache && p.from_cache);
    let p = hls_plan_for(false);
    assert!(matches!(p.content_type, ContentType::HlsSegment));
    assert!(!p.no_cache && p.from_cache);
}

#[test]
fn media_path_turns_markers_into_separators() {
    assert_eq!(media_file_path("C:<<Videos<<film.mkv", "\\"), "C:\\Videos\\film.mkv");
    assert_eq!(media_file_path("<<home<<me<<a.mp4", "/"), "/home/me/a.mp4");
    assert_eq!(media_file_path("plain.mp4", "/"), "plain.mp4");
}
