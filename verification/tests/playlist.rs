use hls_rs::playlist::{master_playlist, playlist_path};
use hls_rs::profile::{default_profiles, Profile};
use hls_rs::text::{push_decimal, str_eq};

#[test]
fn master_playlist_of_the_default_ladder() {
    let text = master_playlist(&default_profiles());
    let expected = "#EXTM3U\n\
                    #EXT-X-VERSION:3\n\
                    #EXT-X-STREAM-INF:BANDWIDTH=4000000,RESOLUTION=1920x1080\n\
                    cdn00_src/index.m3u8\n\
                    #EXT-X-STREAM-INF:BANDWIDTH=2000000,RESOLUTION=1920x1080\n\
                    cdn00_mid/index.m3u8\n\
                    #EXT-X-STREAM-INF:BANDWIDTH=960000,RESOLUTION=1920x1080\n\
                    cdn00_low/index.m3u8\n";
    assert_eq!(text, expected);
    let lines: Vec<&str> = text.lines().collect();
    assert_eq!(lines.len(), 2 + 2 * 3);
    assert_eq!(lines[0], "#EXTM3U");
    assert_eq!(lines[1], "#EXT-X-VERSION:3");
    assert!(lines.iter().all(|l| !l.is_empty()));
}

#[test]
fn master_playlist_is_the_same_each_time() {
    let first = master_playlist(&default_profiles());
    let second = master_playlist(&default_profiles());
    assert_eq!(first.as_bytes(), second.as_bytes());
    let profiles = default_profiles();
    assert_eq!(master_playlist(&profiles), master_playlist(&profiles.clone()));
}

#[test]
fn master_playlist_without_profiles_is_the_header() {
    assert_eq!(master_playlist(&Vec::new()), "#EXTM3U\n#EXT-X-VERSION:3\n");
}

#[test]
fn master_playlist_follows_the_profiles() {
    let profiles = vec![
        Profile {
            level_name: "low".to_string(),
            bitrate_video: "1k".to_string(),
            bitrate_audio: "1k".to_string(),
            bandwidth: 0,
            width: 640,
            height: 360,
        },
        Profile {
            level_name: "max".to_string(),
            bitrate_video: "1k".to_string(),
            bitrate_audio: "1k".to_string(),
            bandwidth: u64::MAX,
            width: u32::MAX,
            height: 10,
        },
    ];
    let expected = "#EXTM3U\n\
                    #EXT-X-VERSION:3\n\
                    #EXT-X-STREAM-INF:BANDWIDTH=0,RESOLUTION=640x360\n\
                    low/index.m3u8\n\
                    #EXT-X-STREAM-INF:BANDWIDTH=18446744073709551615,RESOLUTION=4294967295x10\n\
                    max/index.m3u8\n";
    assert_eq!(master_playlist(&profiles), expected);
}

#[test]
fn playlist_lies_at_the_output_root() {
    assert_eq!(playlist_path("/srv/hls"), "/srv/hls/cdn00.m3u8");
    assert_eq!(playlist_path(""), "/cdn00.m3u8");
}

#[test]
fn decimal_numerals() {
    for (n, text) in [
        (0u64, "0"),
        (7, "7"),
        (9, "9"),
        (10, "10"),
        (42, "42"),
        (100, "100"),
        (1234567890, "1234567890"),
        (u64::MAX, "18446744073709551615"),
    ] {
        let mut out = String::from("n=");
        push_decimal(&mut out, n);
        assert_eq!(out, format!("n={}", text));
    }
}

#[test]
fn strings_compare_by_their_text() {
    assert!(str_eq("", ""));
    assert!(str_eq("audio", "audio"));
    assert!(!str_eq("audio", "audi"));
    assert!(!str_eq("audio", "video"));
    assert!(!str_eq("a", ""));
    assert!(str_eq("vidéo", "vidéo"));
    assert!(!str_eq("vidéo", "video"));
}
