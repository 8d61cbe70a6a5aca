use hls_rs::encoder::{encoder_args, encoder_plan};
use hls_rs::profile::{check_profiles, default_profiles, Profile, ProfileError};
use hls_rs::select::MuxSettings;
use hls_rs::streams::{StreamResult, StreamTable};

fn table(video: usize, audio: usize, subs: usize) -> StreamTable {
    let make = |n: usize, ty: &str| -> Vec<StreamResult> {
        (0..n)
            .map(|i| StreamResult {
                index: i,
                codec_name: "c".to_string(),
                codec_type: ty.to_string(),
            })
            .collect()
    };
    let mut t = StreamTable::new();
    t.video = make(video, "video");
    t.audio = make(audio, "audio");
    t.subs = make(subs, "subtitle");
    t
}

fn plain_selection() -> MuxSettings {
    MuxSettings::new("/media/in.mkv".to_string(), &table(3, 12, 0), 2, 10).unwrap()
}

#[test]
fn encoder_args_without_subtitles() {
    let profiles = default_profiles();
    let args = encoder_args(&plain_selection(), &profiles[0], "/srv/hls");
    let expected = vec![
        "-y", "-re", "-i", "/media/in.mkv", "-b:v", "3000k", "-c:v", "libx264", "-x264opts",
        "keyint=300:no-scenecut", "-pix_fmt", "yuv420p", "-profile:v", "main", "-r", "30",
        "-b:a", "192k", "-c:a", "libfdk_aac", "-preset", "veryfast", "-map", "v:2", "-map",
        "a:10", "-hls_list_size", "10", "-hls_time", "10", "-hls_flags", "delete_segments",
        "-hls_segment_filename", "/srv/hls/cdn00_src/%03d.ts", "/srv/hls/cdn00_src/index.m3u8",
    ];
    assert_eq!(args, expected);
}

#[test]
fn encoder_args_with_subtitles() {
    let mux = MuxSettings::new("in.mkv".to_string(), &table(1, 1, 0), 0, 0)
        .unwrap()
        .with_subtitle("subs.mkv".to_string(), &table(0, 0, 4), 3)
        .unwrap();
    let prof = Profile {
        level_name: "tiny".to_string(),
        bitrate_video: "300k".to_string(),
        bitrate_audio: "32k".to_string(),
        bandwidth: 400000,
        width: 640,
        height: 360,
    };
    let args = encoder_args(&mux, &prof, "out");
    let expected = vec![
        "-y", "-re", "-i", "in.mkv", "-b:v", "300k", "-c:v", "libx264", "-x264opts",
        "keyint=300:no-scenecut", "-pix_fmt", "yuv420p", "-profile:v", "main", "-r", "30",
        "-b:a", "32k", "-c:a", "libfdk_aac", "-preset", "veryfast", "-map", "v:0", "-map",
        "a:0", "-vf", "subtitles=subs.mkv:si=3", "-hls_list_size", "10", "-hls_time", "10",
        "-hls_flags", "delete_segments", "-hls_segment_filename", "out/tiny/%03d.ts",
        "out/tiny/index.m3u8",
    ];
    assert_eq!(args, expected);
}

#[test]
fn stream_map_uses_bucket_positions() {
    let mut primary = StreamTable::new();
    for (index, ty) in [(0usize, "audio"), (1, "video"), (2, "audio"), (5, "video")] {
        let s = StreamResult {
            index,
            codec_name: "c".to_string(),
            codec_type: ty.to_string(),
        };
        if ty == "video" {
            primary.video.push(s);
        } else {
            primary.audio.push(s);
        }
    }
    let mux = MuxSettings::new("in.mkv".to_string(), &primary, 1, 1).unwrap();
    let args = encoder_args(&mux, &default_profiles()[2], "/srv/hls");
    assert_eq!(args[23], "v:1");
    assert_eq!(args[25], "a:1");
}

#[test]
fn plan_has_one_invocation_per_profile() {
    let profiles = default_profiles();
    let mux = plain_selection();
    let plan = encoder_plan(&mux, &profiles, "/srv/hls");
    assert_eq!(plan.len(), 3);
    for i in 0..3 {
        assert_eq!(plan[i], encoder_args(&mux, &profiles[i], "/srv/hls"));
    }
    let outputs: Vec<&str> = plan.iter().map(|args| args.last().unwrap().as_str()).collect();
    assert_eq!(
        outputs,
        vec![
            "/srv/hls/cdn00_src/index.m3u8",
            "/srv/hls/cdn00_mid/index.m3u8",
            "/srv/hls/cdn00_low/index.m3u8",
        ]
    );
    assert_eq!(plan[1][5], "2250k");
    assert_eq!(plan[1][17], "128k");
    assert_eq!(plan[2][5], "960k");
    assert_eq!(plan[2][17], "96k");
    assert_eq!(plan[2][33], "/srv/hls/cdn00_low/%03d.ts");
}

#[test]
fn plan_of_no_profile_is_empty() {
    let plan = encoder_plan(&plain_selection(), &Vec::new(), "/srv/hls");
    assert!(plan.is_empty());
}

#[test]
fn default_profiles_are_the_three_tiers() {
    let profiles = default_profiles();
    assert_eq!(profiles.len(), 3);
    assert_eq!(
        profiles[0],
        Profile {
            level_name: "cdn00_src".to_string(),
            bitrate_video: "3000k".to_string(),
            bitrate_audio: "192k".to_string(),
            bandwidth: 4000000,
            width: 1920,
            height: 1080,
        }
    );
    assert_eq!(profiles[1], Profile::full_hd("cdn00_mid", "2250k", "128k", 2000000));
    assert_eq!(profiles[2], Profile::full_hd("cdn00_low", "960k", "96k", 960000));
    assert_eq!(check_profiles(&profiles), Ok(()));
}

#[test]
fn profile_sets_need_distinct_names() {
    assert_eq!(check_profiles(&Vec::new()), Err(ProfileError::Empty));
    let one = vec![Profile::full_hd("a", "1k", "1k", 1)];
    assert_eq!(check_profiles(&one), Ok(()));
    let twice = vec![
        Profile::full_hd("a", "1k", "1k", 1),
        Profile::full_hd("b", "1k", "1k", 1),
        Profile::full_hd("a", "2k", "2k", 2),
    ];
    assert_eq!(check_profiles(&twice), Err(ProfileError::DuplicateName));
    let apart = vec![
        Profile::full_hd("a", "1k", "1k", 1),
        Profile::full_hd("b", "1k", "1k", 1),
        Profile::full_hd("ab", "1k", "1k", 1),
    ];
    assert_eq!(check_profiles(&apart), Ok(()));
}
