use cast_away::launch::{launch_options, transcode_plan, window_icon_path};

#[test]
fn kiosk_flag_is_read_from_arguments() {
    let args = vec!["cast_away".to_string(), "--kiosk".to_string()];
    assert!(launch_options(&args).kiosk);
    let args = vec!["cast_away".to_string(), "--verbose".to_string()];
    assert!(!launch_options(&args).kiosk);
    let args = vec!["--kiosk".to_string(), "--kiosk".to_string()];
    assert!(launch_options(&args).kiosk);
    assert!(!launch_options(&Vec::new()).kiosk);
    assert!(!launch_options(&vec!["--kiosk=1".to_string()]).kiosk);
}

#[test]
fn transcode_plan_builds_dash_command() {
    let p = transcode_plan("C:\\Videos\\film.mkv", "C:\\app\\cache", "\\");
    assert_eq!(p.output, "C:\\app\\cache\\manifest.mpd");
    let expected: Vec<String> = [
        "-i",
        "C:\\Videos\\film.mkv",
        "-vf",
        "subtitles=/Videos/film.mkv:si=30",
        "-use_template",
        "1",
        "-use_timeline",
        "1",
        "-seg_duration",
        "6",
        "-f",
        "dash",
        "-y",
        "C:\\app\\cache\\manifest.mpd",
    ]
    .iter()
    .map(|s| s.to_string())
    .collect();
    assert_eq!(p.args, expected);
}

#[test]
fn transcode_plan_on_unix_paths() {
    let p = transcode_plan("/home/me/a.mkv", "/opt/app/cache", "/");
    assert_eq!(p.output, "/opt/app/cache/manifest.mpd");
    assert_eq!(p.args[3], "subtitles=/home/me/a.mkv:si=30");
    assert_eq!(p.args.len(), 14);
}

#[test]
fn window_icon_lives_in_assets() {
    assert_eq!(window_icon_path("/opt/app", "assets"), "/opt/app/assets/testicon.ico");
}
