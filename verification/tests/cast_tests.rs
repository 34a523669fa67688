use cast_away::cast::{app_to_launch, stream_content_type, stream_manifest_url, CastApp};

#[test]
fn app_to_launch_maps_well_known_ids() {
    assert!(matches!(app_to_launch(&vec!["CC1AD845".to_string()]), CastApp::DefaultMediaReceiver));
    assert!(matches!(app_to_launch(&vec!["default".to_string()]), CastApp::DefaultMediaReceiver));
    assert!(matches!(app_to_launch(&vec!["E8C28D3C".to_string()]), CastApp::Backdrop));
    assert!(matches!(app_to_launch(&vec!["backdrop".to_string()]), CastApp::Backdrop));
    assert!(matches!(app_to_launch(&vec!["233637DE".to_string()]), CastApp::YouTube));
    assert!(matches!(app_to_launch(&vec!["youtube".to_string()]), CastApp::YouTube));
}

#[test]
fn app_to_launch_takes_the_first_listed() {
    let app = app_to_launch(&vec!["ABCD1234".to_string(), "CC1AD845".to_string()]);
    match app {
        CastApp::Custom(id) => assert_eq!(id, "ABCD1234"),
        _ => panic!("expected a custom application"),
    }
}

#[test]
fn stream_manifest_url_points_at_local_server() {
    assert_eq!(stream_manifest_url("192.168.1.7", 8080), "http://192.168.1.7:8080/test/manifest.mpd");
    assert_eq!(stream_content_type(), "video/mp4");
}
