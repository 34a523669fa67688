use cast_away::cast::CastApp;
use cast_away::device::DeviceInfo;
use cast_away::ipc::{post_script, reply_script, DeviceNameParam, IpcMethod, IpcPostMessageKind, IpcRequest};
use cast_away::state::{Action, AppEvent, AppState};

fn state() -> AppState {
    AppState::new("localhost".to_string(), "8080".to_string())
}

fn request(id: u64, method: IpcMethod) -> AppEvent {
    AppEvent::Ipc(IpcRequest { id, method, device_name: DeviceNameParam::Missing })
}

fn dev(name: &str, address: &str, port: u16) -> DeviceInfo {
    DeviceInfo::new(name.to_string(), address.to_string(), port)
}

#[test]
fn new_state_is_empty() {
    let s = state();
    assert_eq!(s.web_config().port(), 8080);
    assert_eq!(s.webview_url(), "http://localhost:8080");
    assert!(s.devices().is_empty());
    assert!(s.initialization_script().is_none());
}

#[test]
fn initialization_script_is_kept() {
    let mut s = state();
    s.set_initialization_script("document.body.requestFullscreen();".to_string());
    assert_eq!(s.initialization_script(), Some("document.body.requestFullscreen();"));
}

#[test]
fn list_files_request_is_answered_with_its_id() {
    let mut s = state();
    assert!(matches!(s.handle_event(request(7, IpcMethod::ListFiles)), Action::ListFiles { id: 7 }));
}

#[test]
fn discovery_restarts_stop_the_previous_one() {
    let mut s = state();
    assert!(matches!(
        s.handle_event(request(1, IpcMethod::DiscoverDevices)),
        Action::RestartDiscovery { id: 1, stop_previous: false }
    ));
    assert!(matches!(
        s.handle_event(request(2, IpcMethod::DiscoverDevices)),
        Action::RestartDiscovery { id: 2, stop_previous: true }
    ));
}

#[test]
fn connect_request_forwards_the_name() {
    let mut s = state();
    let a = s.handle_event(AppEvent::Ipc(IpcRequest {
        id: 3,
        method: IpcMethod::ConnectToDevice,
        device_name: DeviceNameParam::Text("TV".to_string()),
    }));
    match a {
        Action::RequestConnect { id, device_name } => {
            assert_eq!(id, 3);
            assert_eq!(device_name, "TV");
        }
        _ => panic!("expected a connection request"),
    }
}

#[test]
fn cast_local_request_opens_the_picker() {
    let mut s = state();
    assert!(matches!(s.handle_event(request(4, IpcMethod::RequestCastLocal)), Action::PickMediaFile { id: 4 }));
}

#[test]
fn other_methods_are_unknown() {
    let mut s = state();
    for (id, m) in [(5, IpcMethod::Heartbeat), (6, IpcMethod::DisconnectFromDevice), (8, IpcMethod::Unknown)] {
        match s.handle_event(request(id, m)) {
            Action::ReplyUnknownMethod { id: got } => assert_eq!(got, id),
            _ => panic!("expected an unknown-method reply"),
        }
    }
}

#[test]
fn discovered_devices_are_listed_and_announced() {
    let mut s = state();
    match s.handle_event(AppEvent::DeviceDiscovered(dev("TV", "10.0.0.2", 8009))) {
        Action::Announce { kind, device } => {
            assert_eq!(kind, IpcPostMessageKind::DeviceDiscovered);
            assert_eq!(device.name(), "TV");
            assert_eq!(device.address(), "10.0.0.2");
        }
        _ => panic!("expected an announcement"),
    }
    assert_eq!(s.devices().len(), 1);
    assert_eq!(s.devices()[0].name(), "TV");
}

#[test]
fn connecting_goes_to_the_first_discovered_device() {
    let mut s = state();
    s.handle_event(AppEvent::DeviceDiscovered(dev("TV", "10.0.0.2", 8009)));
    s.handle_event(AppEvent::DeviceDiscovered(dev("TV", "10.0.0.3", 8010)));
    match s.handle_event(AppEvent::ConnectToDevice("TV".to_string())) {
        Action::Connect { address, port } => {
            assert_eq!(address, "10.0.0.2");
            assert_eq!(port, 8009);
        }
        _ => panic!("expected a connection"),
    }
    assert!(matches!(s.handle_event(AppEvent::ConnectToDevice("Radio".to_string())), Action::Nothing));
}

#[test]
fn connected_device_plays_the_local_stream() {
    let mut s = state();
    let app = s.cast_device_ready(&vec!["CC1AD845".to_string()]);
    assert!(matches!(app, CastApp::DefaultMediaReceiver));
    match s.handle_event(AppEvent::DeviceConnected(app)) {
        Action::LaunchAndPlay { app, port } => {
            assert!(matches!(app, CastApp::DefaultMediaReceiver));
            assert_eq!(port, 8080);
        }
        _ => panic!("expected launch and play"),
    }
}

#[test]
fn other_events_change_nothing() {
    let mut s = state();
    assert!(matches!(s.handle_event(AppEvent::Other), Action::Nothing));
    assert!(s.devices().is_empty());
}

#[test]
fn scripts_frame_the_json() {
    assert_eq!(
        reply_script("{\"id\":1,\"result\":null}"),
        "window.ipc_handler.responseHandler({\"id\":1,\"result\":null});"
    );
    assert_eq!(post_script("{\"kind\":\"DeviceDiscovered\"}"), "window.postMessage({\"kind\":\"DeviceDiscovered\"});");
}
