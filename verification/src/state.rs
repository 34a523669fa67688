//! The decisions of the application's event loop. The loop itself, the
//! window, the webview, the network and the transcoder live outside the
//! library: they hand each event to [`AppState::handle_event`] and carry out
//! the [`Action`] that comes back.
use vstd::prelude::*;
use crate::cast::{app_to_launch, cast_app_for, CastApp};
use crate::config::{page_url, WebConfig, WebConfigView};
use crate::device::{device_views, find_device, find_named, DeviceInfo, DeviceInfoView};
use crate::ipc::{DeviceNameParam, IpcMethod, IpcPostMessageKind, IpcRequest};
use crate::text::parsed_usize;

verus! {

/// What the application knows between two events.
pub struct AppStateView {
    pub web_config: WebConfigView,
    pub devices: Seq<DeviceInfoView>,
    pub discovery_running: bool,
    pub cast_device_connected: bool,
    pub initialization_script: Option<Seq<char>>,
}

/// The state that the event loop's decisions read and change: where the local
/// server is, the devices discovered so far (in the order they were
/// announced), whether an mDNS discovery is running, whether a cast device is
/// connected, and the extra script to inject into the page.
pub struct AppState {
    web_config: WebConfig,
    devices: Vec<DeviceInfo>,
    discovery_running: bool,
    cast_device_connected: bool,
    initialization_script: Option<String>,
}

impl View for AppState {
    type V = AppStateView;

    closed spec fn view(&self) -> AppStateView {
        AppStateView {
            web_config: self.web_config@,
            devices: device_views(self.devices@),
            discovery_running: self.discovery_running,
            cast_device_connected: self.cast_device_connected,
            initialization_script: match self.initialization_script {
                Some(s) => Some(s@),
                None => None,
            },
        }
    }
}

/// An event as the decisions see it.
pub enum AppEvent {
    /// The page sent a request (already read from its JSON text).
    Ipc(IpcRequest),
    /// The mDNS browser resolved a cast device.
    DeviceDiscovered(DeviceInfo),
    /// The page asked to connect to the device of this name.
    ConnectToDevice(String),
    /// A cast device was connected; this application was running on it.
    DeviceConnected(CastApp),
    /// Any other event of the loop; none of them changes anything.
    Other,
}

/// What the event loop does after a decision.
pub enum Action {
    /// Nothing.
    Nothing,
    /// List the names in the working directory and reply to request `id` with them.
    ListFiles { id: u64 },
    /// Shut the running mDNS discovery down if `stop_previous`, start a new
    /// one, and reply to request `id` with no result.
    RestartDiscovery { id: u64, stop_previous: bool },
    /// Queue a connection to the device called `device_name`, and reply to
    /// request `id` with no result.
    RequestConnect { id: u64, device_name: String },
    /// Let the user pick a media file to transcode and cast, then reply to
    /// request `id` with no result.
    PickMediaFile { id: u64 },
    /// Reply to request `id` that its method is unknown.
    ReplyUnknownMethod { id: u64 },
    /// Post a notice of this kind about `device` to the page.
    Announce { kind: IpcPostMessageKind, device: DeviceInfo },
    /// Open a cast connection to `address` and `port`.
    Connect { address: String, port: u16 },
    /// Launch `app` on the connected device and have it play the stream
    /// manifest that the local server offers on `port`.
    LaunchAndPlay { app: CastApp, port: usize },
}

/// The request, if any, that an action replies to.
pub open spec fn replied_request(a: Action) -> Option<u64> {
    match a {
        Action::ListFiles { id } => Some(id),
        Action::RestartDiscovery { id, .. } => Some(id),
        Action::RequestConnect { id, .. } => Some(id),
        Action::PickMediaFile { id } => Some(id),
        Action::ReplyUnknownMethod { id } => Some(id),
        _ => None,
    }
}

/// Whether the loop can handle `event` in state `s`: a request to connect
/// names a device in text, and a connected-device event comes only while a
/// cast device is connected. Events outside these are not handled: the
/// event loop stops on them with a panic.
pub open spec fn can_handle(s: AppStateView, event: AppEvent) -> bool {
    match event {
        AppEvent::Ipc(req) => req.method == IpcMethod::ConnectToDevice ==> req.device_name is Text,
        AppEvent::DeviceConnected(_) => s.cast_device_connected,
        _ => true,
    }
}

impl AppState {
    /// The state at start-up, for the local server at `hostname` and the port
    /// written in `port` (text that `parse_usize` accepts).
    pub fn new(hostname: String, port: String) -> (s: Self)
        requires
            parsed_usize(port@) is Some,
        ensures
            s@.web_config.hostname == hostname@,
            Some(s@.web_config.port) == parsed_usize(port@),
            s@.devices.len() == 0,
            !s@.discovery_running,
            !s@.cast_device_connected,
            s@.initialization_script is None,
    {
        AppState {
            web_config: WebConfig::new(hostname, port),
            devices: Vec::new(),
            discovery_running: false,
            cast_device_connected: false,
            initialization_script: None,
        }
    }

    /// Sets the extra script to inject into the page; nothing else changes.
    pub fn set_initialization_script(&mut self, script: String)
        ensures
            final(self)@ == (AppStateView {
                initialization_script: Some(script@),
                ..old(self)@
            }),
    {
        self.initialization_script = Some(script);
    }

    /// The extra script to inject into the page, if one was set.
    pub fn initialization_script(&self) -> (s: Option<&str>)
        ensures
            match s {
                Some(t) => self@.initialization_script == Some(t@),
                None => self@.initialization_script is None,
            },
    {
        match &self.initialization_script {
            Some(t) => Some(t.as_str()),
            None => None,
        }
    }

    /// The local server's configuration.
    pub fn web_config(&self) -> (c: &WebConfig)
        ensures
            c@ == self@.web_config,
    {
        &self.web_config
    }

    /// The page that the webview opens.
    pub fn webview_url(&self) -> (u: String)
        ensures
            u@ == page_url(self@.web_config.hostname, self@.web_config.port),
    {
        self.web_config.url()
    }

    /// Whether a cast device is connected, which a connected-device event needs.
    pub fn cast_device_connected(&self) -> (c: bool)
        ensures
            c == self@.cast_device_connected,
    {
        self.cast_device_connected
    }

    /// The devices discovered so far, in the order they were announced.
    pub fn devices(&self) -> (d: &Vec<DeviceInfo>)
        ensures
            device_views(d@) == self@.devices,
    {
        &self.devices
    }

    /// Records that a cast device has been connected whose status lists the
    /// applications `running_app_ids`, and gives the application to launch on
    /// it: the first one listed.
    pub fn cast_device_ready(&mut self, running_app_ids: &Vec<String>) -> (app: CastApp)
        requires
            running_app_ids@.len() > 0,
        ensures
            app@ == cast_app_for(running_app_ids@[0]@),
            final(self)@ == (AppStateView { cast_device_connected: true, ..old(self)@ }),
    {
        self.cast_device_connected = true;
        app_to_launch(running_app_ids)
    }

    /// Decides what an event does: the new state, and the action the loop is
    /// to carry out.
    ///
    /// - A request is answered under its own id. Listing files, discovering
    ///   devices, connecting and casting a local file each get their action;
    ///   every other method (also `Heartbeat` and `DisconnectFromDevice`) is
    ///   answered as unknown. Starting a discovery stops the one that runs,
    ///   so that at most one runs at a time.
    /// - A discovered device is appended to the list and announced to the page.
    /// - A connection goes to the first listed device of the requested name;
    ///   with no such device nothing happens.
    /// - A connected device is told to launch its application and play the
    ///   stream of the local server's port.
    /// - Any other event changes nothing.
    pub fn handle_event(&mut self, event: AppEvent) -> (a: Action)
        requires
            can_handle(old(self)@, event),
        ensures
            match event {
                AppEvent::Ipc(req) => {
                    &&& replied_request(a) == Some(req.id)
                    &&& match req.method {
                        IpcMethod::ListFiles => {
                            &&& a == Action::ListFiles { id: req.id }
                            &&& final(self)@ == old(self)@
                        },
                        IpcMethod::DiscoverDevices => {
                            &&& a == Action::RestartDiscovery {
                                id: req.id,
                                stop_previous: old(self)@.discovery_running,
                            }
                            &&& final(self)@ == (AppStateView {
                                discovery_running: true,
                                ..old(self)@
                            })
                        },
                        IpcMethod::ConnectToDevice => {
                            &&& a == Action::RequestConnect {
                                id: req.id,
                                device_name: req.device_name->Text_0,
                            }
                            &&& final(self)@ == old(self)@
                        },
                        IpcMethod::RequestCastLocal => {
                            &&& a == Action::PickMediaFile { id: req.id }
                            &&& final(self)@ == old(self)@
                        },
                        _ => {
                            &&& a == Action::ReplyUnknownMethod { id: req.id }
                            &&& final(self)@ == old(self)@
                        },
                    }
                },
                AppEvent::DeviceDiscovered(info) => {
                    &&& final(self)@ == (AppStateView {
                        devices: old(self)@.devices.push(info@),
                        ..old(self)@
                    })
                    &&& a matches Action::Announce { kind, device }
                    &&& kind == IpcPostMessageKind::DeviceDiscovered
                    &&& device@ == info@
                },
                AppEvent::ConnectToDevice(name) => {
                    &&& final(self)@ == old(self)@
                    &&& match find_named(old(self)@.devices, name@) {
                        Some(d) => a matches Action::Connect { address, port } && address@
                            == d.address && port == d.port,
                        None => a == Action::Nothing,
                    }
                },
                AppEvent::DeviceConnected(app) => {
                    &&& final(self)@ == old(self)@
                    &&& a == Action::LaunchAndPlay { app, port: old(self)@.web_config.port as usize }
                },
                AppEvent::Other => {
                    &&& final(self)@ == old(self)@
                    &&& a == Action::Nothing
                },
            },
    {
        match event {
            AppEvent::Ipc(req) => {
                match req.method {
                    IpcMethod::ListFiles => Action::ListFiles { id: req.id },
                    IpcMethod::DiscoverDevices => {
                        let stop_previous = self.discovery_running;
                        self.discovery_running = true;
                        Action::RestartDiscovery { id: req.id, stop_previous }
                    },
                    IpcMethod::ConnectToDevice => {
                        match req.device_name {
                            DeviceNameParam::Text(device_name) => Action::RequestConnect {
                                id: req.id,
                                device_name,
                            },
                            _ => Action::ReplyUnknownMethod { id: req.id },
                        }
                    },
                    IpcMethod::RequestCastLocal => Action::PickMediaFile { id: req.id },
                    _ => Action::ReplyUnknownMethod { id: req.id },
                }
            },
            AppEvent::DeviceDiscovered(info) => {
                let device = info.clone();
                self.devices.push(info);
                proof {
                    assert(device_views(self.devices@) =~= device_views(old(self).devices@).push(
                        info@,
                    ));
                }
                Action::Announce { kind: IpcPostMessageKind::DeviceDiscovered, device }
            },
            AppEvent::ConnectToDevice(name) => {
                match find_device(&self.devices, name.as_str()) {
                    Some(d) => {
                        let address = d.address().to_owned();
                        Action::Connect { address, port: d.port() }
                    },
                    None => Action::Nothing,
                }
            },
            AppEvent::DeviceConnected(app) => Action::LaunchAndPlay { app, port: self.web_config.port() },
            AppEvent::Other => Action::Nothing,
        }
    }
}

} // verus!
