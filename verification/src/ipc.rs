//! Messages between the web page and the application: requests the page
//! sends, and the scripts that carry replies and notices back to it.
use vstd::prelude::*;
use vstd::string::*;

verus! {

/// The operations the web page can ask for. A method name that the page
/// sends and that is none of the others reads as `Unknown`.
#[derive(Clone, Copy, Debug, PartialEq, Eq, Structural)]
pub enum IpcMethod {
    ListFiles,
    DiscoverDevices,
    ConnectToDevice,
    DisconnectFromDevice,
    RequestCastLocal,
    Heartbeat,
    Unknown,
}

/// What the `device_name` entry of a request's parameters holds.
pub enum DeviceNameParam {
    /// The parameters have no `device_name` entry (or are not an object).
    Missing,
    /// The entry is there but is not a JSON string.
    NotText,
    /// The entry is the JSON string with this text.
    Text(String),
}

/// A request from the web page: its id, which the reply repeats, the method
/// and what the logic reads of its parameters.
pub struct IpcRequest {
    pub id: u64,
    pub method: IpcMethod,
    pub device_name: DeviceNameParam,
}

/// The kinds of notice that the application posts to the page unasked.
#[derive(Clone, Copy, Debug, PartialEq, Eq, Structural)]
pub enum IpcPostMessageKind {
    DeviceDiscovered,
}

/// The script that hands the serialized reply `reply_json` to the page.
pub open spec fn reply_script_text(reply_json: Seq<char>) -> Seq<char> {
    "window.ipc_handler.responseHandler("@ + reply_json + ");"@
}

/// The script that posts the serialized notice `message_json` to the page.
pub open spec fn post_script_text(message_json: Seq<char>) -> Seq<char> {
    "window.postMessage("@ + message_json + ");"@
}

/// The script that hands the serialized reply `reply_json` to the page's
/// IPC handler.
pub fn reply_script(reply_json: &str) -> (s: String)
    ensures
        s@ == reply_script_text(reply_json@),
{
    let mut s = String::new();
    s.append("window.ipc_handler.responseHandler(");
    s.append(reply_json);
    s.append(");");
    assert(s@ =~= reply_script_text(reply_json@));
    s
}

/// The script that posts the serialized notice `message_json` to the page.
pub fn post_script(message_json: &str) -> (s: String)
    ensures
        s@ == post_script_text(message_json@),
{
    let mut s = String::new();
    s.append("window.postMessage(");
    s.append(message_json);
    s.append(");");
    assert(s@ =~= post_script_text(message_json@));
    s
}

} // verus!
