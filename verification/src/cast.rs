//! The receiver application that a cast device runs, and the media that the
//! application asks the device to play.
use vstd::prelude::*;
use vstd::string::*;
use std::str::FromStr;
use rust_cast::channels::receiver::CastDeviceApp;
use crate::text::{decimal, format_decimal, lemma_decimal_parses_back, parsed_usize};

verus! {

/// The receiver applications that the cast protocol names.
pub enum CastApp {
    DefaultMediaReceiver,
    Backdrop,
    YouTube,
    Custom(String),
}

/// What a [`CastApp`] holds.
pub enum CastAppView {
    DefaultMediaReceiver,
    Backdrop,
    YouTube,
    Custom(Seq<char>),
}

impl View for CastApp {
    type V = CastAppView;

    open spec fn view(&self) -> CastAppView {
        match self {
            CastApp::DefaultMediaReceiver => CastAppView::DefaultMediaReceiver,
            CastApp::Backdrop => CastAppView::Backdrop,
            CastApp::YouTube => CastAppView::YouTube,
            CastApp::Custom(id) => CastAppView::Custom(id@),
        }
    }
}

/// The receiver application that an application id names: the three ids
/// that the cast protocol fixes (or their short names) name the well-known
/// receivers, any other id a custom receiver.
pub open spec fn cast_app_for(id: Seq<char>) -> CastAppView {
    if id == "CC1AD845"@ || id == "default"@ {
        CastAppView::DefaultMediaReceiver
    } else if id == "E8C28D3C"@ || id == "backdrop"@ {
        CastAppView::Backdrop
    } else if id == "233637DE"@ || id == "youtube"@ {
        CastAppView::YouTube
    } else {
        CastAppView::Custom(id)
    }
}

/// `rust_cast::channels::receiver::CastDeviceApp::from_str`: maps the id
/// "CC1AD845" or "default" to the default media receiver, "E8C28D3C" or
/// "backdrop" to the backdrop, "233637DE" or "youtube" to YouTube, and any
/// other text to a custom application with that id; it never fails.
#[verifier::external_body]
fn cast_app_from_id(id: &str) -> (app: CastApp)
    ensures
        app@ == cast_app_for(id@),
{
    match CastDeviceApp::from_str(id).unwrap() {
        CastDeviceApp::DefaultMediaReceiver => CastApp::DefaultMediaReceiver,
        CastDeviceApp::Backdrop => CastApp::Backdrop,
        CastDeviceApp::YouTube => CastApp::YouTube,
        CastDeviceApp::Custom(s) => CastApp::Custom(s),
    }
}

/// The receiver application to launch on a device that has just been
/// connected: the one its status lists first.
pub fn app_to_launch(running_app_ids: &Vec<String>) -> (app: CastApp)
    requires
        running_app_ids@.len() > 0,
    ensures
        app@ == cast_app_for(running_app_ids@[0]@),
{
    cast_app_from_id(running_app_ids[0].as_str())
}

/// The address at which a device fetches the stream manifest that the local
/// server offers: `http://<local ip>:<port>/test/manifest.mpd`.
pub open spec fn manifest_url(local_ip: Seq<char>, port: nat) -> Seq<char> {
    "http://"@ + local_ip + ":"@ + decimal(port) + "/test/"@ + "manifest.mpd"@
}

/// The address at which a device fetches the stream manifest.
pub fn stream_manifest_url(local_ip: &str, port: usize) -> (u: String)
    ensures
        u@ == manifest_url(local_ip@, port as nat),
{
    let mut u = String::new();
    u.append("http://");
    u.append(local_ip);
    u.append(":");
    let digits = format_decimal(port);
    u.append(digits.as_str());
    u.append("/test/");
    u.append("manifest.mpd");
    assert(u@ =~= manifest_url(local_ip@, port as nat));
    u
}

/// The content type that the device is told the stream has.
pub fn stream_content_type() -> (t: &'static str)
    ensures
        t@ == "video/mp4"@,
{
    "video/mp4"
}


/// The stream address is `http://`, the local address, `:`, a port text and
/// `/test/manifest.mpd`, and the port text reads back as the given port.
pub proof fn lemma_manifest_url_names_port(local_ip: Seq<char>, port: nat)
    requires
        port <= usize::MAX,
    ensures
        ({
            let u = manifest_url(local_ip, port);
            let h = local_ip.len() + 8int;
            &&& u.len() >= h + 18
            &&& u.take(7) == "http://"@
            &&& u.subrange(7, 7 + local_ip.len() as int) == local_ip
            &&& u[7 + local_ip.len() as int] == ':'
            &&& parsed_usize(u.subrange(h, u.len() - 18)) == Some(port)
            &&& u.skip(u.len() - 18) == "/test/manifest.mpd"@
        }),
{
    reveal_strlit("http://");
    reveal_strlit(":");
    reveal_strlit("/test/");
    reveal_strlit("manifest.mpd");
    reveal_strlit("/test/manifest.mpd");
    lemma_decimal_parses_back(port);
    let u = manifest_url(local_ip, port);
    let h = local_ip.len() + 8int;
    let d = decimal(port);
    assert(u.take(7) =~= "http://"@);
    assert(u.subrange(7, 7 + local_ip.len() as int) =~= local_ip);
    assert(u[7 + local_ip.len() as int] == ":"@[0]);
    assert(u.subrange(h, u.len() - 18) =~= d);
    assert(u.skip(u.len() - 18) =~= "/test/manifest.mpd"@);
}

/// Different ports give different stream addresses.
pub proof fn lemma_manifest_url_port_injective(local_ip: Seq<char>, a: nat, b: nat)
    requires
        a <= usize::MAX,
        b <= usize::MAX,
        manifest_url(local_ip, a) == manifest_url(local_ip, b),
    ensures
        a == b,
{
    lemma_manifest_url_names_port(local_ip, a);
    lemma_manifest_url_names_port(local_ip, b);
}

} // verus!
