//! The address of the local web server that the webview shows.
use vstd::prelude::*;
use vstd::string::*;
use crate::text::{decimal, format_decimal, lemma_decimal_parses_back, parse_usize, parsed_usize};

verus! {

/// What a [`WebConfig`] holds: the host name and the port of the local server.
pub struct WebConfigView {
    pub hostname: Seq<char>,
    pub port: nat,
}

/// Host name and port of the local web server.
pub struct WebConfig {
    hostname: String,
    port: usize,
}

impl View for WebConfig {
    type V = WebConfigView;

    closed spec fn view(&self) -> WebConfigView {
        WebConfigView { hostname: self.hostname@, port: self.port as nat }
    }
}

/// The page that the webview opens: `http://<host>:<port>`.
pub open spec fn page_url(hostname: Seq<char>, port: nat) -> Seq<char> {
    "http://"@ + hostname + ":"@ + decimal(port)
}

impl WebConfig {
    /// A configuration for `hostname` and the port written in `port`, which
    /// must be text that `usize::from_str` accepts (see `parse_usize`).
    pub fn new(hostname: String, port: String) -> (c: Self)
        requires
            parsed_usize(port@) is Some,
        ensures
            c@.hostname == hostname@,
            Some(c@.port) == parsed_usize(port@),
    {
        let p = parse_usize(port.as_str());
        WebConfig { hostname, port: p.unwrap() }
    }

    /// Replaces the host name; the port stays.
    pub fn set_hostname(&mut self, hostname: String)
        ensures
            final(self)@.hostname == hostname@,
            final(self)@.port == old(self)@.port,
    {
        self.hostname = hostname;
    }

    /// Replaces the port; the host name stays.
    pub fn set_port(&mut self, port: usize)
        ensures
            final(self)@.port == port as nat,
            final(self)@.hostname == old(self)@.hostname,
    {
        self.port = port;
    }

    /// The host name.
    pub fn hostname(&self) -> (h: &str)
        ensures
            h@ == self@.hostname,
    {
        self.hostname.as_str()
    }

    /// The port.
    pub fn port(&self) -> (p: usize)
        ensures
            p as nat == self@.port,
    {
        self.port
    }

    /// The page that the webview opens, `http://<host>:<port>`.
    pub fn url(&self) -> (u: String)
        ensures
            u@ == page_url(self@.hostname, self@.port),
    {
        let mut u = String::new();
        u.append("http://");
        u.append(self.hostname.as_str());
        u.append(":");
        let digits = format_decimal(self.port);
        u.append(digits.as_str());
        assert(u@ =~= page_url(self@.hostname, self@.port));
        u
    }
}


/// The page address is `http://`, the host name, `:` and a port text, and
/// the port text reads back as the configured port.
pub proof fn lemma_page_url_names_port(hostname: Seq<char>, port: nat)
    requires
        port <= usize::MAX,
    ensures
        ({
            let u = page_url(hostname, port);
            let h = hostname.len() + 8int;
            &&& u.len() > h
            &&& u.take(7) == "http://"@
            &&& u.subrange(7, 7 + hostname.len() as int) == hostname
            &&& u[7 + hostname.len() as int] == ':'
            &&& parsed_usize(u.skip(h)) == Some(port)
        }),
{
    reveal_strlit("http://");
    reveal_strlit(":");
    lemma_decimal_parses_back(port);
    let u = page_url(hostname, port);
    let h = hostname.len() + 8int;
    assert(u.take(7) =~= "http://"@);
    assert(u.subrange(7, 7 + hostname.len() as int) =~= hostname);
    assert(u[7 + hostname.len() as int] == ":"@[0]);
    assert(u.skip(h) =~= decimal(port));
}

} // verus!
