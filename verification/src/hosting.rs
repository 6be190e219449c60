//! Hosting and reaching servers: the embedded server's local endpoint, the
//! addresses tried to reach a contact's host, and the status records shown for
//! hosting, the mesh and taverns.

use vstd::prelude::*;
use crate::text::{concat_str, decimal_spec, opt_string_view, push_decimal, starts_with_str, utf8_decoding, utf8_text};
use crate::at_rest::open_bytes;
use crate::backup::opened_blob_spec;
use crate::hex::{hex_spec, to_hex};

verus! {

/// Default port the embedded home server listens on.
pub const DEFAULT_HOST_PORT: u16 = 50051;

/// How the owner connects to a freshly hosted server.
pub struct HostInfo {
    pub endpoint: String,
    pub cert: Option<String>,
}

/// A decoded invite, handed to the join flow.
pub struct InviteInfo {
    pub endpoint: String,
    pub token: String,
    /// `"direct"` or `"mesh"`.
    pub transport: String,
    pub peers: Vec<String>,
    pub name: Option<String>,
    pub cert: Option<String>,
}

/// Whether the embedded development server runs, and where.
pub struct DevServerStatus {
    pub running: bool,
    pub addr: Option<String>,
}

/// The mesh as shown in settings.
pub struct MeshStatus {
    pub running: bool,
    pub address: Option<String>,
    /// Whether mesh networking is part of this build.
    pub available: bool,
    /// The user's saved preference (`enabled && !running` means starting failed).
    pub enabled: bool,
}

/// A mesh connection progress line: `connecting`, `connected`, `error` or `idle`.
pub struct ConnectStatus {
    pub state: String,
    pub message: String,
}

/// How to connect to a tavern this client hosts.
pub struct TavernConnect {
    pub id: String,
    pub name: String,
    pub endpoint: String,
    pub cert: Option<String>,
}

/// The mesh status from its address (running when it has one), whether the
/// mesh is part of the build, and the saved preference.
pub fn mesh_status(address: Option<String>, available: bool, enabled: bool) -> (s: MeshStatus)
    ensures
        s.running == address is Some,
        s.address == address,
        s.available == available,
        s.enabled == enabled,
{
    MeshStatus { running: address.is_some(), address, available, enabled }
}

/// The endpoint the host itself connects with: `https://127.0.0.1:<port>` when
/// it serves TLS (has a certificate), `http://…` otherwise.
pub open spec fn local_endpoint_spec(port: u16, tls: bool) -> Seq<char> {
    (if tls { "https"@ } else { "http"@ }) + "://127.0.0.1:"@ + decimal_spec(port as nat)
}

/// The endpoint the host itself connects with.
pub fn local_endpoint(port: u16, tls: bool) -> (s: String)
    ensures
        s@ == local_endpoint_spec(port, tls),
{
    let head = if tls {
        concat_str("https", "://127.0.0.1:")
    } else {
        concat_str("http", "://127.0.0.1:")
    };
    let mut s = head;
    push_decimal(&mut s, port as usize);
    s
}

/// Whether an address can be dialled directly (it names an `http`/`https` URL).
pub open spec fn dialable(a: Seq<char>) -> bool {
    "http"@.len() <= a.len() && a.take("http"@.len() as int) == "http"@
}

/// The dialable addresses among `s`, in order.
pub open spec fn dialable_of(s: Seq<Seq<char>>) -> Seq<Seq<char>>
    decreases s.len(),
{
    if s.len() == 0 {
        Seq::empty()
    } else if dialable(s.last()) {
        dialable_of(s.drop_last()).push(s.last())
    } else {
        dialable_of(s.drop_last())
    }
}

/// The addresses tried, in order, to reach a contact's host: those that are
/// URLs.
pub fn dial_candidates(addresses: &[String]) -> (out: Vec<String>)
    ensures
        crate::strset::views(out@) == dialable_of(crate::strset::views(addresses@)),
{
    let ghost all = crate::strset::views(addresses@);
    let mut out: Vec<String> = Vec::new();
    let mut k: usize = 0;
    while k < addresses.len()
        invariant
            k <= addresses@.len(),
            all == crate::strset::views(addresses@),
            crate::strset::views(out@) == dialable_of(all.take(k as int)),
        decreases addresses@.len() - k,
    {
        proof {
            assert(all.take(k + 1).drop_last() =~= all.take(k as int));
            assert(all.take(k + 1).last() == addresses@[k as int]@);
        }
        let ghost before = crate::strset::views(out@);
        if starts_with_str(addresses[k].as_str(), "http") {
            out.push(addresses[k].clone());
            assert(crate::strset::views(out@) =~= before.push(addresses@[k as int]@));
        }
        k = k + 1;
    }
    assert(all.take(k as int) =~= all);
    out
}

/// Why a contact's host could not be reached: no address to try, or the last
/// attempt's error.
pub fn unreachable_error(tried: usize, last: &str) -> (e: String)
    ensures
        tried == 0 ==> e@ == "this contact has no reachable address yet"@,
        tried != 0 ==> e@ == "could not reach this contact (are you both online; is the mesh running?): "@ + last@,
{
    if tried == 0 {
        "this contact has no reachable address yet".to_owned()
    } else {
        concat_str("could not reach this contact (are you both online; is the mesh running?): ", last)
    }
}

/// The host named in the shareable address: the LAN address, or a placeholder
/// when it is unknown.
pub open spec fn lan_host(lan_ip: Option<Seq<char>>) -> Seq<char> {
    match lan_ip {
        Some(ip) => ip,
        None => "<your-LAN-ip>"@,
    }
}

/// The address other devices reach the embedded server at:
/// `<scheme>://<LAN ip>:<port>`.
pub open spec fn lan_address_spec(lan_ip: Option<Seq<char>>, port: u16, tls: bool) -> Seq<char> {
    (if tls { "https"@ } else { "http"@ }) + "://"@ + lan_host(lan_ip) + ":"@ + decimal_spec(port as nat)
}

/// The address other devices reach the embedded server at:
/// `<scheme>://<LAN ip>:<port>`, with a placeholder when the LAN address is
/// unknown.
pub fn lan_address(lan_ip: Option<String>, port: u16, tls: bool) -> (addr: String)
    ensures
        addr@ == lan_address_spec(opt_string_view(lan_ip), port, tls),
{
    let host = match lan_ip {
        Some(ip) => ip,
        None => "<your-LAN-ip>".to_owned(),
    };
    let scheme = if tls {
        "https"
    } else {
        "http"
    };
    let head = concat_str(scheme, "://");
    let with_host = concat_str(head.as_str(), host.as_str());
    let mut addr = concat_str(with_host.as_str(), ":");
    push_decimal(&mut addr, port as usize);
    addr
}

/// The error when another server owns the port on loopback.
pub fn port_taken_error(port: u16) -> (e: String)
    ensures
        e@ == "port "@ + decimal_spec(port as nat)
            + " is already in use - is another Accord server running (e.g. the standalone Server)? Stop it and try again."@,
{
    let mut e = "port ".to_owned();
    push_decimal(&mut e, port as usize);
    concat_str(e.as_str(), " is already in use - is another Accord server running (e.g. the standalone Server)? Stop it and try again.")
}

/// What starting the embedded server does first.
pub enum HostStart {
    /// A server is already running: its address is the answer, nothing changes.
    AlreadyRunning(String),
    /// The loopback port is owned by another server: fail with this message.
    PortTaken(String),
    /// Go on to bind and launch.
    Launch,
}

/// The first decision of starting the embedded server (idempotent): a running
/// server's address is returned unchanged, whatever port or options were asked
/// for; otherwise a loopback port already in use is refused before anything is
/// bound or launched.
pub fn start_step(running: &Option<String>, loopback_free: bool, port: u16) -> (r: HostStart)
    ensures
        running matches Some(a) ==> (r matches HostStart::AlreadyRunning(x) && x@ == a@),
        running is None && !loopback_free ==> (r matches HostStart::PortTaken(e) && e@ == "port "@
            + decimal_spec(port as nat)
            + " is already in use - is another Accord server running (e.g. the standalone Server)? Stop it and try again."@),
        running is None && loopback_free ==> r is Launch,
{
    match running {
        Some(a) => HostStart::AlreadyRunning(a.clone()),
        None => if loopback_free {
            HostStart::Launch
        } else {
            HostStart::PortTaken(port_taken_error(port))
        },
    }
}

/// What a start decides first, by text: `Some(Ok(a))` a server already running
/// at `a`, `Some(Err(m))` the loopback port refused with message `m`, `None`
/// go on to launch.
pub open spec fn start_answer(running: Option<Seq<char>>, loopback_free: bool, port: u16) -> Option<Result<Seq<char>, Seq<char>>> {
    match running {
        Some(a) => Some(Ok(a)),
        None => if loopback_free {
            None
        } else {
            Some(Err("port "@ + decimal_spec(port as nat)
                + " is already in use - is another Accord server running (e.g. the standalone Server)? Stop it and try again."@))
        },
    }
}

/// A start's first decision by text.
pub open spec fn answer_view(r: HostStart) -> Option<Result<Seq<char>, Seq<char>>> {
    match r {
        HostStart::AlreadyRunning(a) => Some(Ok(a@)),
        HostStart::PortTaken(e) => Some(Err(e@)),
        HostStart::Launch => None,
    }
}

/// The embedded server as this client keeps track of it: the LAN URL others
/// connect to, the shareable host and port (for invite keys), whether it only
/// admits invited users, and its TLS certificate when it serves TLS. A server
/// runs exactly when it has an address.
pub struct LocalServer {
    pub addr: Option<String>,
    pub host: Option<String>,
    pub port: Option<u16>,
    pub private: bool,
    pub cert: Option<String>,
}

impl View for LocalServer {
    type V = (Option<Seq<char>>, Option<Seq<char>>, Option<u16>, bool, Option<Seq<char>>);

    /// The fields by text: address, host, port, invite-only, certificate.
    open spec fn view(&self) -> Self::V {
        (opt_string_view(self.addr), opt_string_view(self.host), self.port, self.private, opt_string_view(self.cert))
    }
}

/// No server running.
pub open spec fn stopped_view() -> (Option<Seq<char>>, Option<Seq<char>>, Option<u16>, bool, Option<Seq<char>>) {
    (None, None, None, false, None)
}

/// What a launch on `port` records: the LAN address, the host named in it,
/// the port, whether it is invite-only, and the certificate.
pub open spec fn started_view(
    lan_ip: Option<Seq<char>>,
    port: u16,
    require_invite: bool,
    tls: bool,
    cert: Option<Seq<char>>,
) -> (Option<Seq<char>>, Option<Seq<char>>, Option<u16>, bool, Option<Seq<char>>) {
    (Some(lan_address_spec(lan_ip, port, tls)), Some(lan_host(lan_ip)), Some(port), require_invite, cert)
}

/// The shareable host, port and invite-only flag of a server, when both host
/// and port are known.
pub open spec fn shareable_view(v: (Option<Seq<char>>, Option<Seq<char>>, Option<u16>, bool, Option<Seq<char>>)) -> Option<(Seq<char>, u16, bool)> {
    match (v.1, v.2) {
        (Some(h), Some(p)) => Some((h, p, v.3)),
        _ => None,
    }
}

impl LocalServer {
    /// No server running.
    pub fn new() -> (s: Self)
        ensures
            s@ == stopped_view(),
    {
        LocalServer { addr: None, host: None, port: None, private: false, cert: None }
    }

    /// The first decision of starting: see [`start_step`].
    pub fn begin_start(&self, loopback_free: bool, port: u16) -> (r: HostStart)
        ensures
            answer_view(r) == start_answer(self@.0, loopback_free, port),
    {
        start_step(&self.addr, loopback_free, port)
    }

    /// Record a server just launched on `port` and give back its LAN URL.
    pub fn record_started(
        &mut self,
        lan_ip: Option<String>,
        port: u16,
        require_invite: bool,
        tls: bool,
        cert: Option<String>,
    ) -> (addr: String)
        ensures
            addr@ == lan_address_spec(opt_string_view(lan_ip), port, tls),
            final(self)@ == started_view(opt_string_view(lan_ip), port, require_invite, tls, opt_string_view(cert)),
    {
        let host = match &lan_ip {
            Some(ip) => ip.clone(),
            None => "<your-LAN-ip>".to_owned(),
        };
        let addr = lan_address(lan_ip, port, tls);
        self.addr = Some(addr.clone());
        self.host = Some(host);
        self.port = Some(port);
        self.private = require_invite;
        self.cert = cert;
        addr
    }

    /// Forget the server (it has been told to shut down).
    pub fn stop(&mut self)
        ensures
            final(self)@ == stopped_view(),
    {
        self.addr = None;
        self.host = None;
        self.port = None;
        self.private = false;
        self.cert = None;
    }

    /// The shareable host, port and invite-only flag, for invite keys.
    pub fn shareable(&self) -> (r: Option<(String, u16, bool)>)
        ensures
            match r {
                Some((h, p, private)) => shareable_view(self@) == Some((h@, p, private)),
                None => shareable_view(self@) is None,
            },
    {
        match (&self.host, self.port) {
            (Some(h), Some(p)) => Some((h.clone(), p, self.private)),
            _ => None,
        }
    }

    /// The endpoint and certificate the host itself connects with: loopback on
    /// its port, over TLS when it has a certificate.
    pub fn local_connect_info(&self) -> (r: Option<(String, Option<String>)>)
        ensures
            match r {
                Some((e, c)) => self.port matches Some(p) && e@ == local_endpoint_spec(p, self.cert is Some)
                    && opt_string_view(c) == self@.4,
                None => self.port is None,
            },
    {
        match self.port {
            Some(p) => {
                let cert = match &self.cert {
                    Some(c) => Some(c.clone()),
                    None => None,
                };
                Some((local_endpoint(p, self.cert.is_some()), cert))
            },
            None => None,
        }
    }
}

/// Starting is idempotent and stopping undoes it: once a launch has been
/// recorded, every later start answers that launch's LAN URL (whatever port it
/// asks for, whether or not that port is free) and the server is shareable on
/// the launch's host, port and invite-only flag; after a stop, a start whose
/// loopback port is free launches again.
pub proof fn lemma_start_is_idempotent(
    lan_ip: Option<Seq<char>>,
    port: u16,
    require_invite: bool,
    tls: bool,
    cert: Option<Seq<char>>,
    next_port: u16,
    next_free: bool,
)
    ensures
        start_answer(started_view(lan_ip, port, require_invite, tls, cert).0, next_free, next_port)
            matches Some(Ok(a)) && a == lan_address_spec(lan_ip, port, tls),
        shareable_view(started_view(lan_ip, port, require_invite, tls, cert)) == Some((lan_host(lan_ip), port, require_invite)),
        start_answer(stopped_view().0, true, next_port) is None,
{
}

/// The JWT secret stored in its (sealed) file: reused when it opens to
/// non-empty UTF-8 text.
pub fn jwt_secret_from_file(dek: &[u8; 32], file: &[u8]) -> (r: Option<String>)
    ensures
        r matches Some(s) ==> s@.len() > 0 && opened_blob_spec(dek@, file@) is Some
            && vstd::utf8::encode_utf8(s@) == opened_blob_spec(dek@, file@)->0,
        r is None ==> opened_blob_spec(dek@, file@) is None || forall|cs: Seq<char>|
            cs.len() > 0 ==> vstd::utf8::encode_utf8(cs) != opened_blob_spec(dek@, file@)->0,
{
    let plaintext = match open_bytes(dek, file) {
        Some(p) => p,
        None => return None,
    };
    match utf8_text(plaintext.as_slice()) {
        Some(s) => {
            proof {
                reveal_strlit("");
                if s@.len() == 0 {
                    assert(s@ =~= ""@);
                }
            }
            if crate::text::str_eq(s.as_str(), "") {
                proof {
                    assert forall|cs: Seq<char>| cs.len() > 0 implies vstd::utf8::encode_utf8(cs) != plaintext@ by {
                        if vstd::utf8::encode_utf8(cs) == plaintext@ {
                            vstd::utf8::encode_utf8_decode_utf8(cs);
                            vstd::utf8::encode_utf8_decode_utf8(s@);
                        }
                    }
                }
                None
            } else {
                Some(s)
            }
        },
        None => None,
    }
}

/// A fresh JWT secret: the hex of 32 random bytes.
pub fn new_jwt_secret(random: &[u8; 32]) -> (s: String)
    ensures
        s@ == hex_spec(random@),
{
    to_hex(random)
}

} // verus!
