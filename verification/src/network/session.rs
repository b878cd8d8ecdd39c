//! Serving one client: the decisions the proxy takes between the reads and
//! writes on the client's and the upstream server's connections.
//!
//! The caller performs each action a step returns and reports what came of it
//! as the next event; the session decides what to do next.

use vstd::prelude::*;

use super::proxy::{rewrite_http_request, upstream_request};
use crate::config::structure::ProxyConfig;
use crate::helpers::data::{Request, RequestView};
use crate::helpers::error::{
    ERROR_4_FETCH_ERROR, ERROR_5_FAILURE_TLS_HANDSHAKE, ERROR_6_NET_WRITE_ERROR,
    ERROR_7_NET_READ_ERROR,
};
use crate::text::{
    chars_of, has_prefix, nat_decimal, push_all, slice_chars, starts_with, string_of, trim_end,
    u128_decimal,
};

verus! {

/// What the session waits for.
#[derive(PartialEq, Eq, Structural, Clone, Copy)]
pub enum Phase {
    /// The client's request.
    ReadRequest,
    /// The connection to the upstream server.
    Connect,
    /// A TLS connector.
    CreateTls,
    /// The TLS handshake with the upstream server.
    Handshake,
    /// Writing the request upstream.
    WriteRequest,
    /// A chunk of the upstream server's response.
    ReadResponse,
    /// Writing a chunk of the response to the client.
    WriteResponse,
    /// Nothing: the session is over.
    Done,
}

/// The state of serving one client.
pub struct ClientSession {
    pub phase: Phase,
    /// Whether the upstream server is reached over TLS.
    pub tls: bool,
    /// The configured target.
    pub host: String,
    /// The target without its scheme and trailing slashes.
    pub clean_host: String,
    /// The address to connect to.
    pub target_addr: String,
    /// The client's address.
    pub client_ip: String,
    /// The client's request; once connected, the request as sent upstream.
    pub request: Vec<u8>,
    /// The request's path, once known.
    pub path: String,
}

/// A session as plain values.
pub struct SessionView {
    pub phase: Phase,
    pub tls: bool,
    pub host: Seq<char>,
    pub clean_host: Seq<char>,
    pub target_addr: Seq<char>,
    pub client_ip: Seq<char>,
    pub request: Seq<u8>,
    pub path: Seq<char>,
}

impl View for ClientSession {
    type V = SessionView;

    open spec fn view(&self) -> SessionView {
        SessionView {
            phase: self.phase,
            tls: self.tls,
            host: self.host@,
            clean_host: self.clean_host@,
            target_addr: self.target_addr@,
            client_ip: self.client_ip@,
            request: self.request@,
            path: self.path@,
        }
    }
}

/// What came of the last action: `Err` carries the error's text.
pub enum ClientEvent {
    /// The client's request was read: its bytes, or `None` when reading failed.
    RequestRead(Option<Vec<u8>>),
    Connected(Result<(), String>),
    TlsCreated(Result<(), String>),
    Handshaken(Result<(), String>),
    /// The request was written upstream, this many milliseconds after connecting began.
    RequestWritten(Result<u128, String>),
    /// A chunk of the response was read; empty at its end.
    ResponseRead(Result<Vec<u8>, String>),
    ResponseWritten(Result<(), String>),
}

/// An event as plain values.
pub enum EventView {
    RequestRead(Option<Seq<u8>>),
    Connected(Result<(), Seq<char>>),
    TlsCreated(Result<(), Seq<char>>),
    Handshaken(Result<(), Seq<char>>),
    RequestWritten(Result<u128, Seq<char>>),
    ResponseRead(Result<Seq<u8>, Seq<char>>),
    ResponseWritten(Result<(), Seq<char>>),
}

/// `Ok` kept, the error taken by its text.
pub open spec fn outcome_view<T>(r: Result<T, String>) -> Result<T, Seq<char>> {
    match r {
        Ok(v) => Ok(v),
        Err(e) => Err(e@),
    }
}

impl View for ClientEvent {
    type V = EventView;

    open spec fn view(&self) -> EventView {
        match self {
            ClientEvent::RequestRead(r) => EventView::RequestRead(
                match r {
                    Some(b) => Some(b@),
                    None => None,
                },
            ),
            ClientEvent::Connected(r) => EventView::Connected(outcome_view(*r)),
            ClientEvent::TlsCreated(r) => EventView::TlsCreated(outcome_view(*r)),
            ClientEvent::Handshaken(r) => EventView::Handshaken(outcome_view(*r)),
            ClientEvent::RequestWritten(r) => EventView::RequestWritten(outcome_view(*r)),
            ClientEvent::ResponseRead(r) => EventView::ResponseRead(
                match r {
                    Ok(b) => Ok(b@),
                    Err(e) => Err(e@),
                },
            ),
            ClientEvent::ResponseWritten(r) => EventView::ResponseWritten(outcome_view(*r)),
        }
    }
}

/// What the caller is to do next.
pub enum ProxyAction {
    /// Connect to the upstream server at this address.
    Connect(String),
    /// Report an error code with this detail.
    Report(i32, String),
    /// Write this text to the client.
    Reply(String),
    /// Tell each loaded plugin of the request: client address, path.
    NotifyPlugins(String, String),
    /// Create a TLS connector.
    CreateTls,
    /// Perform the TLS handshake for this domain.
    Handshake(String),
    /// Write these bytes to the upstream server.
    WriteUpstream(Vec<u8>),
    /// Pass this record of the request on.
    Record(Request),
    /// Read a chunk of the upstream server's response.
    ReadUpstream,
    /// Write these bytes to the client.
    WriteClient(Vec<u8>),
    /// Close the client's connection.
    Close,
}

/// An action as plain values.
pub enum ActionView {
    Connect(Seq<char>),
    Report(i32, Seq<char>),
    Reply(Seq<char>),
    NotifyPlugins(Seq<char>, Seq<char>),
    CreateTls,
    Handshake(Seq<char>),
    WriteUpstream(Seq<u8>),
    Record(RequestView),
    ReadUpstream,
    WriteClient(Seq<u8>),
    Close,
}

impl View for ProxyAction {
    type V = ActionView;

    open spec fn view(&self) -> ActionView {
        match self {
            ProxyAction::Connect(a) => ActionView::Connect(a@),
            ProxyAction::Report(c, m) => ActionView::Report(*c, m@),
            ProxyAction::Reply(t) => ActionView::Reply(t@),
            ProxyAction::NotifyPlugins(ip, p) => ActionView::NotifyPlugins(ip@, p@),
            ProxyAction::CreateTls => ActionView::CreateTls,
            ProxyAction::Handshake(d) => ActionView::Handshake(d@),
            ProxyAction::WriteUpstream(b) => ActionView::WriteUpstream(b@),
            ProxyAction::Record(r) => ActionView::Record(r@),
            ProxyAction::ReadUpstream => ActionView::ReadUpstream,
            ProxyAction::WriteClient(b) => ActionView::WriteClient(b@),
            ProxyAction::Close => ActionView::Close,
        }
    }
}

/// The actions, as plain values.
pub open spec fn actions_view(actions: Seq<ProxyAction>) -> Seq<ActionView> {
    actions.map_values(|a: ProxyAction| a@)
}

/// `s` with every leading copy of `prefix` removed, as `str::trim_start_matches` does.
pub open spec fn strip_prefixes(s: Seq<char>, prefix: Seq<char>) -> Seq<char>
    decreases s.len(),
{
    if prefix.len() > 0 && has_prefix(s, prefix) {
        strip_prefixes(s.skip(prefix.len() as int), prefix)
    } else {
        s
    }
}

/// The target without its `https://` and `http://` prefixes and trailing slashes.
pub open spec fn clean_host_of(target: Seq<char>) -> Seq<char> {
    trim_end(strip_prefixes(strip_prefixes(target, "https://"@), "http://"@), '/')
}

/// The address to connect to: the clean host, `:`, the port and the path.
pub open spec fn target_addr_of(target: Seq<char>, port: u16, path: Seq<char>) -> Seq<char> {
    clean_host_of(target) + seq![':'] + nat_decimal(port as nat) + path
}

/// The reply to a client whose request cannot be forwarded.
pub open spec fn bad_gateway() -> Seq<char> {
    "HTTP/1.1 502 Bad Gateway\r\n\r\n"@
}

/// The session in another phase.
pub open spec fn in_phase(s: SessionView, phase: Phase) -> SessionView {
    SessionView { phase, ..s }
}

/// The failure of a step: report the error, then close.
pub open spec fn failed(s: SessionView, code: i32, detail: Seq<char>) -> (SessionView, Seq<ActionView>) {
    (in_phase(s, Phase::Done), seq![ActionView::Report(code, detail), ActionView::Close])
}

/// The failure of a step before the request was sent: report the error,
/// answer the client with a bad gateway reply, then close.
pub open spec fn refused(s: SessionView, code: i32, detail: Seq<char>) -> (SessionView, Seq<ActionView>) {
    (
        in_phase(s, Phase::Done),
        seq![ActionView::Report(code, detail), ActionView::Reply(bad_gateway()), ActionView::Close],
    )
}

/// The record of a request written upstream.
pub open spec fn record_of(s: SessionView, millis: u128) -> RequestView {
    RequestView { location: s.host, target: s.host, path: s.path, ip: s.client_ip, time: millis }
}

/// The next state of a session and what to do, after an event.  An event that
/// the phase does not wait for changes nothing and asks for nothing.
pub open spec fn next(s: SessionView, e: EventView) -> (SessionView, Seq<ActionView>) {
    match (s.phase, e) {
        (Phase::ReadRequest, EventView::RequestRead(r)) => match r {
            Some(bytes) => if bytes.len() > 0 {
                (
                    SessionView { phase: Phase::Connect, request: bytes, ..s },
                    seq![ActionView::Connect(s.target_addr)],
                )
            } else {
                (in_phase(s, Phase::Done), seq![ActionView::Close])
            },
            None => (in_phase(s, Phase::Done), seq![ActionView::Close]),
        },
        (Phase::Connect, EventView::Connected(r)) => match r {
            Ok(_) => {
                let (upstream, path) = upstream_request(s.request, s.clean_host);
                let notify = ActionView::NotifyPlugins(s.client_ip, path);
                if s.tls {
                    (
                        SessionView { phase: Phase::CreateTls, request: upstream, path, ..s },
                        seq![notify, ActionView::CreateTls],
                    )
                } else {
                    (
                        SessionView { phase: Phase::WriteRequest, request: upstream, path, ..s },
                        seq![notify, ActionView::WriteUpstream(upstream)],
                    )
                }
            },
            Err(m) => refused(
                s,
                ERROR_4_FETCH_ERROR,
                "while connecting to: "@ + s.target_addr + ": "@ + m,
            ),
        },
        (Phase::CreateTls, EventView::TlsCreated(r)) => match r {
            Ok(_) => (in_phase(s, Phase::Handshake), seq![ActionView::Handshake(s.clean_host)]),
            Err(m) => refused(s, ERROR_5_FAILURE_TLS_HANDSHAKE, "while creating TLSConnector : "@ + m),
        },
        (Phase::Handshake, EventView::Handshaken(r)) => match r {
            Ok(_) => (
                in_phase(s, Phase::WriteRequest),
                seq![ActionView::WriteUpstream(s.request)],
            ),
            Err(m) => refused(s, ERROR_5_FAILURE_TLS_HANDSHAKE, "while establishing : "@ + m),
        },
        (Phase::WriteRequest, EventView::RequestWritten(r)) => match r {
            Ok(millis) => (
                in_phase(s, Phase::ReadResponse),
                seq![ActionView::Record(record_of(s, millis)), ActionView::ReadUpstream],
            ),
            Err(m) => if s.tls {
                failed(s, ERROR_5_FAILURE_TLS_HANDSHAKE, "while attempting to stream : "@ + m)
            } else {
                failed(s, ERROR_6_NET_WRITE_ERROR, "while writing to server : "@ + m)
            },
        },
        (Phase::ReadResponse, EventView::ResponseRead(r)) => match r {
            Ok(bytes) => if bytes.len() == 0 {
                (in_phase(s, Phase::Done), seq![ActionView::Close])
            } else {
                (in_phase(s, Phase::WriteResponse), seq![ActionView::WriteClient(bytes)])
            },
            Err(m) => if s.tls {
                failed(s, ERROR_5_FAILURE_TLS_HANDSHAKE, "while reading from TLS server : "@ + m)
            } else {
                failed(s, ERROR_6_NET_WRITE_ERROR, "while writing to server : "@ + m)
            },
        },
        (Phase::WriteResponse, EventView::ResponseWritten(r)) => match r {
            Ok(_) => (in_phase(s, Phase::ReadResponse), seq![ActionView::ReadUpstream]),
            Err(m) => if s.tls {
                failed(s, ERROR_7_NET_READ_ERROR, "while reading from client : "@ + m)
            } else {
                failed(s, ERROR_6_NET_WRITE_ERROR, "while writing to client : "@ + m)
            },
        },
        _ => (s, Seq::empty()),
    }
}

/// Whether an event reports a failure.
pub open spec fn is_failure(e: EventView) -> bool {
    match e {
        EventView::RequestRead(r) => r is None,
        EventView::Connected(r) => r is Err,
        EventView::TlsCreated(r) => r is Err,
        EventView::Handshaken(r) => r is Err,
        EventView::RequestWritten(r) => r is Err,
        EventView::ResponseRead(r) => r is Err,
        EventView::ResponseWritten(r) => r is Err,
    }
}

/// Whether the phase waits for this event.
pub open spec fn awaits(phase: Phase, e: EventView) -> bool {
    match e {
        EventView::RequestRead(_) => phase == Phase::ReadRequest,
        EventView::Connected(_) => phase == Phase::Connect,
        EventView::TlsCreated(_) => phase == Phase::CreateTls,
        EventView::Handshaken(_) => phase == Phase::Handshake,
        EventView::RequestWritten(_) => phase == Phase::WriteRequest,
        EventView::ResponseRead(_) => phase == Phase::ReadResponse,
        EventView::ResponseWritten(_) => phase == Phase::WriteResponse,
    }
}

/// A finished session stays finished and asks for nothing more.
pub proof fn law_done_is_final(s: SessionView, e: EventView)
    requires
        s.phase == Phase::Done,
    ensures
        next(s, e) == (s, Seq::<ActionView>::empty()),
{
}

/// A failure that the session waits for ends it: the session is over and its
/// last action closes the client's connection.
pub proof fn law_failure_ends_session(s: SessionView, e: EventView)
    requires
        awaits(s.phase, e),
        is_failure(e),
    ensures
        next(s, e).0.phase == Phase::Done,
        next(s, e).1.len() > 0,
        next(s, e).1.last() == ActionView::Close,
{
}

/// A failure before the request reaches the upstream server (connecting,
/// creating the TLS connector, the handshake) is reported, and the client gets
/// a bad gateway reply before its connection closes.
pub proof fn law_bad_gateway_before_sending(s: SessionView, e: EventView)
    requires
        awaits(s.phase, e),
        is_failure(e),
        s.phase == Phase::Connect || s.phase == Phase::CreateTls || s.phase == Phase::Handshake,
    ensures
        next(s, e).0.phase == Phase::Done,
        next(s, e).1.len() == 3,
        next(s, e).1[0] is Report,
        next(s, e).1[1] == ActionView::Reply(bad_gateway()),
        next(s, e).1[2] == ActionView::Close,
{
}

/// A request is recorded only once it was written upstream, with the time
/// that writing it took, the configured target and the client's address.
pub proof fn law_record_after_write(s: SessionView, e: EventView, i: int)
    requires
        0 <= i < next(s, e).1.len(),
        next(s, e).1[i] is Record,
    ensures
        s.phase == Phase::WriteRequest,
        e matches EventView::RequestWritten(Ok(millis)) && next(s, e).1[i] == ActionView::Record(
            record_of(s, millis),
        ),
{
}

/// Once connected, the upstream server is sent the client's request as
/// rewritten for the clean host (directly, or after the TLS handshake).
pub proof fn law_upstream_gets_rewritten_request(s: SessionView, e: EventView)
    requires
        s.phase == Phase::Connect,
        e matches EventView::Connected(Ok(_)),
    ensures
        !s.tls ==> next(s, e).1.last() == ActionView::WriteUpstream(
            upstream_request(s.request, s.clean_host).0,
        ),
        s.tls ==> ({
            let created = next(next(s, e).0, EventView::TlsCreated(Ok(()))).0;
            next(created, EventView::Handshaken(Ok(()))).1 == seq![
                ActionView::WriteUpstream(upstream_request(s.request, s.clean_host).0),
            ]
        }),
        next(s, e).1[0] == ActionView::NotifyPlugins(
            s.client_ip,
            upstream_request(s.request, s.clean_host).1,
        ),
{
}

/// A non-empty request makes the session connect to the address it was made
/// with, whether the target is reached over TLS or not; the request is kept
/// for the upstream server.
pub proof fn law_connect_to_target_address(s: SessionView, bytes: Seq<u8>)
    requires
        s.phase == Phase::ReadRequest,
        bytes.len() > 0,
    ensures
        next(s, EventView::RequestRead(Some(bytes))).1 == seq![ActionView::Connect(s.target_addr)],
        next(s, EventView::RequestRead(Some(bytes))).0.phase == Phase::Connect,
        next(s, EventView::RequestRead(Some(bytes))).0.request == bytes,
{
}

/// For a session made from a configuration, that address is the target
/// without its scheme and trailing slashes, `:`, the configured port in
/// decimal and the configured path, for `https://` targets as for others.
pub proof fn law_connect_to_configured_port(
    s: SessionView,
    target: Seq<char>,
    port: u16,
    path: Seq<char>,
    bytes: Seq<u8>,
)
    requires
        s.phase == Phase::ReadRequest,
        s.target_addr == target_addr_of(target, port, path),
        bytes.len() > 0,
    ensures
        next(s, EventView::RequestRead(Some(bytes))).1 == seq![
            ActionView::Connect(
                trim_end(strip_prefixes(strip_prefixes(target, "https://"@), "http://"@), '/')
                    + seq![':'] + nat_decimal(port as nat) + path,
            ),
        ],
{
}

/// Once a chunk of the response has reached the client, the session reads the
/// next one from the upstream server; nothing else about it changes.
pub proof fn law_reads_after_each_chunk(s: SessionView)
    requires
        s.phase == Phase::WriteResponse,
    ensures
        next(s, EventView::ResponseWritten(Ok(()))) == (
            SessionView { phase: Phase::ReadResponse, ..s },
            seq![ActionView::ReadUpstream],
        ),
{
}

/// A session ends only on a failure, on the upstream server's empty read, or
/// when the client's request is missing or empty.
pub proof fn law_ends_only_on_end_or_failure(s: SessionView, e: EventView)
    requires
        s.phase != Phase::Done,
        next(s, e).0.phase == Phase::Done,
    ensures
        awaits(s.phase, e),
        is_failure(e) || e == EventView::RequestRead(Some(Seq::<u8>::empty()))
            || e == EventView::ResponseRead(Ok(Seq::<u8>::empty())),
{
    match e {
        EventView::RequestRead(Some(b)) => {
            if !is_failure(e) {
                assert(b =~= Seq::<u8>::empty());
            }
        },
        EventView::ResponseRead(Ok(b)) => {
            assert(b =~= Seq::<u8>::empty());
        },
        _ => {},
    }
}

fn strip_all(s: Vec<char>, prefix: &[char]) -> (r: Vec<char>)
    ensures
        r@ == strip_prefixes(s@, prefix@),
{
    let mut rest = s;
    while prefix.len() > 0 && starts_with(&rest, prefix)
        invariant
            strip_prefixes(s@, prefix@) == strip_prefixes(rest@, prefix@),
        decreases rest@.len(),
    {
        rest = slice_chars(&rest, prefix.len(), rest.len());
    }
    rest
}

fn trim_trailing(s: Vec<char>, c: char) -> (r: Vec<char>)
    ensures
        r@ == trim_end(s@, c),
{
    let mut rest = s;
    while rest.len() > 0 && rest[rest.len() - 1] == c
        invariant
            trim_end(s@, c) == trim_end(rest@, c),
        decreases rest@.len(),
    {
        rest.pop();
    }
    rest
}

fn text_with(prefix: &str, detail: &String) -> (s: String)
    ensures
        s@ == prefix@ + detail@,
{
    let mut t = chars_of(prefix);
    push_all(&mut t, &chars_of(detail.as_str()));
    string_of(&t)
}

/// The client's address as sessions record it: its text, or `unknown` when
/// the peer's address could not be had.
pub fn client_address(peer: Option<String>) -> (ip: String)
    ensures
        ip@ == match peer {
            Some(p) => p@,
            None => "unknown"@,
        },
{
    match peer {
        Some(p) => p,
        None => string_of(&chars_of("unknown")),
    }
}

impl ClientSession {
    /// A session that waits for the request of the client at `client_ip`, to
    /// forward it to the configured target (over TLS when the target begins
    /// with `https://`).
    pub fn new(config: &ProxyConfig, client_ip: String) -> (s: ClientSession)
        ensures
            s@.phase == Phase::ReadRequest,
            s@.tls == has_prefix(config.target@, "https://"@),
            s@.host == config.target@,
            s@.clean_host == clean_host_of(config.target@),
            s@.target_addr == target_addr_of(config.target@, config.port, config.path@),
            s@.client_ip == client_ip@,
            s@.request == Seq::<u8>::empty(),
            s@.path == Seq::<char>::empty(),
    {
        let target = chars_of(config.target.as_str());
        let tls = starts_with(&target, &chars_of("https://"));
        let no_https = strip_all(target, &chars_of("https://"));
        let no_scheme = strip_all(no_https, &chars_of("http://"));
        let clean = trim_trailing(no_scheme, '/');
        let mut addr = slice_chars(&clean, 0, clean.len());
        addr.push(':');
        push_all(&mut addr, &u128_decimal(config.port as u128));
        push_all(&mut addr, &chars_of(config.path.as_str()));
        proof {
            assert(addr@ =~= target_addr_of(config.target@, config.port, config.path@));
        }
        ClientSession {
            phase: Phase::ReadRequest,
            tls,
            host: string_of(&chars_of(config.target.as_str())),
            clean_host: string_of(&clean),
            target_addr: string_of(&addr),
            client_ip,
            request: Vec::new(),
            path: string_of(&Vec::new()),
        }
    }

    /// Takes an event and returns what to do next (see `next`).
    pub fn step(&mut self, event: ClientEvent) -> (actions: Vec<ProxyAction>)
        ensures
            (final(self)@, actions_view(actions@)) == next(old(self)@, event@),
    {
        let ghost s0 = self@;
        let ghost e = event@;
        let mut actions: Vec<ProxyAction> = Vec::new();
        match (self.phase, event) {
            (Phase::ReadRequest, ClientEvent::RequestRead(r)) => match r {
                Some(bytes) => {
                    if bytes.len() > 0 {
                        self.request = bytes;
                        self.phase = Phase::Connect;
                        actions.push(ProxyAction::Connect(string_of(&chars_of(self.target_addr.as_str()))));
                    } else {
                        self.phase = Phase::Done;
                        actions.push(ProxyAction::Close);
                    }
                },
                None => {
                    self.phase = Phase::Done;
                    actions.push(ProxyAction::Close);
                },
            },
            (Phase::Connect, ClientEvent::Connected(r)) => match r {
                Ok(_) => {
                    let (upstream, path) = rewrite_http_request(&self.request, self.clean_host.as_str());
                    actions.push(ProxyAction::NotifyPlugins(
                        string_of(&chars_of(self.client_ip.as_str())),
                        string_of(&chars_of(path.as_str())),
                    ));
                    if self.tls {
                        self.phase = Phase::CreateTls;
                        actions.push(ProxyAction::CreateTls);
                    } else {
                        self.phase = Phase::WriteRequest;
                        actions.push(ProxyAction::WriteUpstream(vstd::slice::slice_to_vec(upstream.as_slice())));
                    }
                    self.request = upstream;
                    self.path = path;
                },
                Err(m) => {
                    let mut t = chars_of("while connecting to: ");
                    push_all(&mut t, &chars_of(self.target_addr.as_str()));
                    push_all(&mut t, &chars_of(": "));
                    push_all(&mut t, &chars_of(m.as_str()));
                    self.phase = Phase::Done;
                    actions.push(ProxyAction::Report(ERROR_4_FETCH_ERROR, string_of(&t)));
                    actions.push(ProxyAction::Reply(string_of(&chars_of("HTTP/1.1 502 Bad Gateway\r\n\r\n"))));
                    actions.push(ProxyAction::Close);
                },
            },
            (Phase::CreateTls, ClientEvent::TlsCreated(r)) => match r {
                Ok(_) => {
                    self.phase = Phase::Handshake;
                    actions.push(ProxyAction::Handshake(string_of(&chars_of(self.clean_host.as_str()))));
                },
                Err(m) => {
                    self.phase = Phase::Done;
                    actions.push(ProxyAction::Report(ERROR_5_FAILURE_TLS_HANDSHAKE, text_with("while creating TLSConnector : ", &m)));
                    actions.push(ProxyAction::Reply(string_of(&chars_of("HTTP/1.1 502 Bad Gateway\r\n\r\n"))));
                    actions.push(ProxyAction::Close);
                },
            },
            (Phase::Handshake, ClientEvent::Handshaken(r)) => match r {
                Ok(_) => {
                    self.phase = Phase::WriteRequest;
                    actions.push(ProxyAction::WriteUpstream(vstd::slice::slice_to_vec(self.request.as_slice())));
                },
                Err(m) => {
                    self.phase = Phase::Done;
                    actions.push(ProxyAction::Report(ERROR_5_FAILURE_TLS_HANDSHAKE, text_with("while establishing : ", &m)));
                    actions.push(ProxyAction::Reply(string_of(&chars_of("HTTP/1.1 502 Bad Gateway\r\n\r\n"))));
                    actions.push(ProxyAction::Close);
                },
            },
            (Phase::WriteRequest, ClientEvent::RequestWritten(r)) => match r {
                Ok(millis) => {
                    self.phase = Phase::ReadResponse;
                    let host = string_of(&chars_of(self.host.as_str()));
                    let record = Request {
                        location: string_of(&chars_of(self.host.as_str())),
                        target: host,
                        path: string_of(&chars_of(self.path.as_str())),
                        ip: string_of(&chars_of(self.client_ip.as_str())),
                        time: millis,
                    };
                    actions.push(ProxyAction::Record(record));
                    actions.push(ProxyAction::ReadUpstream);
                },
                Err(m) => {
                    self.phase = Phase::Done;
                    if self.tls {
                        actions.push(ProxyAction::Report(ERROR_5_FAILURE_TLS_HANDSHAKE, text_with("while attempting to stream : ", &m)));
                    } else {
                        actions.push(ProxyAction::Report(ERROR_6_NET_WRITE_ERROR, text_with("while writing to server : ", &m)));
                    }
                    actions.push(ProxyAction::Close);
                },
            },
            (Phase::ReadResponse, ClientEvent::ResponseRead(r)) => match r {
                Ok(bytes) => {
                    if bytes.len() == 0 {
                        self.phase = Phase::Done;
                        actions.push(ProxyAction::Close);
                    } else {
                        self.phase = Phase::WriteResponse;
                        actions.push(ProxyAction::WriteClient(bytes));
                    }
                },
                Err(m) => {
                    self.phase = Phase::Done;
                    if self.tls {
                        actions.push(ProxyAction::Report(ERROR_5_FAILURE_TLS_HANDSHAKE, text_with("while reading from TLS server : ", &m)));
                    } else {
                        actions.push(ProxyAction::Report(ERROR_6_NET_WRITE_ERROR, text_with("while writing to server : ", &m)));
                    }
                    actions.push(ProxyAction::Close);
                },
            },
            (Phase::WriteResponse, ClientEvent::ResponseWritten(r)) => match r {
                Ok(_) => {
                    self.phase = Phase::ReadResponse;
                    actions.push(ProxyAction::ReadUpstream);
                },
                Err(m) => {
                    self.phase = Phase::Done;
                    if self.tls {
                        actions.push(ProxyAction::Report(ERROR_7_NET_READ_ERROR, text_with("while reading from client : ", &m)));
                    } else {
                        actions.push(ProxyAction::Report(ERROR_6_NET_WRITE_ERROR, text_with("while writing to client : ", &m)));
                    }
                    actions.push(ProxyAction::Close);
                },
            },
            _ => {},
        }
        proof {
            assert(actions_view(actions@) =~= next(s0, e).1);
            assert(self@ =~= next(s0, e).0);
        }
        actions
    }
}

} // verus!
