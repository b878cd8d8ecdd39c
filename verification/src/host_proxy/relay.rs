//! Serving one client of the forward proxy: the decisions taken between the
//! reads and writes on the client's and the upstream server's connections.
//!
//! The caller performs each action a step returns and reports what came of it
//! as the next event; the session decides what to do next.

use vstd::prelude::*;

use super::data::Request;
use super::proxy::{forward_target, head_after, upstream_address};
use crate::network::proxy::utf8_lossy;
use crate::text::{chars_of, int_decimal, push_all, string_of, text_lines};

verus! {

/// What the session waits for.
#[derive(PartialEq, Eq, Structural, Clone, Copy)]
pub enum RelayPhase {
    /// The client's request.
    ReadRequest,
    /// The connection to the host the request names.
    Connect,
    /// Writing the request upstream.
    WriteRequest,
    /// A chunk of the upstream server's response.
    ReadResponse,
    /// Writing a chunk of the response to the client.
    WriteResponse,
    /// Nothing: the session is over.
    Done,
}

/// The state of forwarding one client's request.
pub struct RelaySession {
    pub phase: RelayPhase,
    /// The client's request, as read.
    pub request: Vec<u8>,
    /// The address to connect to, once known.
    pub target_addr: String,
}

/// A relay session as plain values.
pub struct RelayView {
    pub phase: RelayPhase,
    pub request: Seq<u8>,
    pub target_addr: Seq<char>,
}

impl View for RelaySession {
    type V = RelayView;

    open spec fn view(&self) -> RelayView {
        RelayView { phase: self.phase, request: self.request@, target_addr: self.target_addr@ }
    }
}

/// What came of the last action: `Err` carries the error's text.
pub enum RelayEvent {
    /// The client's request was read (its bytes, or `None` when reading
    /// failed), this many milliseconds after reading began.
    RequestRead(Option<Vec<u8>>, u128),
    Connected(Result<(), String>),
    RequestWritten(Result<(), String>),
    /// A chunk of the response was read; empty at its end.
    ResponseRead(Result<Vec<u8>, String>),
    ResponseWritten(Result<(), String>),
}

/// An event as plain values.
pub enum RelayEventView {
    RequestRead(Option<Seq<u8>>, u128),
    Connected(Result<(), Seq<char>>),
    RequestWritten(Result<(), Seq<char>>),
    ResponseRead(Result<Seq<u8>, Seq<char>>),
    ResponseWritten(Result<(), Seq<char>>),
}

/// `Ok` kept, the error taken by its text.
pub open spec fn unit_outcome(r: Result<(), String>) -> Result<(), Seq<char>> {
    match r {
        Ok(_) => Ok(()),
        Err(e) => Err(e@),
    }
}

impl View for RelayEvent {
    type V = RelayEventView;

    open spec fn view(&self) -> RelayEventView {
        match self {
            RelayEvent::RequestRead(r, millis) => RelayEventView::RequestRead(
                match r {
                    Some(b) => Some(b@),
                    None => None,
                },
                *millis,
            ),
            RelayEvent::Connected(r) => RelayEventView::Connected(unit_outcome(*r)),
            RelayEvent::RequestWritten(r) => RelayEventView::RequestWritten(unit_outcome(*r)),
            RelayEvent::ResponseRead(r) => RelayEventView::ResponseRead(
                match r {
                    Ok(b) => Ok(b@),
                    Err(e) => Err(e@),
                },
            ),
            RelayEvent::ResponseWritten(r) => RelayEventView::ResponseWritten(unit_outcome(*r)),
        }
    }
}

/// What the caller is to do next.
pub enum RelayAction {
    /// Pass this record of the request on.
    Record(Request),
    /// Connect to the upstream server at this address.
    Connect(String),
    /// Print this line on the error output.
    Log(String),
    /// Write this text to the client.
    Reply(String),
    /// Write these bytes to the upstream server.
    WriteUpstream(Vec<u8>),
    /// Read a chunk of the upstream server's response.
    ReadUpstream,
    /// Write these bytes to the client.
    WriteClient(Vec<u8>),
    /// Close the client's connection.
    Close,
}

/// An action as plain values; a record by its location, target, path and time.
pub enum RelayActionView {
    Record(Seq<char>, Seq<char>, Seq<char>, u128),
    Connect(Seq<char>),
    Log(Seq<char>),
    Reply(Seq<char>),
    WriteUpstream(Seq<u8>),
    ReadUpstream,
    WriteClient(Seq<u8>),
    Close,
}

impl View for RelayAction {
    type V = RelayActionView;

    open spec fn view(&self) -> RelayActionView {
        match self {
            RelayAction::Record(r) => RelayActionView::Record(
                r.location@,
                r.target@,
                r.path@,
                r.time,
            ),
            RelayAction::Connect(a) => RelayActionView::Connect(a@),
            RelayAction::Log(l) => RelayActionView::Log(l@),
            RelayAction::Reply(t) => RelayActionView::Reply(t@),
            RelayAction::WriteUpstream(b) => RelayActionView::WriteUpstream(b@),
            RelayAction::ReadUpstream => RelayActionView::ReadUpstream,
            RelayAction::WriteClient(b) => RelayActionView::WriteClient(b@),
            RelayAction::Close => RelayActionView::Close,
        }
    }
}

/// The actions, as plain values.
pub open spec fn relay_actions_view(actions: Seq<RelayAction>) -> Seq<RelayActionView> {
    actions.map_values(|a: RelayAction| a@)
}

/// The reply to a client whose request cannot be forwarded.
pub open spec fn relay_bad_gateway() -> Seq<char> {
    "HTTP/1.1 502 Bad Gateway\r\n\r\n"@
}

/// The session in another phase.
pub open spec fn relay_in_phase(s: RelayView, phase: RelayPhase) -> RelayView {
    RelayView { phase, ..s }
}

/// The end of a session after a failure: print the line, then close.
pub open spec fn relay_failed(s: RelayView, line: Seq<char>) -> (RelayView, Seq<RelayActionView>) {
    (relay_in_phase(s, RelayPhase::Done), seq![RelayActionView::Log(line), RelayActionView::Close])
}

/// The next state of a session and what to do, after an event.  The request
/// goes to the host and port of its head (see `head_after`), as the client
/// sent it; a request that names no host is dropped.  An event that the phase
/// does not wait for changes nothing and asks for nothing.
pub open spec fn relay_next(s: RelayView, e: RelayEventView) -> (RelayView, Seq<RelayActionView>) {
    match (s.phase, e) {
        (RelayPhase::ReadRequest, RelayEventView::RequestRead(r, millis)) => match r {
            Some(bytes) => if bytes.len() > 0 {
                let head = head_after(text_lines(utf8_lossy(bytes)));
                if head.host.len() == 0 {
                    relay_failed(s, "No host found in request"@)
                } else {
                    let addr = head.host + seq![':'] + int_decimal(head.port as int);
                    (
                        RelayView { phase: RelayPhase::Connect, request: bytes, target_addr: addr },
                        seq![
                            RelayActionView::Record(head.host, head.host, head.path, millis),
                            RelayActionView::Connect(addr),
                        ],
                    )
                }
            } else {
                (relay_in_phase(s, RelayPhase::Done), seq![RelayActionView::Close])
            },
            None => (relay_in_phase(s, RelayPhase::Done), seq![RelayActionView::Close]),
        },
        (RelayPhase::Connect, RelayEventView::Connected(r)) => match r {
            Ok(_) => (
                relay_in_phase(s, RelayPhase::WriteRequest),
                seq![RelayActionView::WriteUpstream(s.request)],
            ),
            Err(m) => (
                relay_in_phase(s, RelayPhase::Done),
                seq![
                    RelayActionView::Log("Failed to connect to "@ + s.target_addr + ": "@ + m),
                    RelayActionView::Reply(relay_bad_gateway()),
                    RelayActionView::Close,
                ],
            ),
        },
        (RelayPhase::WriteRequest, RelayEventView::RequestWritten(r)) => match r {
            Ok(_) => (relay_in_phase(s, RelayPhase::ReadResponse), seq![RelayActionView::ReadUpstream]),
            Err(m) => relay_failed(s, "Failed to write to server: "@ + m),
        },
        (RelayPhase::ReadResponse, RelayEventView::ResponseRead(r)) => match r {
            Ok(bytes) => if bytes.len() == 0 {
                (relay_in_phase(s, RelayPhase::Done), seq![RelayActionView::Close])
            } else {
                (relay_in_phase(s, RelayPhase::WriteResponse), seq![RelayActionView::WriteClient(bytes)])
            },
            Err(m) => relay_failed(s, "Failed to read from server: "@ + m),
        },
        (RelayPhase::WriteResponse, RelayEventView::ResponseWritten(r)) => match r {
            Ok(_) => (relay_in_phase(s, RelayPhase::ReadResponse), seq![RelayActionView::ReadUpstream]),
            Err(m) => relay_failed(s, "Failed to write to client: "@ + m),
        },
        _ => (s, Seq::empty()),
    }
}

/// A finished session stays finished and asks for nothing more.
pub proof fn law_relay_done_is_final(s: RelayView, e: RelayEventView)
    requires
        s.phase == RelayPhase::Done,
    ensures
        relay_next(s, e) == (s, Seq::<RelayActionView>::empty()),
{
}

/// When the upstream server cannot be reached, the client gets a bad gateway
/// reply and its connection closes.
pub proof fn law_relay_bad_gateway(s: RelayView, m: Seq<char>)
    requires
        s.phase == RelayPhase::Connect,
    ensures
        relay_next(s, RelayEventView::Connected(Err(m))).0.phase == RelayPhase::Done,
        relay_next(s, RelayEventView::Connected(Err(m))).1[1] == RelayActionView::Reply(
            relay_bad_gateway(),
        ),
        relay_next(s, RelayEventView::Connected(Err(m))).1.last() == RelayActionView::Close,
{
}

/// The upstream server is sent the request exactly as the client sent it.
pub proof fn law_relay_forwards_request_unchanged(bytes: Seq<u8>, millis: u128, e: RelayEventView)
    requires
        bytes.len() > 0,
        head_after(text_lines(utf8_lossy(bytes))).host.len() > 0,
    ensures
        ({
            let s0 = RelayView {
                phase: RelayPhase::ReadRequest,
                request: Seq::empty(),
                target_addr: Seq::empty(),
            };
            let s1 = relay_next(s0, RelayEventView::RequestRead(Some(bytes), millis)).0;
            relay_next(s1, RelayEventView::Connected(Ok(()))).1 == seq![
                RelayActionView::WriteUpstream(bytes),
            ]
        }),
{
}

/// Once a chunk of the response has reached the client, the session reads the
/// next one from the upstream server; nothing else about it changes.
pub proof fn law_relay_reads_after_each_chunk(s: RelayView)
    requires
        s.phase == RelayPhase::WriteResponse,
    ensures
        relay_next(s, RelayEventView::ResponseWritten(Ok(()))) == (
            RelayView { phase: RelayPhase::ReadResponse, request: s.request, target_addr: s.target_addr },
            seq![RelayActionView::ReadUpstream],
        ),
{
}

/// Every non-empty chunk read from the upstream server is written to the
/// client, as read.
pub proof fn law_relay_passes_each_chunk(s: RelayView, bytes: Seq<u8>)
    requires
        s.phase == RelayPhase::ReadResponse,
        bytes.len() > 0,
    ensures
        relay_next(s, RelayEventView::ResponseRead(Ok(bytes))) == (
            RelayView { phase: RelayPhase::WriteResponse, request: s.request, target_addr: s.target_addr },
            seq![RelayActionView::WriteClient(bytes)],
        ),
{
}

/// A session ends only on a failure, on the upstream server's empty read, or
/// when the client's request is missing, empty or names no host: it never
/// ends after a chunk of the response was passed on.
pub proof fn law_relay_ends_only_on_end_or_failure(s: RelayView, e: RelayEventView)
    requires
        s.phase != RelayPhase::Done,
        relay_next(s, e).0.phase == RelayPhase::Done,
    ensures
        match e {
            RelayEventView::RequestRead(r, _) => s.phase == RelayPhase::ReadRequest && match r {
                Some(bytes) => bytes.len() == 0 || head_after(text_lines(utf8_lossy(bytes))).host.len()
                    == 0,
                None => true,
            },
            RelayEventView::Connected(r) => s.phase == RelayPhase::Connect && r is Err,
            RelayEventView::RequestWritten(r) => s.phase == RelayPhase::WriteRequest && r is Err,
            RelayEventView::ResponseRead(r) => s.phase == RelayPhase::ReadResponse && match r {
                Ok(bytes) => bytes.len() == 0,
                Err(_) => true,
            },
            RelayEventView::ResponseWritten(r) => s.phase == RelayPhase::WriteResponse && r is Err,
        },
{
}

fn line_with(prefix: &str, detail: &String) -> (s: String)
    ensures
        s@ == prefix@ + detail@,
{
    let mut t = chars_of(prefix);
    push_all(&mut t, &chars_of(detail.as_str()));
    string_of(&t)
}

impl RelaySession {
    /// A session that waits for the client's request.
    pub fn new() -> (s: RelaySession)
        ensures
            s@.phase == RelayPhase::ReadRequest,
            s@.request == Seq::<u8>::empty(),
            s@.target_addr == Seq::<char>::empty(),
    {
        RelaySession {
            phase: RelayPhase::ReadRequest,
            request: Vec::new(),
            target_addr: string_of(&Vec::new()),
        }
    }

    /// Takes an event and returns what to do next (see `relay_next`).
    pub fn step(&mut self, event: RelayEvent) -> (actions: Vec<RelayAction>)
        ensures
            (final(self)@, relay_actions_view(actions@)) == relay_next(old(self)@, event@),
    {
        let ghost s0 = self@;
        let ghost e = event@;
        let mut actions: Vec<RelayAction> = Vec::new();
        match (self.phase, event) {
            (RelayPhase::ReadRequest, RelayEvent::RequestRead(r, millis)) => match r {
                Some(bytes) => {
                    if bytes.len() > 0 {
                        match forward_target(&bytes) {
                            Some(head) => {
                                let addr = upstream_address(&head);
                                actions.push(RelayAction::Record(Request {
                                    location: string_of(&chars_of(head.host.as_str())),
                                    target: string_of(&chars_of(head.host.as_str())),
                                    path: string_of(&chars_of(head.path.as_str())),
                                    time: millis,
                                }));
                                actions.push(RelayAction::Connect(string_of(&chars_of(addr.as_str()))));
                                self.phase = RelayPhase::Connect;
                                self.request = bytes;
                                self.target_addr = addr;
                            },
                            None => {
                                self.phase = RelayPhase::Done;
                                actions.push(RelayAction::Log(string_of(&chars_of("No host found in request"))));
                                actions.push(RelayAction::Close);
                            },
                        }
                    } else {
                        self.phase = RelayPhase::Done;
                        actions.push(RelayAction::Close);
                    }
                },
                None => {
                    self.phase = RelayPhase::Done;
                    actions.push(RelayAction::Close);
                },
            },
            (RelayPhase::Connect, RelayEvent::Connected(r)) => match r {
                Ok(_) => {
                    self.phase = RelayPhase::WriteRequest;
                    actions.push(RelayAction::WriteUpstream(vstd::slice::slice_to_vec(self.request.as_slice())));
                },
                Err(m) => {
                    let mut t = chars_of("Failed to connect to ");
                    push_all(&mut t, &chars_of(self.target_addr.as_str()));
                    push_all(&mut t, &chars_of(": "));
                    push_all(&mut t, &chars_of(m.as_str()));
                    self.phase = RelayPhase::Done;
                    actions.push(RelayAction::Log(string_of(&t)));
                    actions.push(RelayAction::Reply(string_of(&chars_of("HTTP/1.1 502 Bad Gateway\r\n\r\n"))));
                    actions.push(RelayAction::Close);
                },
            },
            (RelayPhase::WriteRequest, RelayEvent::RequestWritten(r)) => match r {
                Ok(_) => {
                    self.phase = RelayPhase::ReadResponse;
                    actions.push(RelayAction::ReadUpstream);
                },
                Err(m) => {
                    self.phase = RelayPhase::Done;
                    actions.push(RelayAction::Log(line_with("Failed to write to server: ", &m)));
                    actions.push(RelayAction::Close);
                },
            },
            (RelayPhase::ReadResponse, RelayEvent::ResponseRead(r)) => match r {
                Ok(bytes) => {
                    if bytes.len() == 0 {
                        self.phase = RelayPhase::Done;
                        actions.push(RelayAction::Close);
                    } else {
                        self.phase = RelayPhase::WriteResponse;
                        actions.push(RelayAction::WriteClient(bytes));
                    }
                },
                Err(m) => {
                    self.phase = RelayPhase::Done;
                    actions.push(RelayAction::Log(line_with("Failed to read from server: ", &m)));
                    actions.push(RelayAction::Close);
                },
            },
            (RelayPhase::WriteResponse, RelayEvent::ResponseWritten(r)) => match r {
                Ok(_) => {
                    self.phase = RelayPhase::ReadResponse;
                    actions.push(RelayAction::ReadUpstream);
                },
                Err(m) => {
                    self.phase = RelayPhase::Done;
                    actions.push(RelayAction::Log(line_with("Failed to write to client: ", &m)));
                    actions.push(RelayAction::Close);
                },
            },
            _ => {},
        }
        proof {
            assert(relay_actions_view(actions@) =~= relay_next(s0, e).1);
            assert(self@ =~= relay_next(s0, e).0);
        }
        actions
    }
}

} // verus!
