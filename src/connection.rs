use vstd::prelude::*;

use crate::error::ProxyError;
use crate::splice::{can_count, fresh_session, step, Side, Splice, SpliceAction, SpliceEvent};
use crate::target::{digits_value, host_part, is_authority, port_part, resolve_target, TargetAddress};

verus! {

pub const STATUS_OK: u16 = 200;

pub const STATUS_BAD_REQUEST: u16 = 400;

pub const STATUS_BAD_GATEWAY: u16 = 502;

/// A response that the proxy writes itself, rather than relaying one from upstream.
pub struct ProxyResponse {
    pub status: u16,
    pub body: String,
}

/// The method name `CONNECT`, in ASCII.
pub open spec fn connect_method() -> Seq<u8> {
    seq![67u8, 79u8, 78u8, 78u8, 69u8, 67u8, 84u8]
}

/// Whether a request method is CONNECT. Method names are case-sensitive.
pub fn is_connect(method: &[u8]) -> (r: bool)
    ensures
        r == (method@ == connect_method()),
{
    let r = method.len() == 7 && method[0] == 67 && method[1] == 79 && method[2] == 78
        && method[3] == 78 && method[4] == 69 && method[5] == 67 && method[6] == 84;
    proof {
        if r {
            assert(method@ =~= connect_method());
        }
    }
    r
}

/// The answer to a CONNECT whose target is not `host:port`.
pub fn bad_target_response() -> (r: ProxyResponse)
    ensures
        r.status == STATUS_BAD_REQUEST,
        r.body@ == "CONNECT must be to a socket address"@,
{
    ProxyResponse { status: STATUS_BAD_REQUEST, body: "CONNECT must be to a socket address".to_owned() }
}

/// The answer that a tunnel is established: success, with no body.
pub fn tunnel_established_response() -> (r: ProxyResponse)
    ensures
        r.status == STATUS_OK,
        r.body@.len() == 0,
{
    ProxyResponse { status: STATUS_OK, body: String::new() }
}

/// The answer when the tunnel target could not be connected to.
pub fn dial_failed_response() -> (r: ProxyResponse)
    ensures
        r.status == STATUS_BAD_GATEWAY,
        r.body@ == "CONNECT target could not be reached"@,
{
    ProxyResponse { status: STATUS_BAD_GATEWAY, body: "CONNECT target could not be reached".to_owned() }
}

/// The answer when the origin could not be reached.
pub fn upstream_failed_response() -> (r: ProxyResponse)
    ensures
        r.status == STATUS_BAD_GATEWAY,
        r.body@ == "upstream request failed"@,
{
    ProxyResponse { status: STATUS_BAD_GATEWAY, body: "upstream request failed".to_owned() }
}

/// Where one exchange on a client connection stands.
pub enum Phase {
    /// Waiting for the next request.
    AwaitingRequest,
    /// A request has gone to the origin; its result is awaited.
    Forwarding,
    /// A CONNECT target has been accepted; the connect to it is awaited.
    Dialing,
    /// The target is connected and the client told so; the switch to a raw byte
    /// stream is awaited.
    Upgrading,
    /// Bytes are relayed between the client and the target.
    Tunneling(Splice),
    /// Nothing more happens on this connection.
    Closed,
}

/// What the connection is to do next.
pub enum Action {
    /// Send the request to its origin as it is.
    Forward,
    /// Relay the origin's response to the client as it is.
    Relay,
    /// Write this response; the connection stays an HTTP connection.
    Respond(ProxyResponse),
    /// Write this response, then take the connection over as a raw byte stream.
    RespondAndUpgrade(ProxyResponse),
    /// Write this response, then drop the connection.
    RespondAndClose(ProxyResponse),
    /// Open a TCP connection to this target.
    Dial(TargetAddress),
    /// Start relaying bytes between the two streams.
    Splice,
    /// Report this error and drop the connection.
    Abort(ProxyError),
}

/// The state of one exchange on a client connection.
pub struct Connection {
    pub phase: Phase,
}

impl Connection {
    pub fn new() -> (r: Connection)
        ensures
            r.phase is AwaitingRequest,
    {
        Connection { phase: Phase::AwaitingRequest }
    }

    /// A request came in. CONNECT with a `host:port` target has that target dialled
    /// before anything is answered; CONNECT with any other target is answered 400
    /// and nothing is dialled; every other method is forwarded.
    pub fn on_request(&mut self, method: &[u8], authority: &[u8]) -> (r: Action)
        requires
            old(self).phase is AwaitingRequest,
        ensures
            method@ != connect_method() ==> r is Forward && final(self).phase is Forwarding,
            method@ == connect_method() && !is_authority(authority@) ==> {
                &&& r matches Action::Respond(resp)
                &&& resp.status == STATUS_BAD_REQUEST
                &&& resp.body@ == "CONNECT must be to a socket address"@
                &&& final(self).phase is AwaitingRequest
            },
            method@ == connect_method() && is_authority(authority@) ==> {
                &&& r matches Action::Dial(t)
                &&& final(self).phase is Dialing
                &&& t.host@ == host_part(authority@)
                &&& t.port as nat == digits_value(port_part(authority@))
            },
    {
        if !is_connect(method) {
            self.phase = Phase::Forwarding;
            return Action::Forward;
        }
        match resolve_target(authority) {
            Ok(t) => {
                self.phase = Phase::Dialing;
                Action::Dial(t)
            },
            Err(_) => Action::Respond(bad_target_response()),
        }
    }

    /// The origin answered (`reached`) or could not be reached. Its answer is
    /// relayed as it is; a failure becomes a 502 response. Nothing is retried.
    pub fn on_forwarded(&mut self, reached: bool) -> (r: Action)
        requires
            old(self).phase is Forwarding,
        ensures
            final(self).phase is AwaitingRequest,
            reached ==> r is Relay,
            !reached ==> {
                &&& r matches Action::Respond(resp)
                &&& resp.status == STATUS_BAD_GATEWAY
                &&& resp.body@ == "upstream request failed"@
            },
    {
        self.phase = Phase::AwaitingRequest;
        if reached {
            Action::Relay
        } else {
            Action::Respond(upstream_failed_response())
        }
    }

    /// The connect to the target succeeded or failed. On success the client is
    /// told so with an empty success response, and the connection is to be switched
    /// to a raw stream; on failure it gets a 502 and no success answer at all.
    pub fn on_dialled(&mut self, connected: bool) -> (r: Action)
        requires
            old(self).phase is Dialing,
        ensures
            connected ==> {
                &&& r matches Action::RespondAndUpgrade(resp)
                &&& resp.status == STATUS_OK
                &&& resp.body@.len() == 0
                &&& final(self).phase is Upgrading
            },
            !connected ==> {
                &&& r matches Action::RespondAndClose(resp)
                &&& resp.status == STATUS_BAD_GATEWAY
                &&& resp.body@ == "CONNECT target could not be reached"@
                &&& final(self).phase is Closed
            },
    {
        if connected {
            self.phase = Phase::Upgrading;
            Action::RespondAndUpgrade(tunnel_established_response())
        } else {
            self.phase = Phase::Closed;
            Action::RespondAndClose(dial_failed_response())
        }
    }

    /// The switch to a raw stream succeeded or failed. On success the relay starts
    /// with nothing counted yet; on failure the connection is dropped, and no other
    /// connection is touched.
    pub fn on_upgraded(&mut self, upgraded: bool) -> (r: Action)
        requires
            old(self).phase is Upgrading,
        ensures
            upgraded ==> {
                &&& r is Splice
                &&& final(self).phase matches Phase::Tunneling(s)
                &&& s@ == fresh_session()
                &&& s.events@ == Seq::<SpliceEvent>::empty()
                &&& s.wf()
            },
            !upgraded ==> final(self).phase is Closed && r == Action::Abort(
                ProxyError::UpgradeError,
            ),
    {
        if upgraded {
            self.phase = Phase::Tunneling(Splice::new());
            Action::Splice
        } else {
            self.phase = Phase::Closed;
            Action::Abort(ProxyError::UpgradeError)
        }
    }

    /// Whether `n` more bytes read from `from` can be handed to the open tunnel.
    pub fn can_count(&self, from: Side, n: usize) -> (r: bool)
        ensures
            r == (self.phase matches Phase::Tunneling(s) && s.open && can_count(s@, from, n as nat)),
    {
        match &self.phase {
            Phase::Tunneling(s) => {
                if !s.open {
                    return false;
                }
                match from {
                    Side::Client => n as u64 <= u64::MAX - s.from_client,
                    Side::Server => n as u64 <= u64::MAX - s.from_server,
                }
            },
            _ => false,
        }
    }

    /// A tunnel event: bytes read on one side (none: end of stream) or a failure
    /// there. Bytes go to the other side unchanged; an end or a failure on either
    /// side tears down both and closes the connection.
    pub fn on_tunnel_event(&mut self, from: Side, read: Option<Vec<u8>>) -> (r: SpliceAction)
        requires
            old(self).phase matches Phase::Tunneling(s) && s.open && s.wf() && (read matches Some(
                data,
            ) ==> can_count(s@, from, data@.len())),
        ensures
            old(self).phase matches Phase::Tunneling(s) && {
                let e = match read {
                    Some(data) => SpliceEvent::Read(from, data@),
                    None => SpliceEvent::Failed(from),
                };
                let (m, o) = step(s@, e);
                &&& r@ == o
                &&& m.open ==> (final(self).phase matches Phase::Tunneling(s1) && s1@ == m
                    && s1.wf() && s1.events@ == s.events@.push(e))
                &&& !m.open ==> final(self).phase is Closed
            },
    {
        let mut phase = Phase::Closed;
        core::mem::swap(&mut phase, &mut self.phase);
        match phase {
            Phase::Tunneling(mut s) => {
                let r = match read {
                    Some(data) => s.on_read(from, data),
                    None => s.on_failure(from),
                };
                if s.open {
                    self.phase = Phase::Tunneling(s);
                }
                r
            },
            _ => SpliceAction::Idle,
        }
    }
}

} // verus!
