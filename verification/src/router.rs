//! The server-side packet router.
//!
//! The router is purely reactive: each inbound datagram is decoded, driven
//! through the hello/lookup/exchange state machine against the device
//! registry, and answered with zero or one outgoing datagrams. Nothing here
//! touches a socket: the caller receives each datagram, hands it in together
//! with the sender's textual address, and performs the sends the router asks
//! for. Every failure — a malformed datagram, a wrong identity token, an
//! unknown type, a missing target — drops the packet and leaves the registry
//! as it was; unauthenticated packages are dropped without a reply.
//!
//! The identity check is a single shared token, not per-client credentials:
//! possession of the token admits a sender, nothing more.

use vstd::prelude::*;
use vstd::utf8::{decode_utf8, valid_utf8};

use crate::codec::BinCodec;
use crate::frame::{
    frame_encodable, lemma_frame_canonical, lemma_frame_roundtrip, spec_decode_frame,
    spec_encode_frame, BaseUp2pProtocol,
};
use crate::pkg::{
    encodable_exchange, encodable_hello, encodable_request_ack, lemma_exchange_canonical,
    lemma_hello_roundtrip, spec_decode_exchange, spec_decode_hello, spec_decode_request,
    spec_encode_exchange, spec_encode_hello, spec_encode_request_ack, BasePkgView,
    ClientHelloPkg, ClientHelloPkgView, ClientRequestAckPkg, ClientRequestAckPkgView,
    ClientRequestPkg, ClientRequestPkgView, GetGlobalId, PeerExchangePkg, PeerExchangePkgView,
    PkgVerifyIdentity,
};
use crate::registry::DeviceRegistry;

verus! {

/// One datagram the router asks the caller to send: the destination's
/// textual address and the wire bytes.
pub struct Outgoing {
    pub dest: String,
    pub data: Vec<u8>,
}

impl View for Outgoing {
    type V = (Seq<char>, Seq<u8>);

    open spec fn view(&self) -> (Seq<char>, Seq<u8>) {
        (self.dest@, self.data@)
    }
}

/// What routing one datagram does: the registry afterwards, and the sends it
/// asks for, in order.
#[verifier::ext_equal]
pub ghost struct RouteOutcome {
    pub registry: Map<Seq<char>, Seq<char>>,
    pub sends: Seq<(Seq<char>, Seq<u8>)>,
}

/// A hello package: when the token matches and the message is a hello, the
/// sender's address is registered under its global id — overwriting any
/// earlier registration — and an empty hello acknowledgement goes back to
/// the sender. Every other hello (bad token, other message kinds) is a no-op.
pub open spec fn spec_route_hello(
    reg: Map<Seq<char>, Seq<char>>,
    token: Seq<char>,
    content: Seq<u8>,
    sender: Seq<char>,
) -> RouteOutcome {
    match spec_decode_hello(content) {
        Some(h) => if h.baseinfo.identity == token && h.msg == ClientHelloPkg::MSG_HELLO {
            RouteOutcome {
                registry: reg.insert(h.baseinfo.global_id(), sender),
                sends: seq![
                    (
                        sender,
                        spec_encode_frame(BaseUp2pProtocol::TYPE_HELLO_ACK, Seq::<u8>::empty()),
                    ),
                ],
            }
        } else {
            RouteOutcome { registry: reg, sends: Seq::empty() }
        },
        None => RouteOutcome { registry: reg, sends: Seq::empty() },
    }
}

/// A request package: when the token matches, the kind is an endpoint
/// request, its body is a UTF-8 global id, that id is registered, and the
/// registered address still fits a frame, the sender gets a request
/// acknowledgement carrying that address. On a miss nothing is sent: the
/// requester only ever observes a timeout. The registry never changes.
pub open spec fn spec_route_request(
    reg: Map<Seq<char>, Seq<char>>,
    token: Seq<char>,
    content: Seq<u8>,
    sender: Seq<char>,
) -> RouteOutcome {
    RouteOutcome {
        registry: reg,
        sends: match spec_decode_request(content) {
            Some(q) => if q.baseinfo.identity == token && q.request_type
                == ClientRequestPkg::REQUEST_ENDPOINT && valid_utf8(q.request_payload) && {
                let gid = decode_utf8(q.request_payload);
                reg.contains_key(gid)
            } {
                let ack = ClientRequestAckPkgView {
                    endpoint_address: reg[decode_utf8(q.request_payload)],
                };
                if encodable_request_ack(ack) && frame_encodable(spec_encode_request_ack(ack)) {
                    seq![
                        (
                            sender,
                            spec_encode_frame(
                                BaseUp2pProtocol::TYPE_REQUEST_ACK,
                                spec_encode_request_ack(ack),
                            ),
                        ),
                    ]
                } else {
                    Seq::empty()
                }
            } else {
                Seq::empty()
            },
            None => Seq::empty(),
        },
    }
}

/// An exchange package: when the token matches, a target is present, its
/// global id is registered, and the payload re-frames, the whole exchange
/// payload — source, payload and target untouched — is forwarded to the
/// target's registered address. The server never inspects the inner payload
/// bytes. An undirected package (no target) or an unregistered target is
/// dropped. The registry never changes.
pub open spec fn spec_route_exchange(
    reg: Map<Seq<char>, Seq<char>>,
    token: Seq<char>,
    content: Seq<u8>,
    sender: Seq<char>,
) -> RouteOutcome {
    RouteOutcome {
        registry: reg,
        sends: match spec_decode_exchange(content) {
            Some(x) => if x.base_info.identity == token && x.target is Some && reg.contains_key(
                x.target->0.global_id(),
            ) && encodable_exchange(x) && frame_encodable(spec_encode_exchange(x)) {
                seq![
                    (
                        reg[x.target->0.global_id()],
                        spec_encode_frame(
                            BaseUp2pProtocol::TYPE_PKG_EXCHANGE,
                            spec_encode_exchange(x),
                        ),
                    ),
                ]
            } else {
                Seq::empty()
            },
            None => Seq::empty(),
        },
    }
}

/// Routing one datagram: decode the frame and dispatch on its type. A
/// datagram that is not a well-formed frame, or whose type has no handler,
/// is dropped and changes nothing.
pub open spec fn spec_route(
    reg: Map<Seq<char>, Seq<char>>,
    token: Seq<char>,
    datagram: Seq<u8>,
    sender: Seq<char>,
) -> RouteOutcome {
    match spec_decode_frame(datagram) {
        Some((t, content)) => if t == BaseUp2pProtocol::TYPE_HELLO {
            spec_route_hello(reg, token, content, sender)
        } else if t == BaseUp2pProtocol::TYPE_REQUEST {
            spec_route_request(reg, token, content, sender)
        } else if t == BaseUp2pProtocol::TYPE_PKG_EXCHANGE {
            spec_route_exchange(reg, token, content, sender)
        } else {
            RouteOutcome { registry: reg, sends: Seq::empty() }
        },
        None => RouteOutcome { registry: reg, sends: Seq::empty() },
    }
}

/// Handles a hello payload as [`spec_route_hello`] says.
fn handle_client_hello_pkg(
    registry: &mut DeviceRegistry,
    server_identity: &str,
    payload: &[u8],
    sender_addr: &str,
) -> (out: Vec<Outgoing>)
    ensures
        final(registry)@ == spec_route_hello(
            old(registry)@,
            server_identity@,
            payload@,
            sender_addr@,
        ).registry,
        out@.map_values(|o: Outgoing| o@) == spec_route_hello(
            old(registry)@,
            server_identity@,
            payload@,
            sender_addr@,
        ).sends,
{
    let ghost want = spec_route_hello(old(registry)@, server_identity@, payload@, sender_addr@);
    let mut out: Vec<Outgoing> = Vec::new();
    proof {
        assert(out@.map_values(|o: Outgoing| o@) =~= Seq::<(Seq<char>, Seq<u8>)>::empty());
    }
    let pkg = match ClientHelloPkg::decode_from(payload) {
        Ok(p) => p,
        Err(_) => {
            return out;
        },
    };
    if pkg.verify_identity(server_identity).is_err() {
        return out;
    }
    if pkg.get_msg() != ClientHelloPkg::MSG_HELLO {
        return out;
    }
    registry.upsert(pkg.get_global_id(), sender_addr.to_owned());
    let ack = match BaseUp2pProtocol::hello_ack_with_payload() {
        Ok(f) => f,
        Err(_) => {
            return out;
        },
    };
    let bytes = match ack.encode_to_vec() {
        Ok(b) => b,
        Err(_) => {
            return out;
        },
    };
    out.push(Outgoing { dest: sender_addr.to_owned(), data: bytes });
    proof {
        assert(out@.map_values(|o: Outgoing| o@) =~= want.sends);
    }
    out
}

/// Handles a request payload as [`spec_route_request`] says.
fn handle_client_request_pkg(
    registry: &DeviceRegistry,
    server_identity: &str,
    payload: &[u8],
    sender_addr: &str,
) -> (out: Vec<Outgoing>)
    ensures
        out@.map_values(|o: Outgoing| o@) == spec_route_request(
            registry@,
            server_identity@,
            payload@,
            sender_addr@,
        ).sends,
{
    let ghost want = spec_route_request(registry@, server_identity@, payload@, sender_addr@);
    let mut out: Vec<Outgoing> = Vec::new();
    proof {
        assert(out@.map_values(|o: Outgoing| o@) =~= Seq::<(Seq<char>, Seq<u8>)>::empty());
    }
    let pkg = match ClientRequestPkg::decode_from(payload) {
        Ok(p) => p,
        Err(_) => {
            return out;
        },
    };
    if pkg.verify_identity(server_identity).is_err() {
        return out;
    }
    if pkg.get_request_type() != ClientRequestPkg::REQUEST_ENDPOINT {
        return out;
    }
    let requested_global_id = match pkg.get_payload_as_global_id() {
        Ok(s) => s,
        Err(_) => {
            return out;
        },
    };
    let addr = match registry.lookup(&requested_global_id) {
        Some(a) => a,
        None => {
            return out;
        },
    };
    let frame = match BaseUp2pProtocol::response_with_payload(ClientRequestAckPkg::new(addr)) {
        Ok(f) => f,
        Err(_) => {
            return out;
        },
    };
    let bytes = match frame.encode_to_vec() {
        Ok(b) => b,
        Err(_) => {
            return out;
        },
    };
    out.push(Outgoing { dest: sender_addr.to_owned(), data: bytes });
    proof {
        assert(out@.map_values(|o: Outgoing| o@) =~= want.sends);
    }
    out
}

/// Handles an exchange payload as [`spec_route_exchange`] says.
fn handle_exchange_pkg(
    registry: &DeviceRegistry,
    server_identity: &str,
    payload: &[u8],
    sender_addr: &str,
) -> (out: Vec<Outgoing>)
    ensures
        out@.map_values(|o: Outgoing| o@) == spec_route_exchange(
            registry@,
            server_identity@,
            payload@,
            sender_addr@,
        ).sends,
{
    let ghost want = spec_route_exchange(registry@, server_identity@, payload@, sender_addr@);
    let mut out: Vec<Outgoing> = Vec::new();
    proof {
        assert(out@.map_values(|o: Outgoing| o@) =~= Seq::<(Seq<char>, Seq<u8>)>::empty());
    }
    let pkg = match PeerExchangePkg::decode_from(payload) {
        Ok(p) => p,
        Err(_) => {
            return out;
        },
    };
    if pkg.verify_identity(server_identity).is_err() {
        return out;
    }
    let target = match pkg.get_target() {
        Some(t) => t,
        None => {
            return out;
        },
    };
    let dest = match registry.lookup(&target.get_global_id()) {
        Some(a) => a,
        None => {
            return out;
        },
    };
    let frame = match BaseUp2pProtocol::pakge_exchange_with_payload(pkg) {
        Ok(f) => f,
        Err(_) => {
            return out;
        },
    };
    let bytes = match frame.encode_to_vec() {
        Ok(b) => b,
        Err(_) => {
            return out;
        },
    };
    out.push(Outgoing { dest, data: bytes });
    proof {
        assert(out@.map_values(|o: Outgoing| o@) =~= want.sends);
    }
    out
}

/// Routes one inbound datagram against the registry and returns the sends to
/// perform, exactly as [`spec_route`] says. Never fails: every malformed or
/// unexpected datagram is dropped and the registry left as it was.
pub fn route(
    registry: &mut DeviceRegistry,
    server_identity: &str,
    datagram: &[u8],
    sender_addr: &str,
) -> (out: Vec<Outgoing>)
    ensures
        final(registry)@ == spec_route(
            old(registry)@,
            server_identity@,
            datagram@,
            sender_addr@,
        ).registry,
        out@.map_values(|o: Outgoing| o@) == spec_route(
            old(registry)@,
            server_identity@,
            datagram@,
            sender_addr@,
        ).sends,
{
    let frame = match BaseUp2pProtocol::decode_from(datagram) {
        Ok(f) => f,
        Err(_) => {
            let out: Vec<Outgoing> = Vec::new();
            proof {
                assert(out@.map_values(|o: Outgoing| o@) =~= Seq::<(Seq<char>, Seq<u8>)>::empty());
            }
            return out;
        },
    };
    let t = frame.get_pkg_type();
    if t == BaseUp2pProtocol::TYPE_HELLO {
        handle_client_hello_pkg(registry, server_identity, frame.get_payload(), sender_addr)
    } else if t == BaseUp2pProtocol::TYPE_REQUEST {
        handle_client_request_pkg(registry, server_identity, frame.get_payload(), sender_addr)
    } else if t == BaseUp2pProtocol::TYPE_PKG_EXCHANGE {
        handle_exchange_pkg(registry, server_identity, frame.get_payload(), sender_addr)
    } else {
        let out: Vec<Outgoing> = Vec::new();
        proof {
            assert(out@.map_values(|o: Outgoing| o@) =~= Seq::<(Seq<char>, Seq<u8>)>::empty());
        }
        out
    }
}

/// Law (rendezvous): a well-formed hello datagram whose token matches
/// registers the sender's address under the client's global id — on top of
/// whatever was registered before — and is answered with exactly the empty
/// hello acknowledgement, sent back to the sender.
pub proof fn lemma_hello_rendezvous(
    reg: Map<Seq<char>, Seq<char>>,
    token: Seq<char>,
    sender: Seq<char>,
    h: ClientHelloPkgView,
)
    requires
        encodable_hello(h),
        frame_encodable(spec_encode_hello(h)),
        h.baseinfo.identity == token,
        h.msg == ClientHelloPkg::MSG_HELLO,
    ensures
        ({
            let datagram = spec_encode_frame(
                BaseUp2pProtocol::TYPE_HELLO,
                spec_encode_hello(h),
            );
            &&& spec_route(reg, token, datagram, sender).registry == reg.insert(
                h.baseinfo.global_id(),
                sender,
            )
            &&& spec_route(reg, token, datagram, sender).sends == seq![
                (
                    sender,
                    spec_encode_frame(BaseUp2pProtocol::TYPE_HELLO_ACK, Seq::<u8>::empty()),
                ),
            ]
        }),
{
    lemma_frame_roundtrip(BaseUp2pProtocol::TYPE_HELLO, spec_encode_hello(h));
    lemma_hello_roundtrip(h);
}

/// Law (lookup miss): a request datagram naming a global id that was never
/// registered produces no reply at all — the requester can only observe a
/// timeout — and the registry is unchanged.
pub proof fn lemma_request_miss(
    reg: Map<Seq<char>, Seq<char>>,
    token: Seq<char>,
    datagram: Seq<u8>,
    sender: Seq<char>,
    content: Seq<u8>,
    q: ClientRequestPkgView,
)
    requires
        spec_decode_frame(datagram) == Some((BaseUp2pProtocol::TYPE_REQUEST, content)),
        spec_decode_request(content) == Some(q),
        valid_utf8(q.request_payload) ==> !reg.contains_key(decode_utf8(q.request_payload)),
    ensures
        spec_route(reg, token, datagram, sender).registry == reg,
        spec_route(reg, token, datagram, sender).sends == Seq::<(Seq<char>, Seq<u8>)>::empty(),
{
}

/// Law (exchange relay): a well-formed exchange datagram whose token matches
/// and whose target is registered is forwarded verbatim — one send, of the
/// original datagram, to the target's registered address, with source and
/// payload untouched — and the registry is unchanged.
pub proof fn lemma_exchange_relay(
    reg: Map<Seq<char>, Seq<char>>,
    token: Seq<char>,
    datagram: Seq<u8>,
    sender: Seq<char>,
    content: Seq<u8>,
    x: PeerExchangePkgView,
    tgt: BasePkgView,
)
    requires
        spec_decode_frame(datagram) == Some((BaseUp2pProtocol::TYPE_PKG_EXCHANGE, content)),
        spec_decode_exchange(content) == Some(x),
        x.base_info.identity == token,
        x.target == Some(tgt),
        reg.contains_key(tgt.global_id()),
    ensures
        spec_route(reg, token, datagram, sender).registry == reg,
        spec_route(reg, token, datagram, sender).sends == seq![
            (reg[tgt.global_id()], datagram),
        ],
{
    lemma_exchange_canonical(content, x);
    lemma_frame_canonical(datagram, BaseUp2pProtocol::TYPE_PKG_EXCHANGE, content);
}

/// Law (undirected exchange): an exchange datagram without a target is
/// dropped — no send anywhere, registry unchanged.
pub proof fn lemma_exchange_undirected(
    reg: Map<Seq<char>, Seq<char>>,
    token: Seq<char>,
    datagram: Seq<u8>,
    sender: Seq<char>,
    content: Seq<u8>,
    x: PeerExchangePkgView,
)
    requires
        spec_decode_frame(datagram) == Some((BaseUp2pProtocol::TYPE_PKG_EXCHANGE, content)),
        spec_decode_exchange(content) == Some(x),
        x.target is None,
    ensures
        spec_route(reg, token, datagram, sender).registry == reg,
        spec_route(reg, token, datagram, sender).sends == Seq::<(Seq<char>, Seq<u8>)>::empty(),
{
}

} // verus!
