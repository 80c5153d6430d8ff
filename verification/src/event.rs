//! Typed events on the client's receive path.
//!
//! The receive task turns each inbound datagram into one value of the closed
//! union [`ClientEvent`] — or into nothing, when the datagram is malformed.
//! The dispatch task matches the union exhaustively, so there is no runtime
//! downcasting anywhere: a frame type without a client handler lands in the
//! catch-all variant and is dropped by dispatch.

use vstd::prelude::*;

use crate::codec::BinCodec;
use crate::frame::{spec_decode_frame, BaseUp2pProtocol};
use crate::pkg::{
    spec_decode_exchange, spec_decode_request_ack, BasePkg, BasePkgView, ClientRequestAckPkg,
    GetBaseInfo, PeerExchangePkg,
};

verus! {

/// The frame type discriminants the client subscribes to.
pub struct EventType;

impl EventType {
    pub const HELLO_ACK: u8 = BaseUp2pProtocol::TYPE_HELLO_ACK;

    pub const REQUEST_ACK: u8 = BaseUp2pProtocol::TYPE_REQUEST_ACK;

    pub const P2P_PKG_EXCHANGE: u8 = BaseUp2pProtocol::TYPE_PKG_EXCHANGE;
}

/// A hello acknowledgement arrived; it carries nothing.
pub struct HelloACKEvent;

/// A request acknowledgement arrived, carrying the resolved address.
pub struct RequestAckEvent {
    endpoint_address: String,
}

impl View for RequestAckEvent {
    type V = Seq<char>;

    closed spec fn view(&self) -> Seq<char> {
        self.endpoint_address@
    }
}

impl RequestAckEvent {
    pub fn new(client_request_ack_pkg: ClientRequestAckPkg) -> (r: Self)
        ensures
            r@ == client_request_ack_pkg@.endpoint_address,
    {
        Self { endpoint_address: client_request_ack_pkg.get_endpoint_address() }
    }

    pub fn get_result_endpoint_address(&self) -> (r: String)
        ensures
            r@ == self@,
    {
        self.endpoint_address.clone()
    }
}

/// A relayed exchange payload arrived.
pub struct PkgExchangeEvent {
    payload: Vec<u8>,
    src: BasePkg,
    dst: Option<BasePkg>,
}

/// Mathematical view of [`PkgExchangeEvent`].
#[verifier::ext_equal]
pub ghost struct PkgExchangeEventView {
    pub payload: Seq<u8>,
    pub src: BasePkgView,
    pub dst: Option<BasePkgView>,
}

impl View for PkgExchangeEvent {
    type V = PkgExchangeEventView;

    closed spec fn view(&self) -> PkgExchangeEventView {
        PkgExchangeEventView {
            payload: self.payload@,
            src: self.src@,
            dst: match self.dst {
                Some(d) => Some(d@),
                None => None,
            },
        }
    }
}

impl PkgExchangeEvent {
    pub fn new(payload: Vec<u8>, src: BasePkg, dst: Option<BasePkg>) -> (r: Self)
        ensures
            r@ == (PkgExchangeEventView {
                payload: payload@,
                src: src@,
                dst: match dst {
                    Some(d) => Some(d@),
                    None => None,
                },
            }),
    {
        Self { payload, src, dst }
    }

    pub fn get_payload(&self) -> (r: Vec<u8>)
        ensures
            r@ == self@.payload,
    {
        vstd::slice::slice_to_vec(self.payload.as_slice())
    }

    pub fn get_dst(&self) -> (r: Option<BasePkg>)
        ensures
            (r is Some) == (self@.dst is Some),
            r matches Some(d) ==> self@.dst == Some(d@),
    {
        match &self.dst {
            Some(d) => Some(d.clone()),
            None => None,
        }
    }

    pub fn get_src(&self) -> (r: BasePkg)
        ensures
            r@ == self@.src,
    {
        self.src.clone()
    }
}

/// An event, as the dispatch task sees it.
pub trait CliEvent {
    spec fn spec_event_type(&self) -> u8;

    /// The frame type discriminant this event answers to.
    fn get_event_type(&self) -> (r: u8)
        ensures
            r == self.spec_event_type(),
    ;
}

impl CliEvent for HelloACKEvent {
    open spec fn spec_event_type(&self) -> u8 {
        EventType::HELLO_ACK
    }

    fn get_event_type(&self) -> (r: u8) {
        EventType::HELLO_ACK
    }
}

impl CliEvent for RequestAckEvent {
    open spec fn spec_event_type(&self) -> u8 {
        EventType::REQUEST_ACK
    }

    fn get_event_type(&self) -> (r: u8) {
        EventType::REQUEST_ACK
    }
}

impl CliEvent for PkgExchangeEvent {
    open spec fn spec_event_type(&self) -> u8 {
        EventType::P2P_PKG_EXCHANGE
    }

    fn get_event_type(&self) -> (r: u8) {
        EventType::P2P_PKG_EXCHANGE
    }
}

/// The closed union of everything the receive task can hand to dispatch.
pub enum ClientEvent {
    HelloAck(HelloACKEvent),
    RequestAck(RequestAckEvent),
    PkgExchange(PkgExchangeEvent),
    /// A well-formed frame of a type the client has no handler for; dispatch
    /// drops it.
    Other { pkg_type: u8 },
}

/// Mathematical view of [`ClientEvent`].
#[verifier::ext_equal]
pub ghost enum ClientEventView {
    HelloAck,
    RequestAck { endpoint_address: Seq<char> },
    PkgExchange { src: BasePkgView, payload: Seq<u8>, dst: Option<BasePkgView> },
    Other { pkg_type: u8 },
}

impl View for ClientEvent {
    type V = ClientEventView;

    open spec fn view(&self) -> ClientEventView {
        match self {
            ClientEvent::HelloAck(_) => ClientEventView::HelloAck,
            ClientEvent::RequestAck(e) => ClientEventView::RequestAck { endpoint_address: e@ },
            ClientEvent::PkgExchange(e) => ClientEventView::PkgExchange {
                src: e@.src,
                payload: e@.payload,
                dst: e@.dst,
            },
            ClientEvent::Other { pkg_type } => ClientEventView::Other { pkg_type: *pkg_type },
        }
    }
}

impl ClientEvent {
    /// The frame type discriminant this event answers to.
    pub open spec fn spec_event_type(&self) -> u8 {
        match self {
            ClientEvent::HelloAck(_) => EventType::HELLO_ACK,
            ClientEvent::RequestAck(_) => EventType::REQUEST_ACK,
            ClientEvent::PkgExchange(_) => EventType::P2P_PKG_EXCHANGE,
            ClientEvent::Other { pkg_type } => *pkg_type,
        }
    }

    pub fn get_event_type(&self) -> (r: u8)
        ensures
            r == self.spec_event_type(),
    {
        match self {
            ClientEvent::HelloAck(e) => e.get_event_type(),
            ClientEvent::RequestAck(e) => e.get_event_type(),
            ClientEvent::PkgExchange(e) => e.get_event_type(),
            ClientEvent::Other { pkg_type } => *pkg_type,
        }
    }
}

/// What event a datagram produces: a hello acknowledgement whatever its
/// content; a request acknowledgement or exchange event when the typed
/// payload decodes; the catch-all for other well-formed frames; nothing for
/// a malformed datagram or payload.
pub open spec fn spec_event_of_datagram(b: Seq<u8>) -> Option<ClientEventView> {
    match spec_decode_frame(b) {
        Some((t, c)) => if t == EventType::HELLO_ACK {
            Some(ClientEventView::HelloAck)
        } else if t == EventType::REQUEST_ACK {
            match spec_decode_request_ack(c) {
                Some(a) => Some(
                    ClientEventView::RequestAck { endpoint_address: a.endpoint_address },
                ),
                None => None,
            }
        } else if t == EventType::P2P_PKG_EXCHANGE {
            match spec_decode_exchange(c) {
                Some(x) => Some(
                    ClientEventView::PkgExchange {
                        src: x.base_info,
                        payload: x.payload,
                        dst: x.target,
                    },
                ),
                None => None,
            }
        } else {
            Some(ClientEventView::Other { pkg_type: t })
        },
        None => None,
    }
}

/// The receive task's whole decision: decode one datagram into the typed
/// event it produces, or into nothing when it must be dropped.
pub fn event_of_datagram(bytes: &[u8]) -> (r: Option<ClientEvent>)
    ensures
        (r is Some) == (spec_event_of_datagram(bytes@) is Some),
        r matches Some(e) ==> spec_event_of_datagram(bytes@) == Some(e@),
{
    let frame = match BaseUp2pProtocol::decode_from(bytes) {
        Ok(f) => f,
        Err(_) => {
            return None;
        },
    };
    let t = frame.get_pkg_type();
    if t == EventType::HELLO_ACK {
        Some(ClientEvent::HelloAck(HelloACKEvent))
    } else if t == EventType::REQUEST_ACK {
        match ClientRequestAckPkg::decode_from(frame.get_payload()) {
            Ok(p) => Some(ClientEvent::RequestAck(RequestAckEvent::new(p))),
            Err(_) => None,
        }
    } else if t == EventType::P2P_PKG_EXCHANGE {
        match PeerExchangePkg::decode_from(frame.get_payload()) {
            Ok(p) => {
                let src = p.get_baseinfo().clone();
                let dst = p.get_target();
                let payload = p.get_payload();
                Some(ClientEvent::PkgExchange(PkgExchangeEvent::new(payload, src, dst)))
            },
            Err(_) => None,
        }
    } else {
        Some(ClientEvent::Other { pkg_type: t })
    }
}

} // verus!
