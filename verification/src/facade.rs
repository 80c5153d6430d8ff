//! The pure parts of the client facade.
//!
//! The three call patterns — hello, lookup, exchange — each send one
//! datagram and, except for the exchange send, wait for one reply through
//! the correlation engine. What they send and how a reply is read is decided
//! here, over plain values; the caller owns the socket and the timers.

use vstd::prelude::*;

use crate::codec::BinCodec;
use crate::event::{ClientEvent, ClientEventView};
use crate::frame::{frame_encodable, spec_encode_frame, BaseUp2pProtocol};
use crate::pkg::{
    encodable_exchange, encodable_hello, encodable_request, spec_encode_exchange,
    spec_encode_hello, spec_encode_request, BasePkg, BasePkgView, ClientHelloPkg,
    ClientHelloPkgView, ClientRequestPkg, ClientRequestPkgView, PeerExchangePkg,
    PeerExchangePkgView, RequestInfo,
};
use crate::util::{get_global_id, spec_global_id};
use crate::ProtocolError;

verus! {

/// The datagram a hello call sends: this client's identity in a hello
/// payload, framed. Fails exactly when the identity does not fit.
pub fn build_hello_datagram(base_info: &BasePkg) -> (r: Result<Vec<u8>, ProtocolError>)
    ensures
        ({
            let h = ClientHelloPkgView {
                baseinfo: base_info@,
                msg: ClientHelloPkg::MSG_HELLO,
            };
            &&& (r is Ok) == (encodable_hello(h) && frame_encodable(spec_encode_hello(h)))
            &&& (r matches Ok(v) ==> v@ == spec_encode_frame(
                BaseUp2pProtocol::TYPE_HELLO,
                spec_encode_hello(h),
            ))
            &&& (r matches Err(e) ==> e == ProtocolError::PayloadTooLarge)
        }),
{
    let pkg = ClientHelloPkg::new(
        base_info.client_class.as_str(),
        base_info.client_instance.as_str(),
        base_info.identity.as_str(),
        ClientHelloPkg::MSG_HELLO,
    );
    let frame = match BaseUp2pProtocol::client_hello_with_payload(pkg) {
        Ok(f) => f,
        Err(e) => {
            return Err(e);
        },
    };
    frame.encode_to_vec()
}

/// The datagram a lookup call sends: an endpoint request whose body is the
/// global id of the peer `req` describes. Fails exactly when a field does
/// not fit.
pub fn build_request_datagram(base_info: &BasePkg, req: &RequestInfo) -> (r: Result<
    Vec<u8>,
    ProtocolError,
>)
    ensures
        ({
            let q = ClientRequestPkgView {
                baseinfo: base_info@,
                request_type: ClientRequestPkg::REQUEST_ENDPOINT,
                request_id: 0,
                request_payload: vstd::utf8::encode_utf8(
                    spec_global_id(req.client_class@, req.client_instance@),
                ),
            };
            &&& (r is Ok) == (encodable_request(q) && frame_encodable(spec_encode_request(q)))
            &&& (r matches Ok(v) ==> v@ == spec_encode_frame(
                BaseUp2pProtocol::TYPE_REQUEST,
                spec_encode_request(q),
            ))
            &&& (r matches Err(e) ==> e == ProtocolError::PayloadTooLarge)
        }),
{
    let target_gid = get_global_id(req.client_class.as_str(), req.client_instance.as_str());
    let pkg = ClientRequestPkg::create_endpoint_request(
        base_info.client_class.as_str(),
        base_info.client_instance.as_str(),
        base_info.identity.as_str(),
        target_gid.as_str(),
    );
    let frame = match BaseUp2pProtocol::request_with_payload(pkg) {
        Ok(f) => f,
        Err(e) => {
            return Err(e);
        },
    };
    frame.encode_to_vec()
}

/// The datagram an exchange send emits: the source identity, the opaque
/// payload and the target, framed. Fails exactly when the fields do not fit
/// the frame ceiling.
pub fn build_exchange_datagram(
    base_info: &BasePkg,
    payload: Vec<u8>,
    target: Option<BasePkg>,
) -> (r: Result<Vec<u8>, ProtocolError>)
    ensures
        ({
            let x = PeerExchangePkgView {
                base_info: base_info@,
                payload: payload@,
                target: match target {
                    Some(t) => Some(t@),
                    None => None,
                },
            };
            &&& (r is Ok) == (encodable_exchange(x) && frame_encodable(spec_encode_exchange(x)))
            &&& (r matches Ok(v) ==> v@ == spec_encode_frame(
                BaseUp2pProtocol::TYPE_PKG_EXCHANGE,
                spec_encode_exchange(x),
            ))
            &&& (r matches Err(e) ==> e == ProtocolError::PayloadTooLarge)
        }),
{
    let pkg = PeerExchangePkg::new(base_info.clone(), payload, target);
    let frame = match BaseUp2pProtocol::pakge_exchange_with_payload(pkg) {
        Ok(f) => f,
        Err(e) => {
            return Err(e);
        },
    };
    frame.encode_to_vec()
}

/// Reads the address out of the reply a lookup call was woken with: the
/// address exactly when the event is a request acknowledgement, nothing for
/// any other event.
pub fn request_ack_endpoint(event: &ClientEvent) -> (r: Option<String>)
    ensures
        (r is Some) == (event@ matches ClientEventView::RequestAck { .. }),
        r matches Some(s) ==> event@ == (ClientEventView::RequestAck { endpoint_address: s@ }),
{
    match event {
        ClientEvent::RequestAck(e) => Some(e.get_result_endpoint_address()),
        _ => None,
    }
}

} // verus!
