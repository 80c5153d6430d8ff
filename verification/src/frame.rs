//! The outer frame every datagram carries.
//!
//! Wire layout, in network byte order: one byte of content length, one byte
//! of package type, then exactly that many content bytes. The length byte is
//! validated on decode: a datagram whose size disagrees with its embedded
//! length is rejected. Because the length is a single byte, no payload larger
//! than 255 bytes can be framed, whatever the receive buffer holds; every
//! framing constructor reports `PayloadTooLarge` instead of truncating.

use vstd::prelude::*;
use vstd::slice::{slice_subrange, slice_to_vec};

use crate::codec::BinCodec;
use crate::pkg::{
    encodable_exchange, encodable_hello, encodable_request, encodable_request_ack,
    spec_encode_exchange, spec_encode_hello, spec_encode_request, spec_encode_request_ack,
    ClientHelloPkg, ClientRequestAckPkg, ClientRequestPkg, PeerExchangePkg,
};
use crate::ProtocolError;

verus! {

/// Whether `t` is one of the seven package type discriminants.
pub open spec fn frame_type_known(t: u8) -> bool {
    1 <= t <= 7
}

/// Content fits a frame when its length fits the single length byte.
pub open spec fn frame_encodable(c: Seq<u8>) -> bool {
    c.len() <= 255
}

/// A frame on the wire: length byte, type byte, content.
pub open spec fn spec_encode_frame(t: u8, c: Seq<u8>) -> Seq<u8> {
    seq![(c.len() % 256) as u8, t] + c
}

/// Frame decoding: accepts exactly the datagrams whose length byte agrees
/// with their size and whose type discriminant is known.
pub open spec fn spec_decode_frame(b: Seq<u8>) -> Option<(u8, Seq<u8>)> {
    if b.len() >= 2 && frame_type_known(b[1]) && b.len() == 2 + b[0] as int {
        Some((b[1], b.subrange(2, b.len() as int)))
    } else {
        None
    }
}

/// Round trip: decoding an encoded frame gives type and content back.
pub proof fn lemma_frame_roundtrip(t: u8, c: Seq<u8>)
    requires
        frame_type_known(t),
        frame_encodable(c),
    ensures
        spec_decode_frame(spec_encode_frame(t, c)) == Some((t, c)),
{
    let b = spec_encode_frame(t, c);
    assert(b.subrange(2, b.len() as int) =~= c);
}

/// Canonicity: whatever decodes to a frame is exactly that frame's encoding.
pub proof fn lemma_frame_canonical(b: Seq<u8>, t: u8, c: Seq<u8>)
    requires
        spec_decode_frame(b) == Some((t, c)),
    ensures
        frame_type_known(t),
        frame_encodable(c),
        spec_encode_frame(t, c) == b,
{
    assert(b =~= seq![b[0], b[1]] + b.subrange(2, b.len() as int));
}

/// The outer protocol envelope: a typed, length-prefixed content.
pub struct BaseUp2pProtocol {
    content_len: u8,
    package_type: u8,
    content: Vec<u8>,
}

/// Mathematical view of [`BaseUp2pProtocol`]. The length byte is redundant
/// with the content and does not appear here.
#[verifier::ext_equal]
pub ghost struct BaseUp2pProtocolView {
    pub package_type: u8,
    pub content: Seq<u8>,
}

impl View for BaseUp2pProtocol {
    type V = BaseUp2pProtocolView;

    closed spec fn view(&self) -> BaseUp2pProtocolView {
        BaseUp2pProtocolView { package_type: self.package_type, content: self.content@ }
    }
}

impl BaseUp2pProtocol {
    pub const TYPE_HELLO: u8 = 0x01;

    pub const TYPE_HELLO_ACK: u8 = 0x02;

    pub const TYPE_DATA: u8 = 0x03;

    pub const TYPE_DATA_ACK: u8 = 0x04;

    pub const TYPE_REQUEST: u8 = 0x05;

    pub const TYPE_REQUEST_ACK: u8 = 0x06;

    pub const TYPE_PKG_EXCHANGE: u8 = 0x07;

    /// Every frame value is internally consistent: its length byte equals its
    /// content length, the content fits a frame, and its type is known.
    #[verifier::type_invariant]
    closed spec fn wf(self) -> bool {
        self.content_len as int == self.content@.len() && frame_encodable(self.content@)
            && frame_type_known(self.package_type)
    }

    /// Frames `content` under the given known package type; fails exactly
    /// when the content exceeds the 255-byte ceiling.
    fn with_content(package_type: u8, content: Vec<u8>) -> (r: Result<Self, ProtocolError>)
        requires
            frame_type_known(package_type),
        ensures
            (r is Ok) == frame_encodable(content@),
            r matches Ok(f) ==> f@ == (BaseUp2pProtocolView { package_type, content: content@ }),
            r matches Err(e) ==> e == ProtocolError::PayloadTooLarge,
    {
        if content.len() > 255 {
            return Err(ProtocolError::PayloadTooLarge);
        }
        Ok(BaseUp2pProtocol { content_len: content.len() as u8, package_type, content })
    }

    /// Frames a hello payload; fails exactly when a field is too long or the
    /// serialized payload exceeds the frame ceiling.
    pub fn client_hello_with_payload(payload: ClientHelloPkg) -> (r: Result<
        Self,
        ProtocolError,
    >)
        ensures
            (r is Ok) == (encodable_hello(payload@) && frame_encodable(
                spec_encode_hello(payload@),
            )),
            r matches Ok(f) ==> f@ == (BaseUp2pProtocolView {
                package_type: Self::TYPE_HELLO,
                content: spec_encode_hello(payload@),
            }),
            r matches Err(e) ==> e == ProtocolError::PayloadTooLarge,
    {
        let content = match payload.encode_to_vec() {
            Ok(c) => c,
            Err(_) => {
                return Err(ProtocolError::PayloadTooLarge);
            },
        };
        Self::with_content(Self::TYPE_HELLO, content)
    }

    /// Frames a request payload; fails exactly when a field is too long or
    /// the serialized payload exceeds the frame ceiling.
    pub fn request_with_payload(payload: ClientRequestPkg) -> (r: Result<Self, ProtocolError>)
        ensures
            (r is Ok) == (encodable_request(payload@) && frame_encodable(
                spec_encode_request(payload@),
            )),
            r matches Ok(f) ==> f@ == (BaseUp2pProtocolView {
                package_type: Self::TYPE_REQUEST,
                content: spec_encode_request(payload@),
            }),
            r matches Err(e) ==> e == ProtocolError::PayloadTooLarge,
    {
        let content = match payload.encode_to_vec() {
            Ok(c) => c,
            Err(_) => {
                return Err(ProtocolError::PayloadTooLarge);
            },
        };
        Self::with_content(Self::TYPE_REQUEST, content)
    }

    /// Frames a request acknowledgement; fails exactly when the address is
    /// too long or the serialized payload exceeds the frame ceiling.
    pub fn response_with_payload(payload: ClientRequestAckPkg) -> (r: Result<
        Self,
        ProtocolError,
    >)
        ensures
            (r is Ok) == (encodable_request_ack(payload@) && frame_encodable(
                spec_encode_request_ack(payload@),
            )),
            r matches Ok(f) ==> f@ == (BaseUp2pProtocolView {
                package_type: Self::TYPE_REQUEST_ACK,
                content: spec_encode_request_ack(payload@),
            }),
            r matches Err(e) ==> e == ProtocolError::PayloadTooLarge,
    {
        let content = match payload.encode_to_vec() {
            Ok(c) => c,
            Err(_) => {
                return Err(ProtocolError::PayloadTooLarge);
            },
        };
        Self::with_content(Self::TYPE_REQUEST_ACK, content)
    }

    /// The hello acknowledgement frame: empty content.
    pub fn hello_ack_with_payload() -> (r: Result<Self, ProtocolError>)
        ensures
            r matches Ok(f) && f@ == (BaseUp2pProtocolView {
                package_type: Self::TYPE_HELLO_ACK,
                content: Seq::<u8>::empty(),
            }),
    {
        let content: Vec<u8> = Vec::new();
        Self::with_content(Self::TYPE_HELLO_ACK, content)
    }

    /// Frames an exchange payload; fails exactly when a field is too long or
    /// the serialized payload exceeds the frame ceiling.
    pub fn pakge_exchange_with_payload(payload: PeerExchangePkg) -> (r: Result<
        Self,
        ProtocolError,
    >)
        ensures
            (r is Ok) == (encodable_exchange(payload@) && frame_encodable(
                spec_encode_exchange(payload@),
            )),
            r matches Ok(f) ==> f@ == (BaseUp2pProtocolView {
                package_type: Self::TYPE_PKG_EXCHANGE,
                content: spec_encode_exchange(payload@),
            }),
            r matches Err(e) ==> e == ProtocolError::PayloadTooLarge,
    {
        let content = match payload.encode_to_vec() {
            Ok(c) => c,
            Err(_) => {
                return Err(ProtocolError::PayloadTooLarge);
            },
        };
        Self::with_content(Self::TYPE_PKG_EXCHANGE, content)
    }

    pub fn get_pkg_type(&self) -> (r: u8)
        ensures
            r == self@.package_type,
    {
        self.package_type
    }

    pub fn get_payload(&self) -> (r: &[u8])
        ensures
            r@ == self@.content,
    {
        self.content.as_slice()
    }

    /// Serializes this frame to wire bytes; never fails, since every frame
    /// value respects the 255-byte ceiling.
    pub fn encode_to_vec(&self) -> (r: Result<Vec<u8>, ProtocolError>)
        ensures
            r matches Ok(v) && v@ == spec_encode_frame(self@.package_type, self@.content),
    {
        proof {
            use_type_invariant(self);
        }
        let mut out: Vec<u8> = Vec::new();
        out.push(self.content.len() as u8);
        out.push(self.package_type);
        let mut tail = slice_to_vec(self.content.as_slice());
        out.append(&mut tail);
        proof {
            assert(out@ =~= spec_encode_frame(self@.package_type, self@.content));
        }
        Ok(out)
    }

    /// Deserializes wire bytes; accepts exactly the frame encodings.
    pub fn decode_from(data: &[u8]) -> (r: Result<Self, ProtocolError>)
        ensures
            (r is Ok) == (spec_decode_frame(data@) is Some),
            r matches Ok(f) ==> spec_decode_frame(data@) == Some((f@.package_type, f@.content)),
            r matches Err(e) ==> e == ProtocolError::Decode,
    {
        if data.len() < 2 {
            return Err(ProtocolError::Decode);
        }
        let n = data[0];
        let t = data[1];
        if t < 1 || t > 7 {
            return Err(ProtocolError::Decode);
        }
        if data.len() - 2 != n as usize {
            return Err(ProtocolError::Decode);
        }
        let content = slice_to_vec(slice_subrange(data, 2, data.len()));
        Ok(BaseUp2pProtocol { content_len: n, package_type: t, content })
    }
}

impl Default for BaseUp2pProtocol {
    /// The default frame: an empty hello.
    fn default() -> (r: Self)
        ensures
            r@ == (BaseUp2pProtocolView {
                package_type: BaseUp2pProtocol::TYPE_HELLO,
                content: Seq::<u8>::empty(),
            }),
    {
        BaseUp2pProtocol {
            content_len: 0,
            package_type: BaseUp2pProtocol::TYPE_HELLO,
            content: Vec::new(),
        }
    }
}

} // verus!
