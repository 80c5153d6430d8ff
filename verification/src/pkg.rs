//! Typed payloads carried inside frames, and the identity traits over them.
//!
//! Every payload type has a mathematical view, a specification-level encoding
//! and reader built from the wire primitives in [`crate::codec`], and
//! executable `encode_to_vec` / `decode_from` that match them exactly.
//! Decoding accepts exactly the encodings: a payload with trailing bytes, a
//! bad length, or a non-UTF-8 string field is rejected.

use vstd::prelude::*;
use vstd::slice::slice_to_vec;
use vstd::utf8::{decode_utf8, encode_utf8, valid_utf8};

use crate::codec::{
    encodable_bytes, encodable_str, BinCodec, lemma_read_bytes_inv, lemma_read_bytes_of, lemma_read_str_inv,
    lemma_read_str_of, lemma_read_u8_of, read_bytes, read_str, read_u8, spec_encode_bytes,
    spec_encode_str, spec_read_bytes, spec_read_str, spec_read_u8, string_from_utf8, write_bytes,
    write_str, write_u8,
};
use crate::util::{get_global_id, spec_global_id, str_eq};
use crate::ProtocolError;

verus! {

// ---------------------------------------------------------------------------
// Base identity information shared by several payloads.
// ---------------------------------------------------------------------------

/// The identity information a client presents: its class, its instance name,
/// and the shared identity token.
#[derive(Debug)]
pub struct BasePkg {
    pub client_class: String,
    pub client_instance: String,
    pub identity: String,
}

/// Mathematical view of [`BasePkg`].
#[verifier::ext_equal]
pub ghost struct BasePkgView {
    pub client_class: Seq<char>,
    pub client_instance: Seq<char>,
    pub identity: Seq<char>,
}

impl View for BasePkg {
    type V = BasePkgView;

    open spec fn view(&self) -> BasePkgView {
        BasePkgView {
            client_class: self.client_class@,
            client_instance: self.client_instance@,
            identity: self.identity@,
        }
    }
}

impl BasePkgView {
    /// The registry key this identity registers under.
    pub open spec fn global_id(self) -> Seq<char> {
        spec_global_id(self.client_class, self.client_instance)
    }
}

/// Two identities are equal when class and instance agree; the identity
/// token is deliberately excluded from equality.
impl PartialEq for BasePkg {
    fn eq(&self, other: &Self) -> (r: bool) {
        self.client_class == other.client_class && self.client_instance == other.client_instance
    }
}

impl vstd::std_specs::cmp::PartialEqSpecImpl for BasePkg {
    open spec fn obeys_eq_spec() -> bool {
        true
    }

    open spec fn eq_spec(&self, other: &Self) -> bool {
        self.client_class@ == other.client_class@ && self.client_instance@
            == other.client_instance@
    }
}

impl Clone for BasePkg {
    fn clone(&self) -> (r: Self)
        ensures
            r@ == self@,
    {
        BasePkg {
            client_class: self.client_class.clone(),
            client_instance: self.client_instance.clone(),
            identity: self.identity.clone(),
        }
    }
}

pub open spec fn encodable_base(v: BasePkgView) -> bool {
    encodable_str(v.client_class) && encodable_str(v.client_instance) && encodable_str(v.identity)
}

pub open spec fn spec_encode_base(v: BasePkgView) -> Seq<u8> {
    spec_encode_str(v.client_class) + spec_encode_str(v.client_instance) + spec_encode_str(
        v.identity,
    )
}

pub open spec fn spec_read_base(b: Seq<u8>, i: int) -> Option<(BasePkgView, int)> {
    match spec_read_str(b, i) {
        Some((cc, j1)) => match spec_read_str(b, j1) {
            Some((ci, j2)) => match spec_read_str(b, j2) {
                Some((id, j3)) => Some(
                    (BasePkgView { client_class: cc, client_instance: ci, identity: id }, j3),
                ),
                None => None,
            },
            None => None,
        },
        None => None,
    }
}

pub proof fn lemma_read_base_of(pre: Seq<u8>, v: BasePkgView, suf: Seq<u8>)
    requires
        encodable_base(v),
    ensures
        spec_read_base(pre + spec_encode_base(v) + suf, pre.len() as int) == Some((
            v,
            pre.len() as int + spec_encode_base(v).len(),
        )),
{
    let e1 = spec_encode_str(v.client_class);
    let e2 = spec_encode_str(v.client_instance);
    let e3 = spec_encode_str(v.identity);
    let b = pre + spec_encode_base(v) + suf;
    let i = pre.len() as int;
    let j1 = i + e1.len();
    let j2 = j1 + e2.len();
    let j3 = j2 + e3.len();
    assert(b =~= pre + e1 + (e2 + e3 + suf));
    lemma_read_str_of(pre, v.client_class, e2 + e3 + suf);
    assert(spec_read_str(b, i) == Some((v.client_class, j1)));
    assert(b =~= (pre + e1) + e2 + (e3 + suf));
    lemma_read_str_of(pre + e1, v.client_instance, e3 + suf);
    assert(spec_read_str(b, j1) == Some((v.client_instance, j2)));
    assert(b =~= (pre + e1 + e2) + e3 + suf);
    lemma_read_str_of(pre + e1 + e2, v.identity, suf);
    assert(spec_read_str(b, j2) == Some((v.identity, j3)));
    assert(spec_read_base(b, i) == Some((v, j3)));
}

pub proof fn lemma_read_base_inv(b: Seq<u8>, i: int, v: BasePkgView, j: int)
    requires
        spec_read_base(b, i) == Some((v, j)),
    ensures
        encodable_base(v),
        0 <= i <= j <= b.len(),
        j == i + spec_encode_base(v).len(),
        b.subrange(i, j) == spec_encode_base(v),
{
    let (cc, j1) = spec_read_str(b, i)->0;
    let (ci, j2) = spec_read_str(b, j1)->0;
    let (id, j3) = spec_read_str(b, j2)->0;
    lemma_read_str_inv(b, i, cc, j1);
    lemma_read_str_inv(b, j1, ci, j2);
    lemma_read_str_inv(b, j2, id, j3);
    assert(b.subrange(i, j) =~= b.subrange(i, j1) + b.subrange(j1, j2) + b.subrange(j2, j3));
}

/// Appends the encoding of `p`; requires that every field fits its prefix.
pub fn write_base(out: &mut Vec<u8>, p: &BasePkg)
    requires
        encodable_base(p@),
    ensures
        final(out)@ == old(out)@ + spec_encode_base(p@),
{
    let ok1 = write_str(out, p.client_class.as_str());
    let ok2 = write_str(out, p.client_instance.as_str());
    let ok3 = write_str(out, p.identity.as_str());
    proof {
        assert(ok1 && ok2 && ok3);
        assert(out@ =~= old(out)@ + spec_encode_base(p@));
    }
}

/// Whether every field of `p` fits its 16-bit length prefix.
pub fn base_encodable(p: &BasePkg) -> (r: bool)
    ensures
        r == encodable_base(p@),
{
    p.client_class.as_str().as_bytes().len() <= 65535
        && p.client_instance.as_str().as_bytes().len() <= 65535
        && p.identity.as_str().as_bytes().len() <= 65535
}

/// Reads one encoded [`BasePkg`] starting at `pos`.
pub fn read_base(b: &[u8], pos: usize) -> (r: Option<(BasePkg, usize)>)
    requires
        pos <= b@.len(),
    ensures
        (r is Some) == (spec_read_base(b@, pos as int) is Some),
        r matches Some(p) ==> spec_read_base(b@, pos as int) == Some((p.0@, p.1 as int)),
{
    let (cc, j1) = match read_str(b, pos) {
        Some(x) => x,
        None => {
            return None;
        },
    };
    proof {
        lemma_read_str_inv(b@, pos as int, cc@, j1 as int);
    }
    let (ci, j2) = match read_str(b, j1) {
        Some(x) => x,
        None => {
            return None;
        },
    };
    proof {
        lemma_read_str_inv(b@, j1 as int, ci@, j2 as int);
    }
    let (id, j3) = match read_str(b, j2) {
        Some(x) => x,
        None => {
            return None;
        },
    };
    Some((BasePkg { client_class: cc, client_instance: ci, identity: id }, j3))
}

// ---------------------------------------------------------------------------
// Client hello payload.
// ---------------------------------------------------------------------------

/// A client's registration message: its identity and a message kind.
pub struct ClientHelloPkg {
    baseinfo: BasePkg,
    msg: u8,
}

/// Mathematical view of [`ClientHelloPkg`].
#[verifier::ext_equal]
pub ghost struct ClientHelloPkgView {
    pub baseinfo: BasePkgView,
    pub msg: u8,
}

impl View for ClientHelloPkg {
    type V = ClientHelloPkgView;

    closed spec fn view(&self) -> ClientHelloPkgView {
        ClientHelloPkgView { baseinfo: self.baseinfo@, msg: self.msg }
    }
}

pub open spec fn encodable_hello(v: ClientHelloPkgView) -> bool {
    encodable_base(v.baseinfo)
}

pub open spec fn spec_encode_hello(v: ClientHelloPkgView) -> Seq<u8> {
    spec_encode_base(v.baseinfo) + seq![v.msg]
}

pub open spec fn spec_read_hello(b: Seq<u8>, i: int) -> Option<(ClientHelloPkgView, int)> {
    match spec_read_base(b, i) {
        Some((base, j)) => match spec_read_u8(b, j) {
            Some((m, k)) => Some((ClientHelloPkgView { baseinfo: base, msg: m }, k)),
            None => None,
        },
        None => None,
    }
}

pub open spec fn spec_decode_hello(b: Seq<u8>) -> Option<ClientHelloPkgView> {
    match spec_read_hello(b, 0) {
        Some((v, j)) => if j == b.len() {
            Some(v)
        } else {
            None
        },
        None => None,
    }
}

impl ClientHelloPkg {
    pub const MSG_HELLO: u8 = 0x01;

    pub const MSG_HEARTBEAT: u8 = 0x02;

    pub const MSG_LOGOUT: u8 = 0x03;

    pub const MSG_UPDATE: u8 = 0x04;

    pub fn new(client_class: &str, client_instance: &str, identity: &str, msg: u8) -> (r: Self)
        ensures
            r@ == (ClientHelloPkgView {
                baseinfo: BasePkgView {
                    client_class: client_class@,
                    client_instance: client_instance@,
                    identity: identity@,
                },
                msg,
            }),
    {
        ClientHelloPkg {
            baseinfo: BasePkg {
                client_class: client_class.to_owned(),
                client_instance: client_instance.to_owned(),
                identity: identity.to_owned(),
            },
            msg,
        }
    }

    pub fn get_msg(&self) -> (r: u8)
        ensures
            r == self@.msg,
    {
        self.msg
    }

    pub fn get_identity(&self) -> (r: String)
        ensures
            r@ == self@.baseinfo.identity,
    {
        self.baseinfo.identity.clone()
    }
}

impl BinCodec for ClientHelloPkg {
    open spec fn bin_encodable(v: ClientHelloPkgView) -> bool {
        encodable_hello(v)
    }

    open spec fn spec_bin_encode(v: ClientHelloPkgView) -> Seq<u8> {
        spec_encode_hello(v)
    }

    open spec fn spec_bin_decode(b: Seq<u8>) -> Option<ClientHelloPkgView> {
        spec_decode_hello(b)
    }

    fn encode_to_vec(&self) -> (r: Result<Vec<u8>, ProtocolError>) {
        if !base_encodable(&self.baseinfo) {
            return Err(ProtocolError::FieldTooLong);
        }
        let mut out: Vec<u8> = Vec::new();
        write_base(&mut out, &self.baseinfo);
        write_u8(&mut out, self.msg);
        proof {
            assert(out@ =~= spec_encode_hello(self@));
        }
        Ok(out)
    }

    fn decode_from(data: &[u8]) -> (r: Result<Self, ProtocolError>) {
        let (base, j1) = match read_base(data, 0) {
            Some(x) => x,
            None => {
                return Err(ProtocolError::Decode);
            },
        };
        proof {
            lemma_read_base_inv(data@, 0, base@, j1 as int);
        }
        let (msg, j2) = match read_u8(data, j1) {
            Some(x) => x,
            None => {
                return Err(ProtocolError::Decode);
            },
        };
        if j2 == data.len() {
            Ok(ClientHelloPkg { baseinfo: base, msg })
        } else {
            Err(ProtocolError::Decode)
        }
    }
}

/// Round trip: decoding an encoded hello payload gives the payload back.
pub proof fn lemma_hello_roundtrip(v: ClientHelloPkgView)
    requires
        encodable_hello(v),
    ensures
        spec_decode_hello(spec_encode_hello(v)) == Some(v),
{
    let e = spec_encode_hello(v);
    let eb = spec_encode_base(v.baseinfo);
    assert(e =~= Seq::<u8>::empty() + eb + seq![v.msg]);
    lemma_read_base_of(Seq::<u8>::empty(), v.baseinfo, seq![v.msg]);
    assert(e =~= eb + seq![v.msg] + Seq::<u8>::empty());
    lemma_read_u8_of(eb, v.msg, Seq::<u8>::empty());
}

/// Canonicity: whatever decodes to a hello payload is exactly its encoding.
pub proof fn lemma_hello_canonical(b: Seq<u8>, v: ClientHelloPkgView)
    requires
        spec_decode_hello(b) == Some(v),
    ensures
        encodable_hello(v),
        spec_encode_hello(v) == b,
{
    let (base, j) = spec_read_base(b, 0)->0;
    lemma_read_base_inv(b, 0, base, j);
    assert(b =~= b.subrange(0, j) + seq![b[j]]);
}

// ---------------------------------------------------------------------------
// Client request payload.
// ---------------------------------------------------------------------------

/// A client's request: identity, a request kind, a correlation byte, and an
/// opaque request body (a UTF-8 global id for endpoint requests).
pub struct ClientRequestPkg {
    baseinfo: BasePkg,
    request_type: u8,
    request_id: u8,
    request_payload: Vec<u8>,
}

/// Mathematical view of [`ClientRequestPkg`].
#[verifier::ext_equal]
pub ghost struct ClientRequestPkgView {
    pub baseinfo: BasePkgView,
    pub request_type: u8,
    pub request_id: u8,
    pub request_payload: Seq<u8>,
}

impl View for ClientRequestPkg {
    type V = ClientRequestPkgView;

    closed spec fn view(&self) -> ClientRequestPkgView {
        ClientRequestPkgView {
            baseinfo: self.baseinfo@,
            request_type: self.request_type,
            request_id: self.request_id,
            request_payload: self.request_payload@,
        }
    }
}

pub open spec fn encodable_request(v: ClientRequestPkgView) -> bool {
    encodable_base(v.baseinfo) && encodable_bytes(v.request_payload)
}

pub open spec fn spec_encode_request(v: ClientRequestPkgView) -> Seq<u8> {
    spec_encode_base(v.baseinfo) + seq![v.request_type, v.request_id] + spec_encode_bytes(
        v.request_payload,
    )
}

pub open spec fn spec_read_request(b: Seq<u8>, i: int) -> Option<(ClientRequestPkgView, int)> {
    match spec_read_base(b, i) {
        Some((base, j1)) => match spec_read_u8(b, j1) {
            Some((rt, j2)) => match spec_read_u8(b, j2) {
                Some((rid, j3)) => match spec_read_bytes(b, j3) {
                    Some((p, j4)) => Some(
                        (
                            ClientRequestPkgView {
                                baseinfo: base,
                                request_type: rt,
                                request_id: rid,
                                request_payload: p,
                            },
                            j4,
                        ),
                    ),
                    None => None,
                },
                None => None,
            },
            None => None,
        },
        None => None,
    }
}

pub open spec fn spec_decode_request(b: Seq<u8>) -> Option<ClientRequestPkgView> {
    match spec_read_request(b, 0) {
        Some((v, j)) => if j == b.len() {
            Some(v)
        } else {
            None
        },
        None => None,
    }
}

impl ClientRequestPkg {
    pub const REQUEST_ENDPOINT: u8 = 0x01;

    pub const REQUEST_STATUS: u8 = 0x02;

    /// Builds an endpoint request whose body is the UTF-8 form of `payload`,
    /// the global id being looked up.
    pub fn create_endpoint_request(
        client_class: &str,
        client_instance: &str,
        identity: &str,
        payload: &str,
    ) -> (r: Self)
        ensures
            r@ == (ClientRequestPkgView {
                baseinfo: BasePkgView {
                    client_class: client_class@,
                    client_instance: client_instance@,
                    identity: identity@,
                },
                request_type: Self::REQUEST_ENDPOINT,
                request_id: 0,
                request_payload: encode_utf8(payload@),
            }),
    {
        ClientRequestPkg {
            baseinfo: BasePkg {
                client_class: client_class.to_owned(),
                client_instance: client_instance.to_owned(),
                identity: identity.to_owned(),
            },
            request_type: Self::REQUEST_ENDPOINT,
            request_id: 0,
            request_payload: slice_to_vec(payload.as_bytes()),
        }
    }

    pub fn get_request_type(&self) -> (r: u8)
        ensures
            r == self@.request_type,
    {
        self.request_type
    }

    /// Interprets the request body as a UTF-8 global id; fails exactly when
    /// the body is not valid UTF-8.
    pub fn get_payload_as_global_id(&self) -> (r: Result<String, ProtocolError>)
        ensures
            (r is Ok) == valid_utf8(self@.request_payload),
            r matches Ok(s) ==> s@ == decode_utf8(self@.request_payload),
            r matches Err(e) ==> e == ProtocolError::Decode,
    {
        match string_from_utf8(slice_to_vec(self.request_payload.as_slice())) {
            Some(s) => Ok(s),
            None => Err(ProtocolError::Decode),
        }
    }

    pub fn get_identity(&self) -> (r: String)
        ensures
            r@ == self@.baseinfo.identity,
    {
        self.baseinfo.identity.clone()
    }
}

impl BinCodec for ClientRequestPkg {
    open spec fn bin_encodable(v: ClientRequestPkgView) -> bool {
        encodable_request(v)
    }

    open spec fn spec_bin_encode(v: ClientRequestPkgView) -> Seq<u8> {
        spec_encode_request(v)
    }

    open spec fn spec_bin_decode(b: Seq<u8>) -> Option<ClientRequestPkgView> {
        spec_decode_request(b)
    }

    fn encode_to_vec(&self) -> (r: Result<Vec<u8>, ProtocolError>) {
        if !base_encodable(&self.baseinfo) || self.request_payload.len() > 65535 {
            return Err(ProtocolError::FieldTooLong);
        }
        let mut out: Vec<u8> = Vec::new();
        write_base(&mut out, &self.baseinfo);
        write_u8(&mut out, self.request_type);
        write_u8(&mut out, self.request_id);
        let ok = write_bytes(&mut out, self.request_payload.as_slice());
        proof {
            assert(ok);
            assert(out@ =~= spec_encode_request(self@));
        }
        Ok(out)
    }

    fn decode_from(data: &[u8]) -> (r: Result<Self, ProtocolError>) {
        let (base, j1) = match read_base(data, 0) {
            Some(x) => x,
            None => {
                return Err(ProtocolError::Decode);
            },
        };
        proof {
            lemma_read_base_inv(data@, 0, base@, j1 as int);
        }
        let (rt, j2) = match read_u8(data, j1) {
            Some(x) => x,
            None => {
                return Err(ProtocolError::Decode);
            },
        };
        let (rid, j3) = match read_u8(data, j2) {
            Some(x) => x,
            None => {
                return Err(ProtocolError::Decode);
            },
        };
        let (p, j4) = match read_bytes(data, j3) {
            Some(x) => x,
            None => {
                return Err(ProtocolError::Decode);
            },
        };
        if j4 == data.len() {
            Ok(
                ClientRequestPkg {
                    baseinfo: base,
                    request_type: rt,
                    request_id: rid,
                    request_payload: p,
                },
            )
        } else {
            Err(ProtocolError::Decode)
        }
    }
}

/// Round trip: decoding an encoded request payload gives the payload back.
pub proof fn lemma_request_roundtrip(v: ClientRequestPkgView)
    requires
        encodable_request(v),
    ensures
        spec_decode_request(spec_encode_request(v)) == Some(v),
{
    let e = spec_encode_request(v);
    let eb = spec_encode_base(v.baseinfo);
    let ep = spec_encode_bytes(v.request_payload);
    assert(e =~= Seq::<u8>::empty() + eb + (seq![v.request_type, v.request_id] + ep));
    lemma_read_base_of(Seq::<u8>::empty(), v.baseinfo, seq![v.request_type, v.request_id] + ep);
    assert(e =~= eb + seq![v.request_type] + (seq![v.request_id] + ep));
    lemma_read_u8_of(eb, v.request_type, seq![v.request_id] + ep);
    assert(e =~= (eb + seq![v.request_type]) + seq![v.request_id] + ep);
    lemma_read_u8_of(eb + seq![v.request_type], v.request_id, ep);
    assert(e =~= (eb + seq![v.request_type, v.request_id]) + ep + Seq::<u8>::empty());
    lemma_read_bytes_of(eb + seq![v.request_type, v.request_id], v.request_payload, Seq::<u8>::empty());
}

/// Canonicity: whatever decodes to a request payload is exactly its encoding.
pub proof fn lemma_request_canonical(b: Seq<u8>, v: ClientRequestPkgView)
    requires
        spec_decode_request(b) == Some(v),
    ensures
        encodable_request(v),
        spec_encode_request(v) == b,
{
    let (base, j1) = spec_read_base(b, 0)->0;
    let (rt, j2) = spec_read_u8(b, j1)->0;
    let (rid, j3) = spec_read_u8(b, j2)->0;
    let (p, j4) = spec_read_bytes(b, j3)->0;
    lemma_read_base_inv(b, 0, base, j1);
    lemma_read_bytes_inv(b, j3, p, j4);
    assert(b =~= b.subrange(0, j1) + seq![b[j1], b[j2]] + b.subrange(j3, j4));
}

// ---------------------------------------------------------------------------
// Request acknowledgement payload.
// ---------------------------------------------------------------------------

/// The server's answer to an endpoint request: the textual `ip:port` address
/// the requested global id last registered from.
pub struct ClientRequestAckPkg {
    endpoint_address: String,
}

/// Mathematical view of [`ClientRequestAckPkg`].
#[verifier::ext_equal]
pub ghost struct ClientRequestAckPkgView {
    pub endpoint_address: Seq<char>,
}

impl View for ClientRequestAckPkg {
    type V = ClientRequestAckPkgView;

    closed spec fn view(&self) -> ClientRequestAckPkgView {
        ClientRequestAckPkgView { endpoint_address: self.endpoint_address@ }
    }
}

pub open spec fn encodable_request_ack(v: ClientRequestAckPkgView) -> bool {
    encodable_str(v.endpoint_address)
}

pub open spec fn spec_encode_request_ack(v: ClientRequestAckPkgView) -> Seq<u8> {
    spec_encode_str(v.endpoint_address)
}

pub open spec fn spec_decode_request_ack(b: Seq<u8>) -> Option<ClientRequestAckPkgView> {
    match spec_read_str(b, 0) {
        Some((s, j)) => if j == b.len() {
            Some(ClientRequestAckPkgView { endpoint_address: s })
        } else {
            None
        },
        None => None,
    }
}

impl ClientRequestAckPkg {
    pub fn new(endpoint_address: String) -> (r: Self)
        ensures
            r@ == (ClientRequestAckPkgView { endpoint_address: endpoint_address@ }),
    {
        Self { endpoint_address }
    }

    pub fn get_endpoint_address(&self) -> (r: String)
        ensures
            r@ == self@.endpoint_address,
    {
        self.endpoint_address.clone()
    }
}

impl BinCodec for ClientRequestAckPkg {
    open spec fn bin_encodable(v: ClientRequestAckPkgView) -> bool {
        encodable_request_ack(v)
    }

    open spec fn spec_bin_encode(v: ClientRequestAckPkgView) -> Seq<u8> {
        spec_encode_request_ack(v)
    }

    open spec fn spec_bin_decode(b: Seq<u8>) -> Option<ClientRequestAckPkgView> {
        spec_decode_request_ack(b)
    }

    fn encode_to_vec(&self) -> (r: Result<Vec<u8>, ProtocolError>) {
        let mut out: Vec<u8> = Vec::new();
        if write_str(&mut out, self.endpoint_address.as_str()) {
            Ok(out)
        } else {
            Err(ProtocolError::FieldTooLong)
        }
    }

    fn decode_from(data: &[u8]) -> (r: Result<Self, ProtocolError>) {
        let (s, j) = match read_str(data, 0) {
            Some(x) => x,
            None => {
                return Err(ProtocolError::Decode);
            },
        };
        if j == data.len() {
            Ok(ClientRequestAckPkg { endpoint_address: s })
        } else {
            Err(ProtocolError::Decode)
        }
    }
}

/// Round trip: decoding an encoded acknowledgement gives it back.
pub proof fn lemma_request_ack_roundtrip(v: ClientRequestAckPkgView)
    requires
        encodable_request_ack(v),
    ensures
        spec_decode_request_ack(spec_encode_request_ack(v)) == Some(v),
{
    let e = spec_encode_request_ack(v);
    assert(e =~= Seq::<u8>::empty() + e + Seq::<u8>::empty());
    lemma_read_str_of(Seq::<u8>::empty(), v.endpoint_address, Seq::<u8>::empty());
}

/// Canonicity: whatever decodes to an acknowledgement is exactly its encoding.
pub proof fn lemma_request_ack_canonical(b: Seq<u8>, v: ClientRequestAckPkgView)
    requires
        spec_decode_request_ack(b) == Some(v),
    ensures
        encodable_request_ack(v),
        spec_encode_request_ack(v) == b,
{
    let (s, j) = spec_read_str(b, 0)->0;
    lemma_read_str_inv(b, 0, s, j);
    assert(b =~= b.subrange(0, j));
}

// ---------------------------------------------------------------------------
// Peer exchange payload.
// ---------------------------------------------------------------------------

/// An opaque payload relayed from one client to another: the source identity,
/// the payload bytes, and the target identity the server must resolve. A
/// missing target makes the package undirected and the router drops it.
pub struct PeerExchangePkg {
    base_info: BasePkg,
    payload: Vec<u8>,
    target: Option<BasePkg>,
}

/// Mathematical view of [`PeerExchangePkg`].
#[verifier::ext_equal]
pub ghost struct PeerExchangePkgView {
    pub base_info: BasePkgView,
    pub payload: Seq<u8>,
    pub target: Option<BasePkgView>,
}

impl View for PeerExchangePkg {
    type V = PeerExchangePkgView;

    closed spec fn view(&self) -> PeerExchangePkgView {
        PeerExchangePkgView {
            base_info: self.base_info@,
            payload: self.payload@,
            target: match self.target {
                Some(t) => Some(t@),
                None => None,
            },
        }
    }
}

pub open spec fn encodable_exchange(v: PeerExchangePkgView) -> bool {
    encodable_base(v.base_info) && encodable_bytes(v.payload) && match v.target {
        Some(t) => encodable_base(t),
        None => true,
    }
}

pub open spec fn spec_encode_exchange(v: PeerExchangePkgView) -> Seq<u8> {
    spec_encode_base(v.base_info) + spec_encode_bytes(v.payload) + match v.target {
        Some(t) => seq![1u8] + spec_encode_base(t),
        None => seq![0u8],
    }
}

pub open spec fn spec_read_exchange(b: Seq<u8>, i: int) -> Option<(PeerExchangePkgView, int)> {
    match spec_read_base(b, i) {
        Some((base, j1)) => match spec_read_bytes(b, j1) {
            Some((p, j2)) => match spec_read_u8(b, j2) {
                Some((tag, j3)) => if tag == 0 {
                    Some(
                        (PeerExchangePkgView { base_info: base, payload: p, target: None }, j3),
                    )
                } else if tag == 1 {
                    match spec_read_base(b, j3) {
                        Some((t, j4)) => Some(
                            (
                                PeerExchangePkgView {
                                    base_info: base,
                                    payload: p,
                                    target: Some(t),
                                },
                                j4,
                            ),
                        ),
                        None => None,
                    }
                } else {
                    None
                },
                None => None,
            },
            None => None,
        },
        None => None,
    }
}

pub open spec fn spec_decode_exchange(b: Seq<u8>) -> Option<PeerExchangePkgView> {
    match spec_read_exchange(b, 0) {
        Some((v, j)) => if j == b.len() {
            Some(v)
        } else {
            None
        },
        None => None,
    }
}

impl PeerExchangePkg {
    pub fn new(base_info: BasePkg, payload: Vec<u8>, target: Option<BasePkg>) -> (r: Self)
        ensures
            r@ == (PeerExchangePkgView {
                base_info: base_info@,
                payload: payload@,
                target: match target {
                    Some(t) => Some(t@),
                    None => None,
                },
            }),
    {
        Self { base_info, payload, target }
    }

    pub fn get_payload(&self) -> (r: Vec<u8>)
        ensures
            r@ == self@.payload,
    {
        slice_to_vec(self.payload.as_slice())
    }

    pub fn get_target(&self) -> (r: Option<BasePkg>)
        ensures
            (r is Some) == (self@.target is Some),
            r matches Some(t) ==> self@.target == Some(t@),
    {
        match &self.target {
            Some(t) => Some(t.clone()),
            None => None,
        }
    }
}

impl BinCodec for PeerExchangePkg {
    open spec fn bin_encodable(v: PeerExchangePkgView) -> bool {
        encodable_exchange(v)
    }

    open spec fn spec_bin_encode(v: PeerExchangePkgView) -> Seq<u8> {
        spec_encode_exchange(v)
    }

    open spec fn spec_bin_decode(b: Seq<u8>) -> Option<PeerExchangePkgView> {
        spec_decode_exchange(b)
    }

    fn encode_to_vec(&self) -> (r: Result<Vec<u8>, ProtocolError>) {
        if !base_encodable(&self.base_info) || self.payload.len() > 65535 {
            return Err(ProtocolError::FieldTooLong);
        }
        let mut out: Vec<u8> = Vec::new();
        write_base(&mut out, &self.base_info);
        let ok = write_bytes(&mut out, self.payload.as_slice());
        proof {
            assert(ok);
        }
        match &self.target {
            None => {
                write_u8(&mut out, 0);
            },
            Some(t) => {
                if !base_encodable(t) {
                    return Err(ProtocolError::FieldTooLong);
                }
                write_u8(&mut out, 1);
                write_base(&mut out, t);
            },
        }
        proof {
            assert(out@ =~= spec_encode_exchange(self@));
        }
        Ok(out)
    }

    fn decode_from(data: &[u8]) -> (r: Result<Self, ProtocolError>) {
        let (base, j1) = match read_base(data, 0) {
            Some(x) => x,
            None => {
                return Err(ProtocolError::Decode);
            },
        };
        proof {
            lemma_read_base_inv(data@, 0, base@, j1 as int);
        }
        let (p, j2) = match read_bytes(data, j1) {
            Some(x) => x,
            None => {
                return Err(ProtocolError::Decode);
            },
        };
        proof {
            lemma_read_bytes_inv(data@, j1 as int, p@, j2 as int);
        }
        let (tag, j3) = match read_u8(data, j2) {
            Some(x) => x,
            None => {
                return Err(ProtocolError::Decode);
            },
        };
        if tag == 0 {
            if j3 == data.len() {
                return Ok(PeerExchangePkg { base_info: base, payload: p, target: None });
            }
            return Err(ProtocolError::Decode);
        }
        if tag != 1 {
            return Err(ProtocolError::Decode);
        }
        let (t, j4) = match read_base(data, j3) {
            Some(x) => x,
            None => {
                return Err(ProtocolError::Decode);
            },
        };
        if j4 == data.len() {
            Ok(PeerExchangePkg { base_info: base, payload: p, target: Some(t) })
        } else {
            Err(ProtocolError::Decode)
        }
    }
}

/// Round trip: decoding an encoded exchange payload gives the payload back.
#[verifier::rlimit(100)]
pub proof fn lemma_exchange_roundtrip(v: PeerExchangePkgView)
    requires
        encodable_exchange(v),
    ensures
        spec_decode_exchange(spec_encode_exchange(v)) == Some(v),
{
    let e = spec_encode_exchange(v);
    let eb = spec_encode_base(v.base_info);
    let ep = spec_encode_bytes(v.payload);
    let j1 = eb.len() as int;
    let j2 = j1 + ep.len();
    match v.target {
        None => {
            assert(e =~= Seq::<u8>::empty() + eb + (ep + seq![0u8]));
            lemma_read_base_of(Seq::<u8>::empty(), v.base_info, ep + seq![0u8]);
            assert(spec_read_base(e, 0) == Some((v.base_info, j1)));
            assert(e =~= eb + ep + seq![0u8]);
            lemma_read_bytes_of(eb, v.payload, seq![0u8]);
            assert(spec_read_bytes(e, j1) == Some((v.payload, j2)));
            assert(e =~= (eb + ep) + seq![0u8] + Seq::<u8>::empty());
            lemma_read_u8_of(eb + ep, 0u8, Seq::<u8>::empty());
            assert(spec_read_u8(e, j2) == Some((0u8, e.len() as int)));
            assert(spec_read_exchange(e, 0) == Some((v, e.len() as int)));
        },
        Some(t) => {
            let et = spec_encode_base(t);
            assert(e =~= Seq::<u8>::empty() + eb + (ep + (seq![1u8] + et)));
            lemma_read_base_of(Seq::<u8>::empty(), v.base_info, ep + (seq![1u8] + et));
            assert(spec_read_base(e, 0) == Some((v.base_info, j1)));
            assert(e =~= eb + ep + (seq![1u8] + et));
            lemma_read_bytes_of(eb, v.payload, seq![1u8] + et);
            assert(spec_read_bytes(e, j1) == Some((v.payload, j2)));
            assert(e =~= (eb + ep) + seq![1u8] + et);
            lemma_read_u8_of(eb + ep, 1u8, et);
            assert(spec_read_u8(e, j2) == Some((1u8, j2 + 1)));
            assert(e =~= (eb + ep + seq![1u8]) + et + Seq::<u8>::empty());
            lemma_read_base_of(eb + ep + seq![1u8], t, Seq::<u8>::empty());
            assert(spec_read_base(e, j2 + 1) == Some((t, e.len() as int)));
            assert(spec_read_exchange(e, 0) == Some((v, e.len() as int)));
        },
    }
}

/// Canonicity: whatever decodes to an exchange payload is exactly its
/// encoding.
#[verifier::rlimit(100)]
pub proof fn lemma_exchange_canonical(b: Seq<u8>, v: PeerExchangePkgView)
    requires
        spec_decode_exchange(b) == Some(v),
    ensures
        encodable_exchange(v),
        spec_encode_exchange(v) == b,
{
    let (base, j1) = spec_read_base(b, 0)->0;
    let (p, j2) = spec_read_bytes(b, j1)->0;
    let (tag, j3) = spec_read_u8(b, j2)->0;
    lemma_read_base_inv(b, 0, base, j1);
    lemma_read_bytes_inv(b, j1, p, j2);
    assert(b.subrange(0, j1) == spec_encode_base(base));
    assert(b.subrange(j1, j2) == spec_encode_bytes(p));
    if tag == 0 {
        assert(v == (PeerExchangePkgView { base_info: base, payload: p, target: None }));
        assert(b =~= b.subrange(0, j1) + b.subrange(j1, j2) + seq![b[j2]]);
        assert(b[j2] == 0u8);
    } else {
        let (t, j4) = spec_read_base(b, j3)->0;
        lemma_read_base_inv(b, j3, t, j4);
        assert(v == (PeerExchangePkgView { base_info: base, payload: p, target: Some(t) }));
        assert(b.subrange(j3, j4) == spec_encode_base(t));
        assert(b[j2] == 1u8);
        assert(b =~= b.subrange(0, j1) + b.subrange(j1, j2) + (seq![b[j2]] + b.subrange(j3, j4)));
        assert(spec_encode_exchange(v) == b.subrange(0, j1) + b.subrange(j1, j2) + (seq![1u8]
            + b.subrange(j3, j4)));
    }
}

// ---------------------------------------------------------------------------
// Request description handed to the client facade.
// ---------------------------------------------------------------------------

/// What a caller of the lookup pattern asks for: the class and instance of
/// the peer whose address it wants.
#[derive(Debug)]
pub struct RequestInfo {
    pub client_class: String,
    pub client_instance: String,
}

// ---------------------------------------------------------------------------
// Identity traits.
// ---------------------------------------------------------------------------

/// Read access to the base identity information of a payload.
pub trait GetBaseInfo {
    spec fn spec_baseinfo(&self) -> BasePkgView;

    fn get_baseinfo(&self) -> (r: &BasePkg)
        ensures
            r@ == self.spec_baseinfo(),
    ;
}

/// Checking the identity token a payload carries against an expected one.
pub trait PkgVerifyIdentity {
    spec fn spec_identity(&self) -> Seq<char>;

    /// Succeeds exactly when the carried token equals `identity`.
    fn verify_identity(&self, identity: &str) -> (r: Result<(), ProtocolError>)
        ensures
            (r is Ok) == (self.spec_identity() == identity@),
            r matches Err(e) ==> e == ProtocolError::IdentityMismatch,
    ;
}

impl<T: GetBaseInfo> PkgVerifyIdentity for T {
    open spec fn spec_identity(&self) -> Seq<char> {
        self.spec_baseinfo().identity
    }

    fn verify_identity(&self, identity: &str) -> (r: Result<(), ProtocolError>) {
        let mine = self.get_baseinfo();
        if str_eq(mine.identity.as_str(), identity) {
            Ok(())
        } else {
            Err(ProtocolError::IdentityMismatch)
        }
    }
}

/// The registry key a payload registers or is looked up under.
pub trait GetGlobalId {
    spec fn spec_global_id(&self) -> Seq<char>;

    fn get_global_id(&self) -> (r: String)
        ensures
            r@ == self.spec_global_id(),
    ;
}

impl GetGlobalId for BasePkg {
    open spec fn spec_global_id(&self) -> Seq<char> {
        self@.global_id()
    }

    fn get_global_id(&self) -> (r: String) {
        get_global_id(self.client_class.as_str(), self.client_instance.as_str())
    }
}

impl<T: GetBaseInfo> GetGlobalId for T {
    open spec fn spec_global_id(&self) -> Seq<char> {
        self.spec_baseinfo().global_id()
    }

    fn get_global_id(&self) -> (r: String) {
        let b = self.get_baseinfo();
        get_global_id(b.client_class.as_str(), b.client_instance.as_str())
    }
}

impl GetBaseInfo for ClientHelloPkg {
    open spec fn spec_baseinfo(&self) -> BasePkgView {
        self@.baseinfo
    }

    fn get_baseinfo(&self) -> (r: &BasePkg) {
        &self.baseinfo
    }
}

impl GetBaseInfo for ClientRequestPkg {
    open spec fn spec_baseinfo(&self) -> BasePkgView {
        self@.baseinfo
    }

    fn get_baseinfo(&self) -> (r: &BasePkg) {
        &self.baseinfo
    }
}

impl GetBaseInfo for PeerExchangePkg {
    open spec fn spec_baseinfo(&self) -> BasePkgView {
        self@.base_info
    }

    fn get_baseinfo(&self) -> (r: &BasePkg) {
        &self.base_info
    }
}

} // verus!
