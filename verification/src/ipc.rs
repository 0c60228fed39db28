//! Inter-process communication between the app and its helper processes:
//! socket addresses, requests and responses, and the framing of messages on
//! the wire (an 8-byte big-endian length, then the payload).

use vstd::prelude::*;

use crate::text::owned;
use crate::uuid_text::{new_random_uuid, uuid_hyphenated, uuid_to_hyphenated};

verus! {

broadcast use vstd::string::group_string_axioms;

/// The name of a service that handles requests.
pub type ServiceId = String;

/// The path of the socket that a service listens on.
#[derive(Clone, Debug, PartialEq, Eq, Hash)]
pub struct ConnectionAddress(pub String);

/// The text of the socket path made from a UUID.
pub open spec fn socket_path_text(v: u128) -> Seq<char> {
    "/tmp/warp-ipc-"@ + uuid_hyphenated(v) + ".sock"@
}

impl ConnectionAddress {
    /// A fresh socket path: "/tmp/warp-ipc-", a random UUID, ".sock".
    pub fn new() -> (a: ConnectionAddress)
        ensures
            exists|v: u128|
                a.0@ == socket_path_text(v) && (v >> 76u128) & 0xfu128 == 4u128 && (v >> 62u128)
                    & 0x3u128 == 2u128,
    {
        let v = new_random_uuid();
        let u = uuid_to_hyphenated(v);
        let mut s = owned("/tmp/warp-ipc-");
        s.append(u.as_str());
        s.append(".sock");
        assert(s@ == socket_path_text(v));
        ConnectionAddress(s)
    }

    /// The socket path.
    pub fn to_string(&self) -> (s: String)
        ensures
            s@ == self.0@,
    {
        self.0.clone()
    }
}

impl From<String> for ConnectionAddress {
    fn from(s: String) -> (a: ConnectionAddress) {
        ConnectionAddress(s)
    }
}

impl vstd::std_specs::convert::FromSpecImpl<String> for ConnectionAddress {
    open spec fn obeys_from_spec() -> bool {
        true
    }

    open spec fn from_spec(s: String) -> ConnectionAddress {
        ConnectionAddress(s)
    }
}

/// A request to a service; its id is a random UUID's bits.
#[derive(Clone, Debug)]
pub struct Request {
    pub id: u128,
    pub service_id: ServiceId,
    pub bytes: Vec<u8>,
}

impl Request {
    /// A request to `service_id` carrying `bytes`, under a fresh random id.
    pub fn new(service_id: ServiceId, bytes: Vec<u8>) -> (r: Request)
        ensures
            r.service_id == service_id,
            r.bytes == bytes,
            (r.id >> 76u128) & 0xfu128 == 4u128,
            (r.id >> 62u128) & 0x3u128 == 2u128,
    {
        Request { id: new_random_uuid(), service_id, bytes }
    }

    /// The id of this request.
    pub fn id(&self) -> (id: u128)
        ensures
            id == self.id,
    {
        self.id
    }
}

/// The answer of a service to a request.
#[derive(Clone, Debug)]
pub enum Response {
    Success { request_id: u128, service_id: ServiceId, bytes: Vec<u8> },
    Failure { request_id: u128, error_message: String },
}

impl Response {
    /// A successful answer to request `request_id` from `service_id`.
    pub fn success(request_id: u128, service_id: ServiceId, bytes: Vec<u8>) -> (r: Response)
        ensures
            r == (Response::Success { request_id, service_id, bytes }),
    {
        Response::Success { request_id, service_id, bytes }
    }

    /// A failed answer to request `request_id`.
    pub fn failure(request_id: u128, error_message: String) -> (r: Response)
        ensures
            r == (Response::Failure { request_id, error_message }),
    {
        Response::Failure { request_id, error_message }
    }

    /// The id of the request this answers.
    pub fn request_id(&self) -> (id: u128)
        ensures
            id == (match self {
                Response::Success { request_id, .. } => *request_id,
                Response::Failure { request_id, .. } => *request_id,
            }),
    {
        match self {
            Response::Success { request_id, .. } => *request_id,
            Response::Failure { request_id, .. } => *request_id,
        }
    }
}

/// Number of bytes of the length that precedes every message.
pub const LENGTH_PREFIX_SIZE: usize = 8;

/// The 8 big-endian bytes of `n`.
pub open spec fn u64_be_bytes(n: u64) -> Seq<u8> {
    seq![
        (n >> 56u64) as u8,
        (n >> 48u64) as u8,
        (n >> 40u64) as u8,
        (n >> 32u64) as u8,
        (n >> 24u64) as u8,
        (n >> 16u64) as u8,
        (n >> 8u64) as u8,
        n as u8,
    ]
}

/// The number whose big-endian bytes are the first 8 of `b`.
pub open spec fn u64_from_be(b: Seq<u8>) -> u64 {
    ((b[0] as u64) << 56u64) | ((b[1] as u64) << 48u64) | ((b[2] as u64) << 40u64) | ((
    b[3] as u64) << 32u64) | ((b[4] as u64) << 24u64) | ((b[5] as u64) << 16u64) | ((
    b[6] as u64) << 8u64) | (b[7] as u64)
}

/// A message on the wire: the payload's length in 8 big-endian bytes, then the payload.
pub open spec fn frame(payload: Seq<u8>) -> Seq<u8> {
    u64_be_bytes(payload.len() as u64) + payload
}

/// Why the bytes at hand do not hold a whole message.
#[derive(Clone, Copy, Debug, PartialEq, Eq, Structural)]
pub enum FrameError {
    /// Fewer than 8 bytes: the length itself is cut off.
    IncompleteHeader,
    /// The length is there but fewer payload bytes follow than it announces.
    IncompletePayload,
}

/// What the first message in `buf` is: its payload and the number of bytes
/// it takes, or why no whole message is there.
pub open spec fn decode_frame_spec(buf: Seq<u8>) -> Result<(Seq<u8>, int), FrameError> {
    if buf.len() < 8 {
        Err(FrameError::IncompleteHeader)
    } else {
        let n = u64_from_be(buf.subrange(0, 8));
        if buf.len() < 8 + n {
            Err(FrameError::IncompletePayload)
        } else {
            Ok((buf.subrange(8, 8 + n), 8 + n))
        }
    }
}

proof fn lemma_be_roundtrip(n: u64)
    ensures
        u64_from_be(u64_be_bytes(n)) == n,
{
    let b = u64_be_bytes(n);
    assert(b[0] == (n >> 56u64) as u8);
    assert(b[7] == n as u8);
    assert(((((n >> 56u64) as u8) as u64) << 56u64) | ((((n >> 48u64) as u8) as u64) << 48u64) | ((
    ((n >> 40u64) as u8) as u64) << 40u64) | ((((n >> 32u64) as u8) as u64) << 32u64) | ((((n
        >> 24u64) as u8) as u64) << 24u64) | ((((n >> 16u64) as u8) as u64) << 16u64) | ((((n
        >> 8u64) as u8) as u64) << 8u64) | ((n as u8) as u64) == n) by (bit_vector);
}

/// The message that holds `payload`.
pub fn encode_frame(payload: &[u8]) -> (r: Vec<u8>)
    ensures
        r@ == frame(payload@),
{
    let n = payload.len() as u64;
    let mut r: Vec<u8> = Vec::new();
    r.push((n >> 56u64) as u8);
    r.push((n >> 48u64) as u8);
    r.push((n >> 40u64) as u8);
    r.push((n >> 32u64) as u8);
    r.push((n >> 24u64) as u8);
    r.push((n >> 16u64) as u8);
    r.push((n >> 8u64) as u8);
    r.push(n as u8);
    assert(r@ =~= u64_be_bytes(n));
    let mut i: usize = 0;
    while i < payload.len()
        invariant
            i <= payload@.len(),
            r@ == u64_be_bytes(n) + payload@.subrange(0, i as int),
        decreases payload@.len() - i,
    {
        r.push(payload[i]);
        assert(payload@.subrange(0, i + 1) =~= payload@.subrange(0, i as int).push(payload@[i as int]));
        i = i + 1;
    }
    assert(payload@.subrange(0, payload@.len() as int) =~= payload@);
    r
}

/// The payload length that a message header announces.
pub fn decode_frame_length(header: &[u8]) -> (n: u64)
    requires
        header@.len() == 8,
    ensures
        n == u64_from_be(header@),
{
    ((header[0] as u64) << 56u64) | ((header[1] as u64) << 48u64) | ((header[2] as u64) << 40u64)
        | ((header[3] as u64) << 32u64) | ((header[4] as u64) << 24u64) | ((header[5] as u64)
        << 16u64) | ((header[6] as u64) << 8u64) | (header[7] as u64)
}

/// The first message in `buf`: its payload and how many bytes it takes.
pub fn decode_frame(buf: &[u8]) -> (r: Result<(Vec<u8>, usize), FrameError>)
    ensures
        match r {
            Ok((payload, used)) => decode_frame_spec(buf@) == Ok::<(Seq<u8>, int), FrameError>(
                (payload@, used as int),
            ),
            Err(e) => decode_frame_spec(buf@) == Err::<(Seq<u8>, int), FrameError>(e),
        },
{
    if buf.len() < LENGTH_PREFIX_SIZE {
        return Err(FrameError::IncompleteHeader);
    }
    let header: Vec<u8> = vec![buf[0], buf[1], buf[2], buf[3], buf[4], buf[5], buf[6], buf[7]];
    assert(header@ =~= buf@.subrange(0, 8));
    let n = decode_frame_length(header.as_slice());
    let available = (buf.len() - LENGTH_PREFIX_SIZE) as u64;
    if available < n {
        return Err(FrameError::IncompletePayload);
    }
    let end = LENGTH_PREFIX_SIZE + n as usize;
    let mut payload: Vec<u8> = Vec::new();
    let mut i: usize = LENGTH_PREFIX_SIZE;
    while i < end
        invariant
            8 <= i <= end <= buf@.len(),
            payload@ == buf@.subrange(8, i as int),
        decreases end - i,
    {
        payload.push(buf[i]);
        assert(buf@.subrange(8, i + 1) =~= buf@.subrange(8, i as int).push(buf@[i as int]));
        i = i + 1;
    }
    Ok((payload, end))
}

/// A message is read back whole from the front of any byte stream that
/// begins with it: the same payload, and exactly its length is consumed.
pub proof fn lemma_frame_roundtrip(payload: Seq<u8>, rest: Seq<u8>)
    requires
        payload.len() <= u64::MAX,
    ensures
        decode_frame_spec(frame(payload) + rest) == Ok::<(Seq<u8>, int), FrameError>(
            (payload, 8 + payload.len() as int),
        ),
{
    let n = payload.len() as u64;
    let buf = frame(payload) + rest;
    lemma_be_roundtrip(n);
    assert(buf.subrange(0, 8) =~= u64_be_bytes(n));
    assert(buf.subrange(8, 8 + n) =~= payload);
}

/// A message cut off anywhere is refused: inside the length as an incomplete
/// header, after the length as an incomplete payload.
pub proof fn lemma_truncated_frame_refused(payload: Seq<u8>, k: int)
    requires
        payload.len() <= u64::MAX,
        0 <= k < 8 + payload.len(),
    ensures
        k < 8 ==> decode_frame_spec(frame(payload).subrange(0, k)) == Err::<(Seq<u8>, int), FrameError>(
            FrameError::IncompleteHeader,
        ),
        k >= 8 ==> decode_frame_spec(frame(payload).subrange(0, k)) == Err::<(Seq<u8>, int), FrameError>(
            FrameError::IncompletePayload,
        ),
{
    let n = payload.len() as u64;
    lemma_be_roundtrip(n);
    if k >= 8 {
        assert(frame(payload).subrange(0, k).subrange(0, 8) =~= u64_be_bytes(n));
    }
}

/// A message starts with its payload's length written in base 256, most
/// significant byte first (`u64::to_be_bytes`), and the payload follows
/// unchanged.
pub proof fn lemma_frame_header_is_big_endian_length(payload: Seq<u8>)
    requires
        payload.len() <= u64::MAX,
    ensures
        frame(payload).len() == 8 + payload.len(),
        frame(payload)[0] == (payload.len() / 0x100_0000_0000_0000) % 256,
        frame(payload)[1] == (payload.len() / 0x1_0000_0000_0000) % 256,
        frame(payload)[2] == (payload.len() / 0x100_0000_0000) % 256,
        frame(payload)[3] == (payload.len() / 0x1_0000_0000) % 256,
        frame(payload)[4] == (payload.len() / 0x100_0000) % 256,
        frame(payload)[5] == (payload.len() / 0x1_0000) % 256,
        frame(payload)[6] == (payload.len() / 0x100) % 256,
        frame(payload)[7] == payload.len() % 256,
        frame(payload).subrange(8, 8 + payload.len() as int) == payload,
{
    let n = payload.len() as u64;
    assert(
        (n >> 56u64) as u8 == (n / 0x100_0000_0000_0000u64) % 256u64
        && (n >> 48u64) as u8 == (n / 0x1_0000_0000_0000u64) % 256u64
        && (n >> 40u64) as u8 == (n / 0x100_0000_0000u64) % 256u64
        && (n >> 32u64) as u8 == (n / 0x1_0000_0000u64) % 256u64
        && (n >> 24u64) as u8 == (n / 0x100_0000u64) % 256u64
        && (n >> 16u64) as u8 == (n / 0x1_0000u64) % 256u64
        && (n >> 8u64) as u8 == (n / 0x100u64) % 256u64
        && n as u8 == n % 256u64
    ) by (bit_vector);
    assert(frame(payload).subrange(8, 8 + payload.len() as int) =~= payload);
}

/// The length a header announces is its 8 bytes read in base 256, most
/// significant first (`u64::from_be_bytes`).
pub proof fn lemma_header_length_is_big_endian(b: Seq<u8>)
    requires
        b.len() >= 8,
    ensures
        u64_from_be(b) == b[0] * 0x100_0000_0000_0000 + b[1] * 0x1_0000_0000_0000 + b[2]
            * 0x100_0000_0000 + b[3] * 0x1_0000_0000 + b[4] * 0x100_0000 + b[5] * 0x1_0000
            + b[6] * 0x100 + b[7],
{
    let (b0, b1, b2, b3, b4, b5, b6, b7) = (b[0], b[1], b[2], b[3], b[4], b[5], b[6], b[7]);
    assert(((b0 as u64) << 56u64) | ((b1 as u64) << 48u64) | ((b2 as u64) << 40u64) | ((
    b3 as u64) << 32u64) | ((b4 as u64) << 24u64) | ((b5 as u64) << 16u64) | ((b6 as u64)
        << 8u64) | (b7 as u64) == b0 * 0x100_0000_0000_0000u64 + b1 * 0x1_0000_0000_0000u64 + b2
        * 0x100_0000_0000u64 + b3 * 0x1_0000_0000u64 + b4 * 0x100_0000u64 + b5 * 0x1_0000u64
        + b6 * 0x100u64 + b7) by (bit_vector);
}

} // verus!
