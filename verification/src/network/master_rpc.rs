//! Master RPC client with Java serialization support.
//!
//! Celeborn Master uses NettyRpcEnv which requires Java serialization for RPC messages.
//! This module builds the frames of requests, reads those of answers, and says which
//! master a request goes to. The connection itself is left to the caller.

use std::time::Duration;

use bytes::{Bytes, BytesMut};
use vstd::prelude::*;
use vstd::slice::{slice_subrange, slice_to_vec};
use vstd::string::*;
use vstd::utf8;

use crate::buffers;
use crate::error::{CelebornError, Result, StatusCode};
use crate::protocol;
use crate::protocol::java_serialization;
use crate::protocol::java_serialization::RpcAddress;
use crate::protocol::transport;
use crate::protocol::transport::TransportMessageType;
use crate::text;
use crate::wire;

verus! {

/// A source of request ids.
#[derive(Debug, Clone, Copy, PartialEq, Eq, Structural)]
pub struct RequestIds {
    pub next: u64,
}

impl RequestIds {
    /// The first id is 1.
    pub fn new() -> (r: Self)
        ensures
            r.next == 1,
    {
        RequestIds { next: 1 }
    }

    /// Generate a unique request ID. After 2^64 ids they start over.
    pub fn next_request_id(&mut self) -> (r: u64)
        ensures
            r == old(self).next,
            final(self).next == old(self).next.wrapping_add(1),
    {
        let id: u64 = self.next;
        self.next = id.wrapping_add(1);
        id
    }
}

/// An address with an IP and a port.
#[derive(Debug, PartialEq, Eq)]
pub struct SocketAddress {
    pub ip: String,
    pub port: u16,
}

/// The attempts made so far for one request.
pub struct Attempts {
    pub made: u64,
    pub last_error: Option<CelebornError>,
}

impl Attempts {
    /// No attempt yet.
    pub fn new() -> (r: Self)
        ensures
            r.made == 0,
            r.last_error is None,
    {
        Attempts { made: 0, last_error: None }
    }
}

/// How the sending of a request goes on.
pub enum SendTurn {
    /// Send it to the master with this index
    Send(usize),
    /// Give up
    Fail(CelebornError),
}

/// The masters that requests go to, one after the other.
pub struct Masters {
    /// How many masters there are
    pub count: usize,
    /// Current master index; it counts on past the last master
    pub index: usize,
    /// Max retries
    pub max_retries: u64,
}

impl Masters {
    /// There is a master.
    pub open spec fn wf(&self) -> bool {
        self.count > 0
    }

    /// The current master.
    pub open spec fn current(&self) -> int {
        self.index as int % self.count as int
    }

    /// Get the current master.
    pub fn current_master(&self) -> (r: usize)
        requires
            self.wf(),
        ensures
            r == self.current(),
            r < self.count,
    {
        self.index % self.count
    }

    /// Switch to the next master endpoint.
    pub fn switch_master(&mut self)
        ensures
            *final(self) == (Masters { index: old(self).index.wrapping_add(1), ..*old(self) }),
    {
        self.index = self.index.wrapping_add(1);
    }

    /// Whether a request is sent once more, and to which master.
    pub open spec fn sends(
        &self,
        attempts: Attempts,
        attempts_after: Attempts,
        r: SendTurn,
    ) -> bool {
        &&& attempts_after.made == attempts.made
        &&& if attempts.made < self.max_retries {
            &&& r matches SendTurn::Send(master)
            &&& master == self.current()
            &&& attempts_after == attempts
        } else {
            &&& attempts_after.last_error is None
            &&& match attempts.last_error {
                Some(e) => r == SendTurn::Fail(e),
                None => r matches SendTurn::Fail(CelebornError::Connection(m)) && m@
                    == "All master endpoints failed"@,
            }
        }
    }

    /// Where the next attempt goes. When as many attempts failed as are allowed, the error
    /// of the last one is given.
    pub fn send_turn(&self, attempts: &mut Attempts) -> (r: SendTurn)
        requires
            self.wf(),
        ensures
            self.sends(*old(attempts), *final(attempts), r),
    {
        if attempts.made < self.max_retries {
            return SendTurn::Send(self.current_master());
        }
        match attempts.last_error.take() {
            Some(e) => SendTurn::Fail(e),
            None => SendTurn::Fail(
                CelebornError::Connection("All master endpoints failed".to_owned()),
            ),
        }
    }

    /// What is left once an attempt failed, and whether there is a wait.
    pub open spec fn fails(
        &self,
        after: &Masters,
        attempts: Attempts,
        attempts_after: Attempts,
        e: CelebornError,
        wait: bool,
    ) -> bool {
        &&& *after == (Masters { index: self.index.wrapping_add(1), ..*self })
        &&& attempts_after == (Attempts {
            made: (attempts.made + 1) as u64,
            last_error: Some(e),
        })
        &&& wait == (attempts.made + 1 < self.max_retries)
    }

    /// Takes the failure of an attempt in: the next one goes to the next master. Says
    /// whether the caller is to wait before it.
    pub fn attempt_failed(&mut self, attempts: &mut Attempts, e: CelebornError) -> (wait: bool)
        requires
            old(attempts).made < old(self).max_retries,
        ensures
            old(self).fails(final(self), *old(attempts), *final(attempts), e, wait),
    {
        attempts.last_error = Some(e);
        self.switch_master();
        attempts.made = attempts.made + 1;
        attempts.made < self.max_retries
    }
}

/// Less than `n` steps apart, two places in a round of `n` differ.
pub proof fn lemma_turns_differ(start: int, i: int, j: int, n: int)
    requires
        0 <= start,
        0 <= i < j < n,
    ensures
        (start + i) % n != (start + j) % n,
{
    let a = start + i;
    let b = start + j;
    if a % n == b % n {
        vstd::arithmetic::div_mod::lemma_fundamental_div_mod(a, n);
        vstd::arithmetic::div_mod::lemma_fundamental_div_mod(b, n);
        let q = b / n - a / n;
        assert(n * q == j - i) by (nonlinear_arith)
            requires
                a == n * (a / n) + a % n,
                b == n * (b / n) + b % n,
                a % n == b % n,
                q == b / n - a / n,
                b - a == j - i,
        ;
        assert(false) by (nonlinear_arith)
            requires
                n * q == j - i,
                0 < j - i < n,
        ;
    }
}

/// As long as the index does not wrap, as many attempts in a row as there are masters go
/// to different masters.
pub proof fn law_masters_take_turns(m: Masters, i: int, j: int)
    requires
        m.wf(),
        0 <= i < j < m.count,
        m.index + j <= usize::MAX,
    ensures
        (Masters { index: (m.index + i) as usize, ..m }).current() != (Masters {
            index: (m.index + j) as usize,
            ..m
        }).current(),
{
    lemma_turns_differ(m.index as int, i, j, m.count as int);
}

/// Master RPC client for communicating with Celeborn Master.
pub struct MasterRpcClient {
    /// Master endpoints
    pub master_endpoints: Vec<SocketAddress>,
    /// Which of them requests go to
    pub masters: Masters,
    /// Local address for RPC
    pub local_address: Option<RpcAddress>,
    /// RPC timeout
    pub rpc_timeout: Duration,
    /// Retry wait duration
    pub retry_wait: Duration,
}

/// The header of an answer.
#[derive(Debug, Clone, Copy, PartialEq, Eq, Structural)]
pub struct ResponseHeader {
    pub msg_size: usize,
    pub msg_type: u8,
    pub body_size: usize,
}

/// A size as it stands in a header; a negative one shows as the unsigned 64-bit number
/// with the same bits.
pub open spec fn size64(v: i32) -> int {
    if v < 0 {
        v + 0x1_0000_0000_0000_0000
    } else {
        v as int
    }
}

/// The sizes in the first nine bytes of an answer.
pub open spec fn header_sizes(h: Seq<u8>) -> (int, int) {
    (
        size64(wire::signed32(wire::be_nat(h.subrange(0, 4)))),
        size64(wire::signed32(wire::be_nat(h.subrange(5, 9)))),
    )
}

/// The largest answer that is read.
pub const MAX_RESPONSE_SIZE: usize = 100 * 1024 * 1024;

/// The frame of a request: the header, the message content and the body.
pub open spec fn request_frame(request_id: u64, body: Seq<u8>) -> Seq<u8> {
    wire::be_i32(12) + seq![3u8] + wire::be_i32(wire::signed32(body.len()))
        + wire::be_i64(wire::signed64(request_id as nat)) + wire::be_i32(wire::signed32(body.len()))
        + body
}

/// The number at the start of an answer's message content; 0 where that is too short.
pub open spec fn response_id(content: Seq<u8>) -> u64 {
    if content.len() >= 8 {
        wire::be_nat(content.take(8)) as u64
    } else {
        0
    }
}

/// Whether `part` begins with `start`.
pub open spec fn begins(part: Seq<u8>, start: Seq<u8>) -> bool {
    part.len() >= start.len() && part.take(start.len() as int) == start
}

/// Whether `part` occurs in `s`.
pub open spec fn occurs(s: Seq<u8>, part: Seq<u8>) -> bool {
    exists|i: int| 0 <= i && i + part.len() <= s.len() && #[trigger] s.subrange(i, i + part.len()) == part
}

/// The bytes of a string.
pub open spec fn ascii(s: Seq<char>) -> Seq<u8> {
    utf8::encode_utf8(s)
}

/// The name of the class of the object at the start of a stream, where there is one.
pub open spec fn class_name(data: Seq<u8>) -> Option<Seq<u8>> {
    if data.len() > 10 && data[4] == 0x73 && data[5] == 0x72 {
        let n = wire::be_nat(data.subrange(6, 8)) as int;
        if data.len() > 8 + n {
            Some(data.subrange(8, 8 + n))
        } else {
            None
        }
    } else {
        None
    }
}

/// Whether a stream holds an RPC failure.
pub open spec fn is_failure(data: Seq<u8>) -> bool {
    match class_name(data) {
        Some(name) => occurs(name, ascii("RpcFailure"@)),
        None => false,
    }
}

/// Whether a string in a stream may be the text of an error: no class name, no type
/// descriptor, and not short as the name of a field is.
pub open spec fn may_be_message(s: Seq<u8>) -> bool {
    &&& utf8::valid_utf8(s)
    &&& !begins(s, ascii("java."@))
    &&& !begins(s, ascii("org.apache.celeborn.common.rpc"@))
    &&& !begins(s, ascii("["@))
    &&& !begins(s, ascii("L"@))
    &&& s.len() > 5
}

/// The strings from offset `pos` on that may be the text of an error.
pub open spec fn messages(data: Seq<u8>, pos: int) -> Seq<Seq<u8>>
    decreases data.len() - pos,
{
    if pos < 0 || pos >= data.len() - 3 {
        Seq::<Seq<u8>>::empty()
    } else if data[pos] == 0x74 {
        let n = wire::be_nat(data.subrange(pos + 1, pos + 3)) as int;
        let start = pos + 3;
        if start + n <= data.len() {
            let s = data.subrange(start, start + n);
            if may_be_message(s) {
                seq![s] + messages(data, start + n)
            } else {
                messages(data, start + n)
            }
        } else {
            messages(data, start + 1)
        }
    } else {
        messages(data, pos + 1)
    }
}

/// The longest of several strings; the last of them where several are longest.
pub open spec fn longest(s: Seq<Seq<u8>>) -> Seq<u8>
    decreases s.len(),
{
    if s.len() <= 1 {
        s[0]
    } else {
        let l = longest(s.drop_last());
        if s.last().len() >= l.len() {
            s.last()
        } else {
            l
        }
    }
}

/// The text of an RPC failure.
pub open spec fn failure_text(data: Seq<u8>) -> Seq<char> {
    let found = messages(data, 0);
    if found.len() == 0 {
        "Unknown RPC failure"@
    } else {
        utf8::decode_utf8(longest(found))
    }
}

/// The first string from offset `pos` on that is no class name.
pub open spec fn first_message(data: Seq<u8>, pos: int) -> Option<Seq<u8>>
    decreases data.len() - pos,
{
    if pos < 0 || pos >= data.len() - 3 {
        None
    } else if data[pos] == 0x74 {
        let n = wire::be_nat(data.subrange(pos + 1, pos + 3)) as int;
        let start = pos + 3;
        if start + n <= data.len() && utf8::valid_utf8(data.subrange(start, start + n)) && !begins(
            data.subrange(start, start + n),
            ascii("java."@),
        ) && !begins(data.subrange(start, start + n), ascii("org."@)) && !begins(
            data.subrange(start, start + n),
            ascii("["@),
        ) {
            Some(data.subrange(start, start + n))
        } else {
            first_message(data, start + 1)
        }
    } else {
        first_message(data, pos + 1)
    }
}

/// The text of an error answer.
pub open spec fn error_answer_text(data: Seq<u8>) -> Seq<char> {
    match first_message(data, 0) {
        Some(s) => utf8::decode_utf8(s),
        None => "Unknown error from master"@,
    }
}

/// What stands at a place where a byte array may begin.
pub enum ArrayParse {
    /// No byte array
    Nothing,
    /// The contents, and the offset behind them
    Found(Seq<u8>, int),
    /// A negative length that leads back into the data
    Unreadable,
}

/// The end of the class descriptor that is skipped from `pos` on: behind the next end mark.
pub open spec fn descriptor_end(data: Seq<u8>, pos: int) -> int
    decreases data.len() - pos,
{
    if pos < 0 || pos >= data.len() {
        pos
    } else if data[pos] == 0x78 {
        pos + 1
    } else {
        descriptor_end(data, pos + 1)
    }
}

/// Where the length of the array stands, behind its class descriptor.
pub open spec fn length_offset(data: Seq<u8>) -> int {
    if data[1] == 0x72 {
        let name_len = wire::be_nat(data.subrange(2, 4)) as int;
        let end = descriptor_end(data, 4 + name_len + 8);
        if end < data.len() && data[end] == 0x70 {
            end + 1
        } else {
            end
        }
    } else {
        6
    }
}

/// The byte array at the start of `data`.
pub open spec fn array_at(data: Seq<u8>) -> ArrayParse {
    if data.len() < 10 || data[0] != 0x75 || (data[1] != 0x72 && data[1] != 0x71) {
        ArrayParse::Nothing
    } else {
        let at = length_offset(data);
        if at + 4 > data.len() {
            ArrayParse::Nothing
        } else {
            let n = wire::signed32(wire::be_nat(data.subrange(at, at + 4))) as int;
            let start = at + 4;
            if n < 0 && start + n >= 0 {
                ArrayParse::Unreadable
            } else if n < 0 || start + n > data.len() {
                ArrayParse::Nothing
            } else {
                ArrayParse::Found(data.subrange(start, start + n), start + n)
            }
        }
    }
}

/// The first byte array from offset `pos` on.
pub open spec fn find_array(data: Seq<u8>, pos: int) -> ArrayParse
    decreases data.len() - pos,
{
    if pos < 0 || pos >= data.len() - 10 {
        ArrayParse::Nothing
    } else {
        match array_at(data.skip(pos)) {
            ArrayParse::Nothing => find_array(data, pos + 1),
            p => p,
        }
    }
}

/// Whether `r` is the payload in an object stream: what the first byte array behind the
/// stream header holds.
pub open spec fn extracted(r: Result<Vec<u8>>, data: Seq<u8>) -> bool {
    match find_array(data, 4) {
        ArrayParse::Found(payload, end) => r matches Ok(v) && v@ == payload,
        _ => r matches Err(CelebornError::Protocol(m)) && m@
            == "Could not find TransportMessage payload in Java serialization"@,
    }
}

/// Whether an answer can be read to its end: it is no object stream, or it is long enough
/// to hold a payload and no length in it leads back into the data.
pub open spec fn response_readable(data: Seq<u8>) -> bool {
    data.len() < 4 || data[0] != 0xAC || data[1] != 0xED || is_failure(data) || (data.len() >= 10
        && !(find_array(data, 4) is Unreadable))
}

/// Whether `s` begins with the bytes of `start`.
fn begins_with(s: &[u8], start: &str) -> (r: bool)
    ensures
        r == begins(s@, ascii(start@)),
{
    let p: &[u8] = start.as_bytes();
    let n: usize = p.len();
    if s.len() < n {
        return false;
    }
    let mut i: usize = 0;
    while i < n
        invariant
            n == p@.len(),
            n <= s@.len(),
            i <= n,
            p@ == ascii(start@),
            forall|j: int| 0 <= j < i ==> s@[j] == p@[j],
        decreases n - i,
    {
        if s[i] != p[i] {
            assert(s@.take(n as int)[i as int] != p@[i as int]);
            return false;
        }
        i += 1;
    }
    assert(s@.take(n as int) =~= p@);
    true
}

/// Whether the bytes of `part` occur in `s`.
fn has_part(s: &[u8], part: &str) -> (r: bool)
    ensures
        r == occurs(s@, ascii(part@)),
{
    let ghost p = ascii(part@);
    let len: usize = s.len();
    let n: usize = part.as_bytes().len();
    if len < n {
        return false;
    }
    let last: usize = len - n;
    let mut i: usize = 0;
    while i < last
        invariant
            len == s@.len(),
            n == p.len(),
            n <= len,
            last == len - n,
            p == ascii(part@),
            i <= last,
            forall|j: int| 0 <= j < i ==> #[trigger] s@.subrange(j, j + n) != p,
        decreases last - i,
    {
        let rest: &[u8] = slice_subrange(s, i, len);
        assert(rest@.take(n as int) =~= s@.subrange(i as int, i + n));
        if begins_with(rest, part) {
            return true;
        }
        i += 1;
    }
    let rest: &[u8] = slice_subrange(s, last, len);
    assert(rest@.take(n as int) =~= s@.subrange(last as int, last + n));
    begins_with(rest, part)
}

/// Frames the body of a request.
pub fn frame_request(body: &Bytes, request_id: u64) -> (r: BytesMut)
    requires
        buffers::octets(*body).len() + 21 <= isize::MAX,
    ensures
        buffers::buffered(r) == request_frame(request_id, buffers::octets(*body)),
{
    broadcast use wire::lemma_be_len;

    let body_size: usize = buffers::bytes_len(body);
    let announced: i32 = wire::wire_len(body_size);
    let mut frame: BytesMut = buffers::buffer_with_capacity(9 + 12 + body_size);
    buffers::put_i32(&mut frame, 12);
    buffers::put_u8(&mut frame, 3);
    buffers::put_i32(&mut frame, announced);
    buffers::put_i64(&mut frame, wire::to_signed64(request_id));
    buffers::put_i32(&mut frame, announced);
    buffers::put_slice(&mut frame, buffers::bytes_as_slice(body));
    assert(buffers::buffered(frame) =~= request_frame(request_id, buffers::octets(*body)));
    frame
}

impl MasterRpcClient {
    /// Every master has an endpoint.
    pub open spec fn wf(&self) -> bool {
        self.masters.wf() && self.masters.count == self.master_endpoints@.len()
    }

    /// Create a new Master RPC client.
    pub fn new(
        master_endpoints: Vec<SocketAddress>,
        local_address: Option<RpcAddress>,
        rpc_timeout: Duration,
        max_retries: usize,
        retry_wait: Duration,
    ) -> (r: Result<Self>)
        ensures
            if master_endpoints@.len() == 0 {
                r matches Err(CelebornError::Config(m)) && m@ == "No master endpoints provided"@
            } else {
                &&& r matches Ok(c)
                &&& c.wf()
                &&& c.master_endpoints == master_endpoints
                &&& c.masters.index == 0
                &&& c.masters.max_retries == max_retries
                &&& c.local_address == local_address
                &&& c.rpc_timeout == rpc_timeout
                &&& c.retry_wait == retry_wait
            },
    {
        if master_endpoints.len() == 0 {
            return Err(CelebornError::Config("No master endpoints provided".to_owned()));
        }
        let count: usize = master_endpoints.len();
        Ok(
            MasterRpcClient {
                master_endpoints,
                masters: Masters { count, index: 0, max_retries: max_retries as u64 },
                local_address,
                rpc_timeout,
                retry_wait,
            },
        )
    }

    /// Get the current master endpoint.
    pub fn current_master(&self) -> (r: &SocketAddress)
        requires
            self.wf(),
        ensures
            *r == self.master_endpoints@[self.masters.current()],
    {
        &self.master_endpoints[self.masters.current_master()]
    }

    /// The body of a request to a master, as an object stream behind the addresses.
    pub open spec fn request_body(
        &self,
        message_type: TransportMessageType,
        payload: Seq<u8>,
        receiver: RpcAddress,
    ) -> Seq<u8> {
        java_serialization::request_message(
            match self.local_address {
                Some(a) => Some(&a),
                None => None,
            },
            Some(&receiver),
            "MasterEndpoint"@,
            transport::transport_code(message_type) as i32,
            payload,
        )
    }

    /// The address of a master as requests name it.
    pub fn receiver_address(&self, master: usize) -> (r: RpcAddress)
        requires
            master < self.master_endpoints@.len(),
        ensures
            r.host@ == self.master_endpoints@[master as int].ip@,
            r.port == self.master_endpoints@[master as int].port,
    {
        RpcAddress::new(
            self.master_endpoints[master].ip.as_str(),
            self.master_endpoints[master].port as i32,
        )
    }

    /// The frame of a request:
    ///
    /// Header (9 bytes):
    /// - msgSize (4 bytes): size of message content (requestId + bodySize = 12 bytes)
    /// - msgType (1 byte): Message.Type.id (RPC_REQUEST = 3)
    /// - bodySize (4 bytes): size of body (the RequestMessage)
    ///
    /// Message content (12 bytes for RPC_REQUEST):
    /// - requestId (8 bytes)
    /// - bodySize (4 bytes) - redundant but required
    ///
    /// Body:
    /// - The actual payload (RequestMessage serialized)
    pub fn encode_request(
        &self,
        receiver: &RpcAddress,
        message_type: TransportMessageType,
        payload: &[u8],
        request_id: u64,
    ) -> (r: BytesMut)
        requires
            256 + payload@.len() <= isize::MAX,
            self.request_body(message_type, payload@, *receiver).len() + 21 <= isize::MAX,
        ensures
            buffers::buffered(r) == request_frame(
                request_id,
                self.request_body(message_type, payload@, *receiver),
            ),
    {
        let sender: Option<&RpcAddress> = match &self.local_address {
            Some(a) => Some(a),
            None => None,
        };
        let body: Bytes = java_serialization::encode_request_message(
            sender,
            Some(receiver),
            "MasterEndpoint",
            message_type.code(),
            payload,
        );
        frame_request(&body, request_id)
    }

    /// What the head of an answer is read as.
    pub open spec fn head_read(header: &[u8], r: Result<ResponseHeader>) -> bool {
        let (m, b) = header_sizes(header@);
        if m + b > MAX_RESPONSE_SIZE {
            r matches Err(CelebornError::Protocol(t)) && t@ == "Frame too large: "@
                + text::nat_text((m + b) as nat) + " bytes"@
        } else {
            r matches Ok(h) && h.msg_size == m && h.msg_type == header@[4] && h.body_size == b
        }
    }

    /// Reads the header of an answer (9 bytes):
    /// - msgSize (4 bytes): size of message content
    /// - msgType (1 byte): Message.Type.id (RPC_RESPONSE=4, RPC_FAILURE=5)
    /// - bodySize (4 bytes): size of body
    pub fn read_header(header: &[u8]) -> (r: Result<ResponseHeader>)
        requires
            header@.len() == 9,
            header_sizes(header@).0 + header_sizes(header@).1 < 0x1_0000_0000_0000_0000,
        ensures
            Self::head_read(header, r),
    {
        let msg: i32 = wire::read_i32(header, 0);
        let body: i32 = wire::read_i32(header, 5);
        let m: u64 = to_size64(msg);
        let b: u64 = to_size64(body);
        let total: u64 = m + b;
        if total > MAX_RESPONSE_SIZE as u64 {
            let mut t: String = "Frame too large: ".to_owned();
            text::append_u64(&mut t, total);
            t.append(" bytes");
            return Err(CelebornError::Protocol(t));
        }
        Ok(ResponseHeader { msg_size: m as usize, msg_type: header[4], body_size: b as usize })
    }

    /// Whether the sizes in a header can be added up.
    pub fn can_read_header(header: &[u8]) -> (r: bool)
        ensures
            r == (header@.len() == 9 && header_sizes(header@).0 + header_sizes(header@).1
                < 0x1_0000_0000_0000_0000),
    {
        if header.len() != 9 {
            return false;
        }
        let m: u64 = to_size64(wire::read_i32(header, 0));
        let b: u64 = to_size64(wire::read_i32(header, 5));
        m <= u64::MAX - b
    }

    /// The request that an answer belongs to; 0 where its message content is too short.
    pub fn response_request_id(msg_content: &[u8]) -> (r: u64)
        ensures
            r == response_id(msg_content@),
    {
        if msg_content.len() >= 8 {
            let high: u32 = wire::read_u32(msg_content, 0);
            let low: u32 = wire::read_u32(msg_content, 4);
            proof {
                let s = msg_content@;
                wire::lemma_be_nat_8(s.take(8));
                assert(s.take(8).subrange(0, 4) =~= s.subrange(0, 4));
                assert(s.take(8).subrange(4, 8) =~= s.subrange(4, 8));
            }
            high as u64 * 0x1_0000_0000 + low as u64
        } else {
            0
        }
    }

    /// What an answer of a master is read as, by its type.
    pub open spec fn reads(&self, msg_type: u8, body: &[u8], r: Result<Vec<u8>>) -> bool {
        if msg_type == 4 {
            decoded(r, body@)
        } else if msg_type == 5 {
            r matches Err(CelebornError::ServerError { status, message }) && status
                == StatusCode::RequestFailed && message@ == error_answer_text(body@)
        } else {
            r matches Err(CelebornError::Protocol(m)) && m@ == "Unknown response type: "@
                + text::nat_text(msg_type as nat)
        }
    }

    /// The payload of an answer, or the error that it stands for.
    pub fn read_response(&self, msg_type: u8, body: &[u8]) -> (r: Result<Vec<u8>>)
        requires
            msg_type == 4 ==> response_readable(body@),
            msg_type == 5 ==> body@.len() >= 3,
        ensures
            self.reads(msg_type, body, r),
    {
        match msg_type {
            4 => self.decode_java_response(body),
            5 => Err(
                CelebornError::ServerError {
                    status: StatusCode::RequestFailed,
                    message: self.decode_java_error(body),
                },
            ),
            _ => {
                let mut m: String = "Unknown response type: ".to_owned();
                text::append_u64(&mut m, msg_type as u64);
                Err(CelebornError::Protocol(m))
            },
        }
    }

    /// Decode a Java serialized response.
    ///
    /// The response can be either:
    /// 1. TransportMessage - contains protobuf payload
    /// 2. RpcFailure - contains a Throwable (error)
    pub fn decode_java_response(&self, data: &[u8]) -> (r: Result<Vec<u8>>)
        requires
            response_readable(data@),
        ensures
            decoded(r, data@),
    {
        if data.len() < 4 {
            return Err(
                CelebornError::Protocol("Response too short for Java serialization".to_owned()),
            );
        }
        if data[0] != 0xAC || data[1] != 0xED {
            let mut m: String = "Invalid Java serialization magic: ".to_owned();
            text::append_hex(&mut m, data[0]);
            text::append_hex(&mut m, data[1]);
            return Err(CelebornError::Protocol(m));
        }
        if self.holds_failure(data) {
            return Err(
                CelebornError::ServerError {
                    status: StatusCode::RequestFailed,
                    message: self.extract_rpc_failure_message(data),
                },
            );
        }
        self.extract_transport_message_payload(data)
    }

    /// Whether an answer can be read to its end.
    pub fn can_decode_response(&self, data: &[u8]) -> (r: bool)
        ensures
            r == response_readable(data@),
    {
        if data.len() < 4 || data[0] != 0xAC || data[1] != 0xED || self.holds_failure(data) {
            return true;
        }
        if data.len() < 10 {
            return false;
        }
        match find_byte_array(data) {
            ArraySearch::Unreadable => false,
            _ => true,
        }
    }

    /// Whether an object stream holds an RPC failure, by the name of its class.
    fn holds_failure(&self, data: &[u8]) -> (r: bool)
        requires
            data@.len() >= 4,
        ensures
            r == is_failure(data@),
    {
        if data.len() > 10 && data[4] == 0x73 && data[5] == 0x72 {
            let class_name_len: usize = wire::read_u16(data, 6) as usize;
            if data.len() > 8 + class_name_len {
                return has_part(slice_subrange(data, 8, 8 + class_name_len), "RpcFailure");
            }
        }
        false
    }

    /// Extract error message from RpcFailure Java serialization: the longest string in it
    /// that may be one.
    pub fn extract_rpc_failure_message(&self, data: &[u8]) -> (r: String)
        requires
            data@.len() >= 3,
        ensures
            r@ == failure_text(data@),
    {
        let len: usize = data.len();
        let mut best: Option<String> = None;
        let mut best_len: usize = 0;
        let ghost mut found: Seq<Seq<u8>> = Seq::empty();
        let mut pos: usize = 0;
        assert(found + messages(data@, 0) =~= messages(data@, 0));
        while pos < len - 3
            invariant
                len == data@.len(),
                3 <= len,
                pos <= len + 1,
                messages(data@, 0) == found + messages(data@, pos as int),
                found.len() == 0 <==> best is None,
                best matches Some(b) ==> b@ == utf8::decode_utf8(longest(found)) && best_len
                    == longest(found).len(),
            decreases len + 1 - pos,
        {
            if data[pos] == 0x74 {
                let n: usize = wire::read_u16(data, pos + 1) as usize;
                let start: usize = pos + 3;
                if n <= len - start {
                    let part: &[u8] = slice_subrange(data, start, start + n);
                    let ghost rest = messages(data@, start + n);
                    let wanted: bool = !begins_with(part, "java.") && !begins_with(
                        part,
                        "org.apache.celeborn.common.rpc",
                    ) && !begins_with(part, "[") && !begins_with(part, "L") && n > 5;
                    match protocol::string_from_utf8(slice_to_vec(part)) {
                        Ok(s) => {
                            if wanted {
                                let ghost before = found;
                                proof {
                                    found = before.push(part@);
                                    assert(found.drop_last() =~= before);
                                    assert(before + (seq![part@] + rest) =~= found + rest);
                                }
                                if best.is_none() || n >= best_len {
                                    best = Some(s);
                                    best_len = n;
                                }
                            }
                        },
                        Err(_) => {},
                    }
                    pos = start + n;
                } else {
                    pos = start + 1;
                }
            } else {
                pos = pos + 1;
            }
        }
        assert(found + Seq::<Seq<u8>>::empty() =~= found);
        match best {
            Some(s) => s,
            None => "Unknown RPC failure".to_owned(),
        }
    }

    /// Extract the payload from a Java serialized TransportMessage: the first byte array
    /// behind the stream header.
    pub fn extract_transport_message_payload(&self, data: &[u8]) -> (r: Result<Vec<u8>>)
        requires
            data@.len() >= 10,
            !(find_array(data@, 4) is Unreadable),
        ensures
            extracted(r, data@),
    {
        match find_byte_array(data) {
            ArraySearch::Found(v, _) => Ok(v),
            _ => Err(
                CelebornError::Protocol(
                    "Could not find TransportMessage payload in Java serialization".to_owned(),
                ),
            ),
        }
    }

    /// Try to parse a byte array from Java serialization data: its contents and the offset
    /// behind them.
    pub fn try_parse_byte_array(&self, data: &[u8]) -> (r: Option<(Vec<u8>, usize)>)
        requires
            !(array_at(data@) is Unreadable),
        ensures
            match array_at(data@) {
                ArrayParse::Found(contents, end) => r matches Some(f) && f.0@ == contents && f.1 == end,
                _ => r is None,
            },
    {
        match parse_byte_array(data) {
            ArraySearch::Found(v, end) => Some((v, end)),
            _ => None,
        }
    }

    /// Decode a Java serialized error message: the first string in it that is no class name.
    pub fn decode_java_error(&self, data: &[u8]) -> (r: String)
        requires
            data@.len() >= 3,
        ensures
            r@ == error_answer_text(data@),
    {
        let len: usize = data.len();
        let mut pos: usize = 0;
        while pos < len - 3
            invariant
                len == data@.len(),
                3 <= len,
                pos <= len + 1,
                first_message(data@, 0) == first_message(data@, pos as int),
            decreases len + 1 - pos,
        {
            if data[pos] == 0x74 {
                let n: usize = wire::read_u16(data, pos + 1) as usize;
                let start: usize = pos + 3;
                if n <= len - start {
                    let part: &[u8] = slice_subrange(data, start, start + n);
                    let wanted: bool = !begins_with(part, "java.") && !begins_with(part, "org.")
                        && !begins_with(part, "[");
                    match protocol::string_from_utf8(slice_to_vec(part)) {
                        Ok(s) => {
                            if wanted {
                                return s;
                            }
                        },
                        Err(_) => {},
                    }
                }
                pos = start + 1;
            } else {
                pos = pos + 1;
            }
        }
        "Unknown error from master".to_owned()
    }
}

/// Whether `r` is what an answer decodes to.
pub open spec fn decoded(r: Result<Vec<u8>>, data: Seq<u8>) -> bool {
    if data.len() < 4 {
        r matches Err(CelebornError::Protocol(m)) && m@ == "Response too short for Java serialization"@
    } else if data[0] != 0xAC || data[1] != 0xED {
        r matches Err(CelebornError::Protocol(m)) && m@ == "Invalid Java serialization magic: "@
            + text::hex_text(data[0]) + text::hex_text(data[1])
    } else if is_failure(data) {
        r matches Err(CelebornError::ServerError { status, message }) && status
            == StatusCode::RequestFailed && message@ == failure_text(data)
    } else {
        match find_array(data, 4) {
            ArrayParse::Found(payload, end) => r matches Ok(v) && v@ == payload,
            _ => r matches Err(CelebornError::Protocol(m)) && m@
                == "Could not find TransportMessage payload in Java serialization"@,
        }
    }
}

/// What a search for a byte array finds.
enum ArraySearch {
    Nothing,
    Found(Vec<u8>, usize),
    Unreadable,
}

/// Whether a search found what stands there.
spec fn searched(r: ArraySearch, p: ArrayParse) -> bool {
    match p {
        ArrayParse::Nothing => r is Nothing,
        ArrayParse::Found(contents, end) => r matches ArraySearch::Found(v, e) && v@ == contents && e
            == end,
        ArrayParse::Unreadable => r is Unreadable,
    }
}

/// The byte array at the start of `data`.
fn parse_byte_array(data: &[u8]) -> (r: ArraySearch)
    ensures
        searched(r, array_at(data@)),
{
    let len: usize = data.len();
    if len < 10 || data[0] != 0x75 || (data[1] != 0x72 && data[1] != 0x71) {
        return ArraySearch::Nothing;
    }
    let mut at: usize = 6;
    if data[1] == 0x72 {
        let name_len: usize = wire::read_u16(data, 2) as usize;
        at = 4 + name_len + 8;
        let ghost first = at as int;
        while at < len && data[at] != 0x78
            invariant
                len == data@.len(),
                at <= len || at == first,
                descriptor_end(data@, first) == descriptor_end(data@, at as int),
            decreases len - at,
        {
            at += 1;
        }
        if at < len {
            at += 1;
        }
        assert(descriptor_end(data@, first) == at);
        if at < len && data[at] == 0x70 {
            at += 1;
        }
    }
    assert(at == length_offset(data@));
    if at > len || len - at < 4 {
        return ArraySearch::Nothing;
    }
    let n: i32 = wire::read_i32(data, at);
    let start: usize = at + 4;
    if n < 0 {
        if start as i128 + n as i128 >= 0 {
            return ArraySearch::Unreadable;
        }
        return ArraySearch::Nothing;
    }
    let n: usize = n as usize;
    if len - start < n {
        return ArraySearch::Nothing;
    }
    ArraySearch::Found(slice_to_vec(slice_subrange(data, start, start + n)), start + n)
}

/// The first byte array behind the stream header.
fn find_byte_array(data: &[u8]) -> (r: ArraySearch)
    requires
        data@.len() >= 10,
    ensures
        searched(r, find_array(data@, 4)),
{
    let len: usize = data.len();
    let mut pos: usize = 4;
    while pos < len - 10
        invariant
            len == data@.len(),
            len >= 10,
            4 <= pos,
            find_array(data@, 4) == find_array(data@, pos as int),
        decreases len - pos,
    {
        if data[pos] == 0x75 {
            let rest: &[u8] = slice_subrange(data, pos, len);
            assert(rest@ =~= data@.skip(pos as int));
            match parse_byte_array(rest) {
                ArraySearch::Nothing => {},
                found => {
                    return found;
                },
            }
        }
        assert(data@.skip(pos as int)[0] == data@[pos as int]);
        pos += 1;
    }
    ArraySearch::Nothing
}

/// A size as it stands in a header.
fn to_size64(v: i32) -> (r: u64)
    ensures
        r == size64(v),
{
    if v < 0 {
        (v as i128 + 0x1_0000_0000_0000_0000) as u64
    } else {
        v as u64
    }
}

} // verus!
