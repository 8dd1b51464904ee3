//! Connections to Celeborn servers: which requests are open on a connection, and which
//! connection of a pool a request goes over. The sockets are left to the caller.

use std::collections::HashSet;
use std::time::Duration;

use bytes::Bytes;
use dashmap::DashMap;
use vstd::prelude::*;
use vstd::string::*;

use crate::buffers;
use crate::error::{CelebornError, Result};
use crate::network::codec::{Frame, FrameModel};
use crate::network::master_rpc;
use crate::network::master_rpc::RequestIds;
use crate::protocol::message::{MessageType, RpcRequest};
use crate::protocol::{message, Encodable};
use crate::tables;
use crate::time;
use crate::wire;

verus! {

broadcast use vstd::std_specs::hash::group_hash_axioms;

/// The request that a frame answers.
pub open spec fn request_id_of(f: FrameModel) -> Option<i64> {
    if (f.message_type is RpcResponse || f.message_type is RpcFailure) && f.message.len() >= 8 {
        Some(wire::i64_at(f.message))
    } else {
        None
    }
}

/// The stream whose chunk a frame brings, or fails to bring.
pub open spec fn stream_id_of(f: FrameModel) -> Option<i64> {
    if (f.message_type is ChunkFetchSuccess || f.message_type is ChunkFetchFailure)
        && f.message.len() >= 8 {
        Some(wire::i64_at(f.message))
    } else {
        None
    }
}

/// The frame of a request.
pub open spec fn rpc_frame(request_id: i64, body: Seq<u8>) -> FrameModel {
    FrameModel {
        message_type: MessageType::RpcRequest,
        message: wire::be_i64(request_id) + message::sized_body(body),
        body: Seq::<u8>::empty(),
    }
}

/// An answer that begins with the id of a request belongs to that request.
pub proof fn law_answer_names_its_request(request_id: i64, rest: Seq<u8>, body: Seq<u8>, failed: bool)
    ensures
        request_id_of(
            FrameModel {
                message_type: if failed {
                    MessageType::RpcFailure
                } else {
                    MessageType::RpcResponse
                },
                message: wire::be_i64(request_id) + rest,
                body,
            },
        ) == Some(request_id),
{
    wire::lemma_i64_at(request_id, rest);
    wire::lemma_be_len(wire::unsigned64(request_id), 8);
}

/// A request for a chunk of a stream.
#[derive(Debug, Clone, Copy)]
pub struct ChunkRequest {
    pub stream_id: i64,
    pub request_id: i64,
}

/// The oldest of these requests for a chunk of a stream.
pub open spec fn oldest_for(requests: Seq<ChunkRequest>, stream_id: i64) -> Option<i64>
    decreases requests.len(),
{
    if requests.len() == 0 {
        None
    } else if requests.first().stream_id == stream_id {
        Some(requests.first().request_id)
    } else {
        oldest_for(requests.drop_first(), stream_id)
    }
}

/// These requests without the ones of a number.
pub open spec fn without(requests: Seq<ChunkRequest>, request_id: i64) -> Seq<ChunkRequest> {
    requests.filter(|c: ChunkRequest| c.request_id != request_id)
}

/// Where the oldest request for a stream stands, none before it is for that stream.
proof fn lemma_oldest_at(requests: Seq<ChunkRequest>, stream_id: i64, n: int)
    requires
        0 <= n <= requests.len(),
        forall|j: int| 0 <= j < n ==> (#[trigger] requests[j]).stream_id != stream_id,
        n < requests.len() ==> requests[n].stream_id == stream_id,
    ensures
        oldest_for(requests, stream_id) == if n < requests.len() {
            Some(requests[n].request_id)
        } else {
            None
        },
    decreases n,
{
    if n > 0 {
        let rest = requests.drop_first();
        assert(requests[0].stream_id != stream_id);
        assert forall|j: int| 0 <= j < n - 1 implies (#[trigger] rest[j]).stream_id
            != stream_id by {
            assert(rest[j] == requests[j + 1]);
        }
        lemma_oldest_at(rest, stream_id, n - 1);
    }
}

/// A single connection to a Celeborn server.
pub struct Connection {
    /// Pending requests waiting for responses
    pub pending_requests: HashSet<i64>,
    /// The pending requests for chunks, the oldest first
    pub chunk_requests: Vec<ChunkRequest>,
    /// Request ID counter
    pub request_ids: RequestIds,
    /// Whether the connection is active
    pub active: bool,
}

impl Connection {
    /// The pending request that a frame answers. An answer to a request names it; a chunk
    /// names its stream, and answers the oldest request for a chunk of that stream.
    pub open spec fn answered(&self, frame: FrameModel) -> Option<i64> {
        match request_id_of(frame) {
            Some(id) => if self.pending_requests@.contains(id) {
                Some(id)
            } else {
                None
            },
            None => match stream_id_of(frame) {
                Some(stream_id) => oldest_for(self.chunk_requests@, stream_id),
                None => None,
            },
        }
    }

    /// A request is pending no more; the other ones still are.
    pub open spec fn gives_up(&self, before: &Self, request_id: i64) -> bool {
        &&& self.pending_requests@ == before.pending_requests@.remove(request_id)
        &&& self.chunk_requests@ == without(before.chunk_requests@, request_id)
        &&& self.active == before.active
        &&& self.request_ids == before.request_ids
    }

    /// A connection that was just opened.
    pub fn new() -> (r: Self)
        ensures
            r.pending_requests@ == Set::<i64>::empty(),
            r.chunk_requests@ == Seq::<ChunkRequest>::empty(),
            r.request_ids.next == 1,
            r.active,
    {
        Connection {
            pending_requests: HashSet::new(),
            chunk_requests: Vec::new(),
            request_ids: RequestIds::new(),
            active: true,
        }
    }

    /// Extract request ID from a frame.
    pub fn extract_request_id(frame: &Frame) -> (r: Option<i64>)
        ensures
            r == request_id_of(frame@),
    {
        match frame.message_type {
            MessageType::RpcResponse | MessageType::RpcFailure => {
                if buffers::bytes_len(&frame.message) >= 8 {
                    assert(buffers::octets(frame.message).subrange(0, 8) =~= buffers::octets(
                        frame.message,
                    ).take(8));
                    Some(wire::read_i64(buffers::bytes_as_slice(&frame.message), 0))
                } else {
                    None
                }
            },
            _ => None,
        }
    }

    /// Extract the stream ID from a frame that answers a chunk request.
    pub fn extract_stream_id(frame: &Frame) -> (r: Option<i64>)
        ensures
            r == stream_id_of(frame@),
    {
        match frame.message_type {
            MessageType::ChunkFetchSuccess | MessageType::ChunkFetchFailure => {
                if buffers::bytes_len(&frame.message) >= 8 {
                    assert(buffers::octets(frame.message).subrange(0, 8) =~= buffers::octets(
                        frame.message,
                    ).take(8));
                    Some(wire::read_i64(buffers::bytes_as_slice(&frame.message), 0))
                } else {
                    None
                }
            },
            _ => None,
        }
    }

    /// What is left once a push was handed over.
    pub open spec fn awaits_push(
        &self,
        after: &Connection,
        request_id: i64,
        r: Result<()>,
    ) -> bool {
        &&& after.active == self.active
        &&& after.request_ids == self.request_ids
        &&& after.chunk_requests == self.chunk_requests
        &&& if self.active {
            &&& r is Ok
            &&& after.pending_requests@ == self.pending_requests@.insert(request_id)
        } else {
            &&& r matches Err(CelebornError::Connection(m))
            &&& m@ == "Connection is closed"@
            &&& after.pending_requests@ == self.pending_requests@
        }
    }

    /// Opens a push that the caller has numbered. A closed connection takes none.
    pub fn send_push_data(&mut self, request_id: i64) -> (r: Result<()>)
        ensures
            old(self).awaits_push(final(self), request_id, r),
    {
        if !self.active {
            return Err(CelebornError::Connection("Connection is closed".to_owned()));
        }
        self.pending_requests.insert(request_id);
        Ok(())
    }

    /// The request that is sent, and what is left once it was.
    pub open spec fn sends(
        &self,
        after: &Connection,
        body: Bytes,
        r: Result<(i64, Frame)>,
    ) -> bool {
        if self.active {
            let id = wire::signed64(self.request_ids.next as nat);
            &&& r matches Ok(s)
            &&& s.0 == id
            &&& s.1@ == rpc_frame(id, buffers::octets(body))
            &&& after.pending_requests@ == self.pending_requests@.insert(id)
            &&& after.chunk_requests == self.chunk_requests
            &&& after.request_ids.next == self.request_ids.next.wrapping_add(1)
            &&& after.active
        } else {
            &&& r matches Err(CelebornError::Connection(m))
            &&& m@ == "Connection is closed"@
            &&& *after == *self
        }
    }

    /// Opens an RPC request: its id and the frame to send. A closed connection takes none.
    pub fn send_rpc(&mut self, body: Bytes) -> (r: Result<(i64, Frame)>)
        requires
            buffers::octets(body).len() + 13 <= isize::MAX,
        ensures
            old(self).sends(final(self), body, r),
    {
        if !self.active {
            return Err(CelebornError::Connection("Connection is closed".to_owned()));
        }
        let request_id: i64 = wire::to_signed64(self.request_ids.next_request_id());
        let ghost content = buffers::octets(body);
        broadcast use wire::lemma_be_len;
        let request: RpcRequest = RpcRequest::new(request_id, body);
        let encoded: Bytes = buffers::buffer_freeze(request.encode_to_bytes());
        let len: usize = buffers::bytes_len(&encoded);
        let frame: Frame = Frame::new(
            MessageType::RpcRequest,
            buffers::bytes_slice(&encoded, 1, len),
        );
        assert(frame@.message =~= rpc_frame(request_id, content).message);
        self.pending_requests.insert(request_id);
        Ok((request_id, frame))
    }

    /// The request for a chunk that is sent, and what is left once it was.
    pub open spec fn asks_for_chunk(
        &self,
        after: &Connection,
        body: Bytes,
        stream_id: i64,
        r: Result<(i64, Frame)>,
    ) -> bool {
        if self.active {
            let id = wire::signed64(self.request_ids.next as nat);
            &&& r matches Ok(s)
            &&& s.0 == id
            &&& s.1@ == rpc_frame(id, buffers::octets(body))
            &&& after.pending_requests@ == self.pending_requests@.insert(id)
            &&& after.chunk_requests@ == self.chunk_requests@.push(
                ChunkRequest { stream_id, request_id: id },
            )
            &&& after.request_ids.next == self.request_ids.next.wrapping_add(1)
            &&& after.active
        } else {
            &&& r matches Err(CelebornError::Connection(m))
            &&& m@ == "Connection is closed"@
            &&& *after == *self
        }
    }

    /// Opens a request for a chunk of a stream: its id and the frame to send. A closed
    /// connection takes none.
    pub fn fetch_chunk(&mut self, body: Bytes, stream_id: i64) -> (r: Result<(i64, Frame)>)
        requires
            buffers::octets(body).len() + 13 <= isize::MAX,
        ensures
            old(self).asks_for_chunk(final(self), body, stream_id, r),
    {
        match self.send_rpc(body) {
            Ok((request_id, frame)) => {
                self.chunk_requests.push(ChunkRequest { stream_id, request_id });
                Ok((request_id, frame))
            },
            Err(e) => Err(e),
        }
    }

    /// The oldest request for a chunk of a stream.
    fn oldest_chunk_request(&self, stream_id: i64) -> (r: Option<i64>)
        ensures
            r == oldest_for(self.chunk_requests@, stream_id),
    {
        let mut n: usize = 0;
        while n < self.chunk_requests.len()
            invariant
                n <= self.chunk_requests@.len(),
                forall|j: int|
                    0 <= j < n ==> (#[trigger] self.chunk_requests@[j]).stream_id != stream_id,
            decreases self.chunk_requests@.len() - n,
        {
            if self.chunk_requests[n].stream_id == stream_id {
                proof {
                    lemma_oldest_at(self.chunk_requests@, stream_id, n as int);
                }
                return Some(self.chunk_requests[n].request_id);
            }
            n = n + 1;
        }
        proof {
            lemma_oldest_at(self.chunk_requests@, stream_id, n as int);
        }
        None
    }

    /// Gives a request up.
    fn give_up(&mut self, request_id: i64)
        ensures
            final(self).gives_up(old(self), request_id),
    {
        self.pending_requests.remove(&request_id);
        let ghost requests = self.chunk_requests@;
        let ghost keeps = |c: ChunkRequest| c.request_id != request_id;
        let mut kept: Vec<ChunkRequest> = Vec::new();
        let mut n: usize = 0;
        while n < self.chunk_requests.len()
            invariant
                n <= self.chunk_requests@.len(),
                self.chunk_requests@ == requests,
                keeps == (|c: ChunkRequest| c.request_id != request_id),
                kept@ == requests.take(n as int).filter(keeps),
            decreases self.chunk_requests@.len() - n,
        {
            let request: ChunkRequest = self.chunk_requests[n];
            proof {
                let taken = requests.take(n + 1);
                assert(taken.drop_last() =~= requests.take(n as int));
                assert(taken.last() == request);
                reveal(Seq::filter);
            }
            if request.request_id != request_id {
                kept.push(request);
            }
            n = n + 1;
        }
        assert(requests.take(n as int) =~= requests);
        self.chunk_requests = kept;
    }

    /// The pending request that a frame answers; it is pending no more.
    pub fn frame_received(&mut self, frame: &Frame) -> (r: Option<i64>)
        ensures
            r == old(self).answered(frame@),
            match r {
                Some(id) => final(self).gives_up(old(self), id),
                None => *final(self) == *old(self),
            },
    {
        let answered: Option<i64> = match Self::extract_request_id(frame) {
            Some(id) => {
                if self.pending_requests.contains(&id) {
                    Some(id)
                } else {
                    None
                }
            },
            None => match Self::extract_stream_id(frame) {
                Some(stream_id) => self.oldest_chunk_request(stream_id),
                None => None,
            },
        };
        if let Some(id) = answered {
            self.give_up(id);
        }
        answered
    }

    /// The end of the stream of frames: no request is pending any more.
    pub fn stream_ended(&mut self)
        ensures
            final(self).pending_requests@ == Set::<i64>::empty(),
            final(self).chunk_requests@ == Seq::<ChunkRequest>::empty(),
            final(self).active == old(self).active,
            final(self).request_ids == old(self).request_ids,
    {
        self.pending_requests.clear();
        self.chunk_requests.clear();
    }

    /// Gives a request up whose answer was dropped.
    pub fn request_cancelled(&mut self, request_id: i64) -> (e: CelebornError)
        ensures
            e matches CelebornError::Connection(m) && m@ == "Request cancelled"@,
            final(self).gives_up(old(self), request_id),
    {
        self.give_up(request_id);
        CelebornError::Connection("Request cancelled".to_owned())
    }

    /// Gives a request up that was not answered in time.
    pub fn request_timed_out(&mut self, request_id: i64, timeout: &Duration) -> (e: CelebornError)
        ensures
            e == CelebornError::Timeout(time::millis(*timeout) as u64),
            final(self).gives_up(old(self), request_id),
    {
        self.give_up(request_id);
        CelebornError::Timeout(time::as_millis_u64(timeout))
    }

    /// Whether a one-way message (no response expected) may be sent.
    pub fn send_one_way(&self) -> (r: Result<()>)
        ensures
            if self.active {
                r is Ok
            } else {
                r matches Err(CelebornError::Connection(m)) && m@ == "Connection is closed"@
            },
    {
        if !self.active {
            return Err(CelebornError::Connection("Connection is closed".to_owned()));
        }
        Ok(())
    }

    /// Check if the connection is active.
    pub fn is_active(&self) -> (r: bool)
        ensures
            r == self.active,
    {
        self.active
    }

    /// Close the connection.
    pub fn close(&mut self)
        ensures
            *final(self) == (Connection { active: false, ..*old(self) }),
    {
        self.active = false;
    }
}

/// The connections to one address, by the numbers that the caller gave them.
pub struct PoolEntry {
    pub connections: Vec<u64>,
    /// Round-robin index for connection selection
    pub rr_index: u64,
}

impl PoolEntry {
    /// The place of the connection whose turn it is.
    pub open spec fn turn(&self) -> int {
        ((self.rr_index as usize) as int) % (self.connections@.len() as int)
    }
}

/// As long as the index does not wrap, as many requests in a row as there are connections to
/// an address go over different connections.
pub proof fn law_connections_take_turns(e: PoolEntry, i: int, j: int)
    requires
        0 <= i < j < e.connections@.len(),
        e.rr_index + j <= usize::MAX,
        e.rr_index + j <= u64::MAX,
    ensures
        (PoolEntry { rr_index: (e.rr_index + i) as u64, ..e }).turn() != (PoolEntry {
            rr_index: (e.rr_index + j) as u64,
            ..e
        }).turn(),
{
    master_rpc::lemma_turns_differ(e.rr_index as int, i, j, e.connections@.len() as int);
}

/// The connections that a map holds for each address.
pub uninterp spec fn pool_entries(m: DashMap<String, PoolEntry>) -> Map<Seq<char>, PoolEntry>;

/// `DashMap::new`: a map without entries.
#[verifier::external_body]
fn map_new() -> (r: DashMap<String, PoolEntry>)
    ensures
        pool_entries(r).dom() == Set::<Seq<char>>::empty(),
{
    DashMap::new()
}

/// `DashMap::insert`: sets the value of a key, in place of one that it had.
#[verifier::external_body]
fn map_insert(m: &mut DashMap<String, PoolEntry>, addr: String, entry: PoolEntry)
    ensures
        pool_entries(*final(m)) == pool_entries(*old(m)).insert(addr@, entry),
{
    m.insert(addr, entry);
}

/// `DashMap::remove`: takes the entry of a key out and gives its value, if there is one.
#[verifier::external_body]
fn map_remove(m: &mut DashMap<String, PoolEntry>, addr: &str) -> (r: Option<PoolEntry>)
    ensures
        pool_entries(*final(m)) == pool_entries(*old(m)).remove(addr@),
        match r {
            Some(e) => pool_entries(*old(m)).dom().contains(addr@) && e == pool_entries(
                *old(m),
            )[addr@],
            None => !pool_entries(*old(m)).dom().contains(addr@),
        },
{
    m.remove(addr).map(|(_, e)| e)
}

/// `DashMap::iter`: walks over the entries, each once, in an order that is not described;
/// here their keys.
#[verifier::external_body]
fn map_keys(m: &DashMap<String, PoolEntry>) -> (r: Vec<String>)
    ensures
        tables::texts(r@).no_duplicates(),
        tables::texts(r@).to_set() == pool_entries(*m).dom(),
{
    m.iter().map(|entry| entry.key().clone()).collect()
}

/// The numbers of the connections to several addresses.
pub open spec fn pooled(m: Map<Seq<char>, PoolEntry>, addresses: Seq<Seq<char>>) -> Seq<u64>
    decreases addresses.len(),
{
    if addresses.len() == 0 {
        Seq::<u64>::empty()
    } else {
        pooled(m, addresses.drop_last()) + m[addresses.last()].connections@
    }
}

/// The numbers of all connections, address by address.
pub open spec fn all_pooled(m: Map<Seq<char>, PoolEntry>, numbers: Seq<u64>) -> bool {
    exists|addresses: Seq<Seq<char>>| #[trigger]
        addresses.no_duplicates() && addresses.to_set() == m.dom() && numbers == pooled(m, addresses)
}

/// How the opening of the connections of a pool goes on.
pub enum ConnectTurn {
    /// Open another connection
    Connect,
    /// Enough are open
    Done,
    /// The first one failed
    Fail(CelebornError),
}

/// Connection pool for managing multiple connections to servers.
pub struct ConnectionPool {
    /// Connections by address
    pub connections: DashMap<String, PoolEntry>,
    /// Pool size per address
    pub pool_size: usize,
    /// Maximum in-flight requests per connection
    pub max_in_flight: usize,
}

impl ConnectionPool {
    /// What is known of each address.
    pub open spec fn entries(&self) -> Map<Seq<char>, PoolEntry> {
        pool_entries(self.connections)
    }

    /// Create a new connection pool.
    pub fn new(pool_size: usize, max_in_flight: usize) -> (r: Self)
        ensures
            r.entries() == Map::<Seq<char>, PoolEntry>::empty(),
            r.pool_size == pool_size,
            r.max_in_flight == max_in_flight,
    {
        let r: ConnectionPool = ConnectionPool { connections: map_new(), pool_size, max_in_flight };
        assert(r.entries() =~= Map::<Seq<char>, PoolEntry>::empty());
        r
    }

    /// The connection to an address whose turn it is, and what is left once it was given.
    pub open spec fn gives(&self, after: &ConnectionPool, addr: &str, r: Option<u64>) -> bool {
        &&& after.pool_size == self.pool_size
        &&& after.max_in_flight == self.max_in_flight
        &&& if self.entries().dom().contains(addr@) {
            let e = self.entries()[addr@];
            &&& r == Some(e.connections@[e.turn()])
            &&& after.entries() == self.entries().insert(
                addr@,
                PoolEntry { rr_index: e.rr_index.wrapping_add(1), ..e },
            )
        } else {
            r is None && after.entries() == self.entries()
        }
    }

    /// The connection whose turn it is; the caller uses it where it is active, and opens
    /// new ones else. An address without an entry has none.
    pub fn get_connection(&mut self, addr: &str) -> (r: Option<u64>)
        requires
            old(self).entries().dom().contains(addr@) ==> old(self).entries()[addr@].connections@.len() > 0,
        ensures
            old(self).gives(final(self), addr, r),
    {
        match map_remove(&mut self.connections, addr) {
            Some(entry) => {
                let mut e: PoolEntry = entry;
                let n: usize = e.connections.len();
                let idx: usize = (e.rr_index as usize) % n;
                let chosen: u64 = e.connections[idx];
                e.rr_index = e.rr_index.wrapping_add(1);
                map_insert(&mut self.connections, addr.to_owned(), e);
                assert(self.entries() =~= old(self).entries().insert(addr@, e));
                Some(chosen)
            },
            None => {
                assert(self.entries() =~= old(self).entries());
                None
            },
        }
    }

    /// Whether another connection is opened.
    pub open spec fn opens_on(
        &self,
        open: usize,
        failure: Option<CelebornError>,
        r: ConnectTurn,
    ) -> bool {
        match failure {
            Some(e) => if open == 0 {
                r == ConnectTurn::Fail(e)
            } else {
                r is Done
            },
            None => if open < self.pool_size {
                r is Connect
            } else {
                r is Done
            },
        }
    }

    /// How many connections are to be opened to an address, one after the other. A failure
    /// ends it; where no connection is open yet, it is the error of all.
    pub fn connect_turn(&self, open: usize, failure: Option<CelebornError>) -> (r: ConnectTurn)
        ensures
            self.opens_on(open, failure, r),
    {
        match failure {
            Some(e) => {
                if open == 0 {
                    ConnectTurn::Fail(e)
                } else {
                    ConnectTurn::Done
                }
            },
            None => {
                if open < self.pool_size {
                    ConnectTurn::Connect
                } else {
                    ConnectTurn::Done
                }
            },
        }
    }

    /// What is left once connections to an address were opened.
    pub open spec fn keeps(
        &self,
        after: &ConnectionPool,
        addr: &str,
        opened: Vec<u64>,
        r: Result<u64>,
    ) -> bool {
        &&& after.pool_size == self.pool_size
        &&& after.max_in_flight == self.max_in_flight
        &&& after.entries() == self.entries().insert(
            addr@,
            PoolEntry { connections: opened, rr_index: 0 },
        )
        &&& if opened@.len() > 0 {
            r == Ok::<u64, CelebornError>(opened@[0])
        } else {
            r matches Err(CelebornError::Connection(m)) && m@ == "Failed to get connection"@
        }
    }

    /// Takes the connections in that were opened to an address, in place of earlier ones.
    /// Gives the first of them.
    pub fn create_connections(&mut self, addr: &str, opened: Vec<u64>) -> (r: Result<u64>)
        ensures
            old(self).keeps(final(self), addr, opened, r),
    {
        let first: Result<u64> = if opened.len() > 0 {
            Ok(opened[0])
        } else {
            Err(CelebornError::Connection("Failed to get connection".to_owned()))
        };
        map_insert(
            &mut self.connections,
            addr.to_owned(),
            PoolEntry { connections: opened, rr_index: 0 },
        );
        first
    }

    /// What is left once the connections to an address were removed.
    pub open spec fn drops(&self, after: &ConnectionPool, addr: &str, r: Vec<u64>) -> bool {
        &&& after.pool_size == self.pool_size
        &&& after.max_in_flight == self.max_in_flight
        &&& after.entries() == self.entries().remove(addr@)
        &&& if self.entries().dom().contains(addr@) {
            r == self.entries()[addr@].connections
        } else {
            r@.len() == 0
        }
    }

    /// Remove all connections to the given address. They are to be closed.
    pub fn remove_connections(&mut self, addr: &str) -> (r: Vec<u64>)
        ensures
            old(self).drops(final(self), addr, r),
    {
        match map_remove(&mut self.connections, addr) {
            Some(entry) => entry.connections,
            None => {
                assert(self.entries() =~= old(self).entries().remove(addr@));
                Vec::new()
            },
        }
    }

    /// Close all connections. Gives those that are to be closed.
    pub fn close_all(&mut self) -> (r: Vec<u64>)
        ensures
            final(self).pool_size == old(self).pool_size,
            final(self).max_in_flight == old(self).max_in_flight,
            final(self).entries() == Map::<Seq<char>, PoolEntry>::empty(),
            all_pooled(old(self).entries(), r@),
    {
        let addresses: Vec<String> = map_keys(&self.connections);
        let ghost keys = tables::texts(addresses@);
        let ghost start = self.entries();
        let n: usize = addresses.len();
        let mut out: Vec<u64> = Vec::new();
        let mut i: usize = 0;
        proof {
            assert(keys.take(0) =~= Seq::<Seq<char>>::empty());
            assert(keys.skip(0) =~= keys);
            assert forall|a: Seq<char>| #[trigger] start.dom().contains(a) == keys.contains(a) by {
                assert(keys.to_set().contains(a) == keys.contains(a));
            }
        }
        while i < n
            invariant
                n == addresses@.len(),
                i <= n,
                keys == tables::texts(addresses@),
                keys.no_duplicates(),
                keys.to_set() == start.dom(),
                self.pool_size == old(self).pool_size,
                self.max_in_flight == old(self).max_in_flight,
                forall|a: Seq<char>| #[trigger]
                    self.entries().dom().contains(a) == keys.skip(i as int).contains(a),
                forall|a: Seq<char>| #[trigger]
                    self.entries().dom().contains(a) ==> start.dom().contains(a)
                        && self.entries()[a] == start[a],
                out@ == pooled(start, keys.take(i as int)),
            decreases n - i,
        {
            let ghost before = self.entries();
            let ghost left = keys.skip(i as int);
            let ghost key = keys[i as int];
            proof {
                assert(left[0] == key);
                assert(left.contains(key));
                assert(before.dom().contains(key));
                let t = keys.take(i + 1);
                assert(t.drop_last() =~= keys.take(i as int));
                assert(t.last() == key);
            }
            match map_remove(&mut self.connections, addresses[i].as_str()) {
                Some(entry) => {
                    out.extend_from_slice(entry.connections.as_slice());
                },
                None => {},
            }
            proof {
                assert forall|a: Seq<char>| #[trigger]
                    self.entries().dom().contains(a) == keys.skip(i + 1).contains(a) by {
                    assert(keys.skip(i + 1) =~= left.skip(1));
                    if left.contains(a) && a != key {
                        let k = choose|k: int| 0 <= k < left.len() && left[k] == a;
                        assert(left.skip(1)[k - 1] == a);
                    }
                    if left.skip(1).contains(a) {
                        let k = choose|k: int| 0 <= k < left.skip(1).len() && left.skip(1)[k] == a;
                        assert(left[k + 1] == a);
                        assert(keys[i + k + 1] == a);
                        assert(a != key);
                    }
                }
            }
            i += 1;
        }
        proof {
            assert(keys.take(n as int) =~= keys);
            assert(keys.skip(n as int) =~= Seq::<Seq<char>>::empty());
            assert(self.entries() =~= Map::<Seq<char>, PoolEntry>::empty());
            assert(keys.no_duplicates() && keys.to_set() == start.dom() && out@ == pooled(
                start,
                keys,
            ));
        }
        out
    }
}

} // verus!
