//! Transport client for RPC communication with the master and the workers: where a
//! request goes, and what its answer says. The exchange itself is left to the caller.

use bytes::Bytes;
use vstd::prelude::*;
use vstd::slice::slice_subrange;
use vstd::string::*;
use vstd::utf8;

use crate::buffers;
use crate::config;
use crate::config::CelebornConfig;
use crate::error::{CelebornError, Result, StatusCode};
use crate::network::codec::{Frame, FrameModel};
use crate::network::connection;
use crate::network::connection::{ConnectionPool, PoolEntry};
use crate::network::master_rpc::{Masters, SocketAddress};
use crate::protocol::message;
use crate::protocol::message::MessageType;
use crate::protocol::transport;
use crate::protocol::transport::TransportMessageType;
use crate::text;
use crate::wire;

verus! {

/// The text that `String::from_utf8_lossy` reads from bytes.
pub uninterp spec fn lossy_text(bytes: Seq<u8>) -> Seq<char>;

/// `String::from_utf8_lossy`: the text that the bytes encode in UTF-8. Where they encode
/// none, replacement characters stand in it, which is not described further.
#[verifier::external_body]
pub(crate) fn string_from_utf8_lossy(bytes: &[u8]) -> (r: String)
    ensures
        r@ == lossy_text(bytes@),
        utf8::valid_utf8(bytes@) ==> r@ == utf8::decode_utf8(bytes@),
{
    String::from_utf8_lossy(bytes).to_string()
}

/// The endpoints that could be resolved.
pub open spec fn resolved_only(s: Seq<Option<SocketAddress>>) -> Seq<SocketAddress>
    decreases s.len(),
{
    if s.len() == 0 {
        Seq::<SocketAddress>::empty()
    } else {
        match s.last() {
            Some(a) => resolved_only(s.drop_last()).push(a),
            None => resolved_only(s.drop_last()),
        }
    }
}

/// The length of the error text that a failure announces.
pub open spec fn failure_length(f: FrameModel) -> int {
    wire::signed32(wire::be_nat(f.message.subrange(8, 12))) as int
}

/// Whether the announced length of an error text does not lead back into the message.
pub open spec fn failure_readable(f: FrameModel) -> bool {
    f.message_type is RpcFailure && f.message.len() >= 12 ==> !(-12 <= failure_length(f) < 0)
}

/// What the frame of an answer says: the payload, or the error that it stands for.
pub open spec fn answers(r: Result<Bytes>, f: FrameModel) -> bool {
    match f.message_type {
        MessageType::RpcResponse => if f.body.len() < 4 {
            r matches Err(CelebornError::Protocol(m)) && m@ == "Response body too short"@
        } else {
            r matches Ok(b) && buffers::octets(b) == f.body.skip(4)
        },
        MessageType::RpcFailure => if f.message.len() < 12 {
            r matches Err(CelebornError::Protocol(m)) && m@ == "RPC failure response too short"@
        } else {
            r matches Err(CelebornError::ServerError { status, message }) && status
                == StatusCode::RequestFailed && message@ == failure_message(f)
        },
        _ => r matches Err(CelebornError::Protocol(m)) && m@ == "Unexpected response type: "@
            + message::type_label(f.message_type),
    }
}

/// The error text of a failure.
pub open spec fn failure_message(f: FrameModel) -> Seq<char> {
    let n = failure_length(f);
    if 0 <= n && 12 + n <= f.message.len() {
        lossy_text(f.message.subrange(12, 12 + n))
    } else {
        "Unknown error"@
    }
}

/// Transport client for communicating with Celeborn servers.
pub struct TransportClient {
    /// Configuration
    pub config: CelebornConfig,
    /// Connection pool
    pub connection_pool: ConnectionPool,
    /// Master endpoints
    pub master_endpoints: Vec<SocketAddress>,
    /// Which of them requests go to
    pub masters: Masters,
}

impl TransportClient {
    /// Every master has an endpoint.
    pub open spec fn wf(&self) -> bool {
        &&& self.masters.wf()
        &&& self.masters.count == self.master_endpoints@.len()
    }

    /// Create a new transport client. `resolved` holds what each configured endpoint was
    /// resolved to.
    pub fn new(config: CelebornConfig, resolved: Vec<Option<SocketAddress>>) -> (r: Result<Self>)
        ensures
            if resolved_only(resolved@).len() == 0 {
                r matches Err(CelebornError::Config(m)) && m@ == "No valid master endpoints"@
            } else {
                &&& r matches Ok(c)
                &&& c.wf()
                &&& c.config == config
                &&& c.master_endpoints@ == resolved_only(resolved@)
                &&& c.masters.index == 0
                &&& c.masters.max_retries == config.max_retries
                &&& c.connection_pool.pool_size == config.connection_pool_size
                &&& c.connection_pool.max_in_flight == config.max_in_flight_requests
                &&& c.connection_pool.entries() == Map::<Seq<char>, PoolEntry>::empty()
            },
    {
        let ghost all = resolved@;
        let mut rest: Vec<Option<SocketAddress>> = resolved;
        let n: usize = rest.len();
        let mut master_endpoints: Vec<SocketAddress> = Vec::new();
        let mut i: usize = 0;
        assert(all.take(0) =~= Seq::<Option<SocketAddress>>::empty());
        while i < n
            invariant
                n == all.len(),
                i <= n,
                rest@ == all.skip(i as int),
                master_endpoints@ == resolved_only(all.take(i as int)),
            decreases n - i,
        {
            proof {
                let t = all.take(i + 1);
                assert(t.drop_last() =~= all.take(i as int));
                assert(t.last() == all[i as int]);
            }
            let endpoint: Option<SocketAddress> = rest.remove(0);
            assert(rest@ =~= all.skip(i + 1));
            match endpoint {
                Some(a) => {
                    master_endpoints.push(a);
                },
                None => {},
            }
            i += 1;
        }
        assert(all.take(n as int) =~= all);
        if master_endpoints.len() == 0 {
            return Err(CelebornError::Config("No valid master endpoints".to_owned()));
        }
        let connection_pool: ConnectionPool = ConnectionPool::new(
            config.connection_pool_size,
            config.max_in_flight_requests,
        );
        let masters: Masters = Masters {
            count: master_endpoints.len(),
            index: 0,
            max_retries: config.max_retries as u64,
        };
        Ok(TransportClient { config, connection_pool, master_endpoints, masters })
    }

    /// Get the current master endpoint.
    pub fn current_master(&self) -> (r: &SocketAddress)
        requires
            self.wf(),
        ensures
            *r == self.master_endpoints@[self.masters.current()],
    {
        &self.master_endpoints[self.masters.current_master()]
    }

    /// The payload of an RPC: the number of its type, then the request.
    pub fn rpc_payload(message_type: TransportMessageType, request: &[u8]) -> (r: Bytes)
        ensures
            buffers::octets(r) == wire::be_i32(transport::transport_code(message_type) as i32)
                + request@,
    {
        let mut payload: Vec<u8> = Vec::new();
        wire::push_i32(&mut payload, message_type.code());
        payload.extend_from_slice(request);
        assert(payload@ =~= wire::be_i32(transport::transport_code(message_type) as i32) + request@);
        buffers::bytes_from_vec(payload)
    }

    /// The error for an address that cannot be resolved, with the reason where there is one.
    pub fn unresolved(addr: &str, reason: Option<&str>) -> (e: CelebornError)
        ensures
            match reason {
                Some(why) => e matches CelebornError::Connection(m) && m@ == "Invalid address "@ + addr@
                    + ": "@ + why@,
                None => e matches CelebornError::Connection(m) && m@ == "Cannot resolve "@ + addr@,
            },
    {
        match reason {
            Some(why) => {
                let mut m: String = text::join("Invalid address ", addr);
                m.append(": ");
                m.append(why);
                CelebornError::Connection(m)
            },
            None => CelebornError::Connection(text::join("Cannot resolve ", addr)),
        }
    }

    /// Decode an RPC response: the payload behind the type number of the body.
    ///
    /// For RPC failure, the error message is in the message content:
    /// request_id (8 bytes) + error_string_length (4 bytes) + error_string
    pub fn decode_response(frame: &Frame) -> (r: Result<Bytes>)
        requires
            failure_readable(frame@),
        ensures
            answers(r, frame@),
    {
        match frame.message_type {
            MessageType::RpcResponse => {
                let len: usize = buffers::bytes_len(&frame.body);
                if len < 4 {
                    return Err(CelebornError::Protocol("Response body too short".to_owned()));
                }
                let payload: Bytes = buffers::bytes_slice(&frame.body, 4, len);
                assert(buffers::octets(payload) =~= frame@.body.skip(4));
                Ok(payload)
            },
            MessageType::RpcFailure => {
                let content: &[u8] = buffers::bytes_as_slice(&frame.message);
                let len: usize = content.len();
                if len < 12 {
                    return Err(CelebornError::Protocol("RPC failure response too short".to_owned()));
                }
                let error_len: i32 = wire::read_i32(content, 8);
                let message: String = if error_len >= 0 && error_len as usize <= len - 12 {
                    string_from_utf8_lossy(slice_subrange(content, 12, 12 + error_len as usize))
                } else {
                    "Unknown error".to_owned()
                };
                Err(CelebornError::ServerError { status: StatusCode::RequestFailed, message })
            },
            _ => Err(
                CelebornError::Protocol(
                    text::join("Unexpected response type: ", frame.message_type.name()),
                ),
            ),
        }
    }

    /// Whether the length in a failure can be read.
    pub fn can_decode_response(frame: &Frame) -> (r: bool)
        ensures
            r == failure_readable(frame@),
    {
        match frame.message_type {
            MessageType::RpcFailure => {
                let content: &[u8] = buffers::bytes_as_slice(&frame.message);
                if content.len() < 12 {
                    return true;
                }
                let n: i32 = wire::read_i32(content, 8);
                n < -12 || n >= 0
            },
            _ => true,
        }
    }

    /// Close all connections. Gives those that are to be closed.
    pub fn close(&mut self) -> (r: Vec<u64>)
        requires
            old(self).wf(),
        ensures
            final(self).wf(),
            final(self).connection_pool.entries() == Map::<Seq<char>, PoolEntry>::empty(),
            final(self).config == old(self).config,
            final(self).master_endpoints == old(self).master_endpoints,
            final(self).masters == old(self).masters,
            connection::all_pooled(old(self).connection_pool.entries(), r@),
    {
        self.connection_pool.close_all()
    }
}

/// Factory for creating transport clients.
pub struct TransportClientFactory {
    pub config: CelebornConfig,
}

impl TransportClientFactory {
    /// Create a new factory.
    pub fn new(config: CelebornConfig) -> (r: Self)
        ensures
            r.config == config,
    {
        TransportClientFactory { config }
    }

    /// Create a new transport client.
    pub fn create_client(&self, resolved: Vec<Option<SocketAddress>>) -> (r: Result<TransportClient>)
        ensures
            if resolved_only(resolved@).len() == 0 {
                r matches Err(CelebornError::Config(m)) && m@ == "No valid master endpoints"@
            } else {
                &&& r matches Ok(c)
                &&& c.wf()
                &&& config::same_config(c.config, self.config)
                &&& c.master_endpoints@ == resolved_only(resolved@)
                &&& c.masters.index == 0
                &&& c.masters.max_retries == self.config.max_retries
            },
    {
        TransportClient::new(self.config.clone(), resolved)
    }

    /// Get the configuration.
    pub fn config(&self) -> (r: &CelebornConfig)
        ensures
            *r == self.config,
    {
        &self.config
    }
}

} // verus!
