//! The connection state machine and event loop. The client owns the receive
//! storage, the input and output event queues and the lifecycle state, and
//! decides every protocol step; the embedding application performs the
//! transport work (connect, read, write, shutdown) that each tick asks for
//! and hands the outcomes back.

use vstd::prelude::*;
use vstd::utf8::{encode_utf8, decode_utf8, valid_utf8};
use vstd::string::StringExecFns;
use std::collections::VecDeque;
use crate::extension::Extension;
use crate::frame::{
    Frame, FrameV, DataFrame, ControlFrame, FrameKind, bytes_to_frame, spec_parse_frame,
    FrameParse, wf_data_frame, wf_control_frame, spec_frame_header,
};
use crate::header::{FLAG, OPCODE, is_control_opcode};
use crate::http::{Request, Response, Method, spec_parse_response, spec_header_lookup};
use crate::key::{gen_key, verify_key, base64_of, spec_accept_hash};
use crate::result::{WebSocketError, WebSocketResult};
use crate::status_code::{spec_echo_status, evaulate_status_code, EXPECTED_STATUS_CODE,
    PROTOCOL_ERROR};
use crate::text::string_from_utf8;
use crate::traits::{Serialize, Parse};

verus! {

/// The lifecycle of a connection.
#[derive(Debug, Clone, Copy, PartialEq, Eq, Structural)]
pub enum ConnectionStatus {
    /// Constructed; no target configured yet.
    NotInit,
    /// `init` was called; the socket is not open yet.
    StartInit,
    /// Connected; the upgrade request is queued or sent, the response is
    /// awaited.
    Handshake,
    /// The upgrade was accepted; frames flow both ways.
    Open,
    /// The local side sent its CLOSE and awaits the peer's echo.
    ClientWantsToClose,
    /// The peer sent CLOSE; the local echo is queued.
    ServerWantsToClose,
    /// Terminal; the transport is shut down.
    Close,
}

/// Why a connection ended: the peer initiated the close, or the local side
/// did; each carries the close status code.
#[allow(non_camel_case_types)]
#[derive(Debug, Clone, Copy, PartialEq, Eq, Structural)]
pub enum Reason {
    SERVER_CLOSE(u16),
    CLIENT_CLOSE(u16),
}

/// What the client reports to the embedding application.
#[allow(non_camel_case_types)]
pub enum WSEvent {
    /// The handshake succeeded; carries the response body, if any.
    ON_CONNECT(Option<String>),
    /// A complete text message arrived.
    ON_TEXT(String),
    /// The close handshake completed.
    ON_CLOSE(Reason),
}

/// One unit of queued work: a frame or handshake text to transmit or react
/// to.
pub enum Event {
    WebSocketData(Frame),
    HttpResponse(Response),
    HttpRequest(Request),
    NoData,
}

/// What the transport produced for this tick's read.
#[derive(Debug)]
pub enum ReadInput {
    /// Bytes were read.
    Data(Vec<u8>),
    /// Nothing is ready right now; not an error.
    WouldBlock,
    /// The read returned zero bytes without blocking: the peer closed.
    Eof,
    /// The read failed for another reason.
    Failed,
}

/// What the embedding application must do after a call returns.
#[derive(Debug)]
pub enum Action {
    /// Nothing; call again on the next tick.
    Wait,
    /// Open the TCP connection to `host:port`, set it non-blocking, and
    /// report the outcome through `connect_result`.
    Connect,
    /// Attempt to write all of these bytes and report the outcome through
    /// `write_result`.
    Write(Vec<u8>),
    /// Shut the transport down; the connection is closed.
    Shutdown,
}

/// The connection state machine. It never performs I/O itself: `event_loop`
/// takes what the transport read and answers with the action to perform.
pub struct WSClient {
    pub host: String,
    pub port: u16,
    pub path: String,
    pub connection_status: ConnectionStatus,
    /// The frame-size limit applied when `send` chunks a message.
    pub message_size: u64,
    /// The close-handshake timeout, in seconds; used by the embedding loop.
    pub timeout_secs: u64,
    /// Bytes read from the socket that have not yet formed a complete frame
    /// or response.
    pub recv_storage: Vec<u8>,
    /// Payload bytes of the non-final fragments of the message in progress.
    pub recv_data: Vec<u8>,
    /// The subprotocol the server accepted, once the handshake is done.
    pub protocol: Option<String>,
    pub acceptable_protocols: Option<Vec<String>>,
    pub extensions: Vec<Extension>,
    pub input_events: VecDeque<Event>,
    pub output_events: VecDeque<Event>,
    pub websocket_key: String,
    /// The event whose serialized bytes the application is writing; put
    /// back at the queue front if the write would block.
    pub in_flight: Option<Event>,
    /// Events for the application, drained by `take_events`.
    pub user_events: Vec<WSEvent>,
}

/// The frame-size limit must allow progress: at least one byte per frame.
pub open spec fn wf_client(c: WSClient) -> bool {
    c.message_size >= 1
}

/// The payload chunks of a message under frame-size limit `k`: full `k`-byte
/// chunks, the last one holding what remains.
pub open spec fn spec_chunks(m: Seq<u8>, k: nat) -> Seq<Seq<u8>>
    decreases m.len(),
    when k >= 1
{
    if m.len() == 0 {
        Seq::empty()
    } else if m.len() <= k {
        seq![m]
    } else {
        seq![m.take(k as int)] + spec_chunks(m.skip(k as int), k)
    }
}

/// The concatenation of a sequence of byte strings.
pub open spec fn spec_concat(ss: Seq<Seq<u8>>) -> Seq<u8>
    decreases ss.len(),
{
    if ss.len() == 0 {
        Seq::empty()
    } else {
        ss[0] + spec_concat(ss.skip(1))
    }
}

/// Chunking splits a message without loss: the chunks concatenate back to
/// the message, and there are exactly as many as the ceiling of its length
/// over the limit.
pub proof fn lemma_chunks_exact(m: Seq<u8>, k: nat)
    requires
        k >= 1,
    ensures
        spec_concat(spec_chunks(m, k)) == m,
        spec_chunks(m, k).len() == (m.len() + k - 1) / (k as int),
    decreases m.len(),
{
    let cs = spec_chunks(m, k);
    if m.len() == 0 {
        assert(spec_concat(cs) =~= m);
        vstd::arithmetic::div_mod::lemma_basic_div((k - 1) as int, k as int);
    } else if m.len() <= k {
        assert(cs.skip(1) =~= Seq::<Seq<u8>>::empty());
        assert(spec_concat(cs.skip(1)) == Seq::<u8>::empty());
        assert(cs[0] == m);
        assert(spec_concat(cs) == m + Seq::<u8>::empty());
        assert(spec_concat(cs) =~= m);
        vstd::arithmetic::div_mod::lemma_fundamental_div_mod_converse(
            (m.len() + k - 1) as int,
            k as int,
            1,
            (m.len() - 1) as int,
        );
    } else {
        lemma_chunks_exact(m.skip(k as int), k);
        assert(cs.skip(1) =~= spec_chunks(m.skip(k as int), k));
        assert(spec_concat(cs) == m.take(k as int) + spec_concat(cs.skip(1)));
        assert(spec_concat(cs) =~= m);
        let rest_len = (m.len() - k) as int;
        vstd::arithmetic::div_mod::lemma_div_plus_one((rest_len + k - 1) as int, k as int);
        assert((m.len() + k - 1) as int == (rest_len + k - 1) + k);
    }
}

/// One delivery rule of the receiving side: each non-final chunk joins the
/// accumulator, the final one completes and delivers the message.
pub open spec fn spec_deliveries(acc: Seq<u8>, chunks: Seq<Seq<u8>>) -> Seq<Seq<u8>>
    decreases chunks.len(),
{
    if chunks.len() == 0 {
        Seq::empty()
    } else if chunks.len() == 1 {
        seq![acc + chunks[0]]
    } else {
        spec_deliveries(acc + chunks[0], chunks.skip(1))
    }
}

/// Fragmentation idempotence: a nonempty message chunked under any limit is
/// reassembled by the receiving rule into exactly one delivery holding the
/// original message, whatever the limit.
pub proof fn lemma_fragmentation_round_trip(m: Seq<u8>, k: nat)
    requires
        k >= 1,
        m.len() > 0,
    ensures
        spec_deliveries(Seq::empty(), spec_chunks(m, k)) == seq![m],
{
    lemma_deliveries_concat(Seq::empty(), spec_chunks(m, k));
    lemma_chunks_exact(m, k);
    assert(spec_chunks(m, k).len() > 0);
    assert(Seq::empty() + spec_concat(spec_chunks(m, k)) =~= m);
}

/// Delivering a nonempty chunk list yields one message: the accumulator
/// followed by every chunk in order.
proof fn lemma_deliveries_concat(acc: Seq<u8>, chunks: Seq<Seq<u8>>)
    requires
        chunks.len() > 0,
    ensures
        spec_deliveries(acc, chunks) == seq![acc + spec_concat(chunks)],
    decreases chunks.len(),
{
    if chunks.len() == 1 {
        assert(chunks.skip(1) =~= Seq::<Seq<u8>>::empty());
        assert(acc + (chunks[0] + spec_concat(chunks.skip(1))) =~= acc + chunks[0]);
    } else {
        lemma_deliveries_concat(acc + chunks[0], chunks.skip(1));
        assert((acc + chunks[0]) + spec_concat(chunks.skip(1)) =~= acc + (chunks[0] + spec_concat(
            chunks.skip(1),
        )));
    }
}

/// The event queued by `send` for chunk `i` of a message: a data frame over
/// exactly that chunk, `TEXT` first then `CONTINUATION`, `FIN` on the last
/// frame only, always masked.
pub open spec fn is_queued_chunk(e: Event, chunk: Seq<u8>, first: bool, last: bool) -> bool {
    &&& e matches Event::WebSocketData(f)
    &&& e->WebSocketData_0@ matches FrameV::Data(d)
    &&& wf_data_frame(e->WebSocketData_0@->Data_0)
    &&& e->WebSocketData_0@->Data_0.data == chunk
    &&& e->WebSocketData_0@->Data_0.header.code == (if first {
        OPCODE::TEXT
    } else {
        OPCODE::CONTINUATION
    })
    &&& e->WebSocketData_0@->Data_0.header.flag == (if last {
        FLAG::FIN
    } else {
        FLAG::NOFLAG
    })
    &&& e->WebSocketData_0@->Data_0.header.mask is Some
}

impl WSClient {
    /// A fresh client: no target, nothing queued, frame-size limit 1024 and
    /// close timeout 30 seconds.
    pub fn new() -> (r: WSClient)
        ensures
            wf_client(r),
            r.connection_status == ConnectionStatus::NotInit,
            r.message_size == 1024,
            r.timeout_secs == 30,
            r.recv_storage@.len() == 0,
            r.recv_data@.len() == 0,
            r.protocol is None,
            r.acceptable_protocols is None,
            r.input_events@.len() == 0,
            r.output_events@.len() == 0,
            r.websocket_key@.len() == 0,
            r.in_flight is None,
            r.user_events@.len() == 0,
    {
        WSClient {
            host: String::new(),
            port: 0,
            path: String::new(),
            connection_status: ConnectionStatus::NotInit,
            message_size: 1024,
            timeout_secs: 30,
            recv_storage: Vec::new(),
            recv_data: Vec::new(),
            protocol: None,
            acceptable_protocols: None,
            extensions: Vec::new(),
            input_events: VecDeque::new(),
            output_events: VecDeque::new(),
            websocket_key: String::new(),
            in_flight: None,
            user_events: Vec::new(),
        }
    }

    /// Configures the target and moves to `StartInit`; the first tick will
    /// then ask the application to connect.
    pub fn init(&mut self, host: &str, port: u16, path: &str, protocols: Option<Vec<String>>)
        ensures
            final(self).host@ == host@,
            final(self).port == port,
            final(self).path@ == path@,
            final(self).acceptable_protocols == protocols,
            final(self).connection_status == ConnectionStatus::StartInit,
            final(self).message_size == old(self).message_size,
            final(self).timeout_secs == old(self).timeout_secs,
            final(self).recv_storage == old(self).recv_storage,
            final(self).recv_data == old(self).recv_data,
            final(self).protocol == old(self).protocol,
            final(self).input_events == old(self).input_events,
            final(self).output_events == old(self).output_events,
            final(self).websocket_key == old(self).websocket_key,
            final(self).in_flight == old(self).in_flight,
            final(self).user_events == old(self).user_events,
    {
        self.host = host.to_owned();
        self.port = port;
        self.path = path.to_owned();
        self.acceptable_protocols = protocols;
        self.connection_status = ConnectionStatus::StartInit;
    }

    /// The subprotocol the server accepted, if it named one.
    pub fn protocol(&self) -> (r: Option<&str>)
        ensures
            match self.protocol {
                Some(_) => r matches Some(p) && p@ == self.protocol->0@,
                None => r is None,
            },
    {
        match &self.protocol {
            None => None,
            Some(p) => Some(p.as_str()),
        }
    }

    /// Sets the per-frame payload limit used by `send`; at least one byte,
    /// so that chunking makes progress.
    pub fn set_message_size(&mut self, size: u64)
        requires
            size >= 1,
        ensures
            *final(self) == (WSClient { message_size: size, ..*old(self) }),
    {
        self.message_size = size;
    }

    /// Sets the close-handshake timeout that the embedding loop applies.
    pub fn set_timeout(&mut self, timeout_secs: u64)
        ensures
            *final(self) == (WSClient { timeout_secs: timeout_secs, ..*old(self) }),
    {
        self.timeout_secs = timeout_secs;
    }

    /// Hands the application the events gathered since the last call.
    pub fn take_events(&mut self) -> (r: Vec<WSEvent>)
        ensures
            r == old(self).user_events,
            *final(self) == (WSClient { user_events: final(self).user_events, ..*old(self) }),
            final(self).user_events@.len() == 0,
    {
        let mut out: Vec<WSEvent> = Vec::new();
        core::mem::swap(&mut self.user_events, &mut out);
        out
    }

    /// Enqueues a text message as one or more data frames: the payload is
    /// cut into chunks of at most `message_size` bytes, the first frame is
    /// `TEXT` and the rest `CONTINUATION`, only the last carries `FIN`, and
    /// each is masked. A closed connection takes nothing.
    pub fn send(&mut self, payload: &str)
        requires
            wf_client(*old(self)),
        ensures
            *final(self) == (WSClient { output_events: final(self).output_events, ..*old(self) }),
            old(self).connection_status == ConnectionStatus::Close ==> final(self).output_events
                == old(self).output_events,
            old(self).connection_status != ConnectionStatus::Close ==> ({
                let chunks = spec_chunks(encode_utf8(payload@), old(self).message_size as nat);
                let base = old(self).output_events@.len();
                &&& final(self).output_events@.len() == base + chunks.len()
                &&& final(self).output_events@.take(base as int) == old(self).output_events@
                &&& forall|i: int|
                    0 <= i < chunks.len() ==> is_queued_chunk(
                        #[trigger] final(self).output_events@[base + i],
                        chunks[i],
                        i == 0,
                        i == chunks.len() - 1,
                    )
            }),
    {
        if self.connection_status == ConnectionStatus::Close {
            return ;
        }
        let bytes = payload.as_bytes();
        let n = bytes.len();
        let ghost m = encode_utf8(payload@);
        let ghost k = self.message_size as nat;
        let ghost base = self.output_events@.len();
        let ghost chunks = spec_chunks(m, k);
        proof {
            assert(m.skip(0) =~= m);
            assert(spec_chunks(m, k).skip(0) =~= spec_chunks(m, k));
        }
        let mut data_sent: usize = 0;
        let ghost mut j: int = 0;
        while data_sent < n
            invariant
                wf_client(*self),
                self.message_size == old(self).message_size,
                k == self.message_size as nat,
                m == encode_utf8(payload@),
                bytes@ == m,
                n == bytes@.len(),
                chunks == spec_chunks(m, k),
                0 <= j,
                data_sent == j * k || (data_sent >= n && j == chunks.len()),
                data_sent < n ==> data_sent == j * k,
                j <= chunks.len(),
                data_sent >= n ==> j == chunks.len(),
                spec_chunks(m.skip(data_sent as int), k) == chunks.skip(j),
                data_sent <= n,
                self.output_events@.len() == base + j,
                self.output_events@.take(base as int) == old(self).output_events@,
                forall|i: int|
                    0 <= i < j ==> is_queued_chunk(
                        #[trigger] self.output_events@[base + i],
                        chunks[i],
                        i == 0,
                        i == chunks.len() - 1,
                    ),
                self.connection_status == old(self).connection_status,
                self.host == old(self).host,
                self.port == old(self).port,
                self.path == old(self).path,
                self.timeout_secs == old(self).timeout_secs,
                self.recv_storage == old(self).recv_storage,
                self.recv_data == old(self).recv_data,
                self.protocol == old(self).protocol,
                self.acceptable_protocols == old(self).acceptable_protocols,
                self.extensions == old(self).extensions,
                self.input_events == old(self).input_events,
                self.websocket_key == old(self).websocket_key,
                self.in_flight == old(self).in_flight,
                self.user_events == old(self).user_events,
            decreases n - data_sent,
        {
            let k_exec: usize = if self.message_size > (usize::MAX as u64) {
                proof {
                    assert(n - data_sent <= usize::MAX);
                }
                usize::MAX
            } else {
                self.message_size as usize
            };
            let remaining = n - data_sent;
            let step: usize = if k_exec >= remaining {
                remaining
            } else {
                k_exec
            };
            let end = data_sent + step;
            let chunk = vstd::slice::slice_to_vec(
                vstd::slice::slice_subrange(bytes, data_sent, end),
            );
            let last = end >= n;
            let flag = if last {
                FLAG::FIN
            } else {
                FLAG::NOFLAG
            };
            let code = if data_sent == 0 {
                OPCODE::TEXT
            } else {
                OPCODE::CONTINUATION
            };
            let frame = DataFrame::new(flag, code, chunk, true, None);
            proof {
                let rest = m.skip(data_sent as int);
                assert(rest.len() == n - data_sent);
                if rest.len() <= k {
                    assert(chunks.skip(j) =~= seq![rest]);
                    assert(chunks.skip(j).len() == chunks.len() - j);
                    vstd::seq_lib::lemma_seq_skip_index(chunks, j, 0);
                    assert(chunks.skip(j)[0] == chunks[j]);
                    assert(chunks[j] == rest);
                    assert(chunk@ =~= rest);
                    assert(last);
                    assert(j == chunks.len() - 1);
                } else {
                    assert(chunks.skip(j) == seq![rest.take(k as int)] + spec_chunks(
                        rest.skip(k as int),
                        k,
                    ));
                    assert(spec_chunks(rest.skip(k as int), k).len() >= 1);
                    assert(chunks.skip(j).len() > 1);
                    assert(chunks.skip(j).len() == chunks.len() - j);
                    vstd::seq_lib::lemma_seq_skip_index(chunks, j, 0);
                    assert(chunks.skip(j)[0] == chunks[j]);
                    assert(chunks.skip(j)[0] == rest.take(k as int));
                    assert(chunks[j] == rest.take(k as int));
                    assert(chunk@ =~= rest.take(k as int));
                    assert(!last);
                    assert(j < chunks.len() - 1);
                }
                assert(data_sent == 0 <==> j == 0) by {
                    if j > 0 {
                        assert(data_sent == j * k);
                        assert(j * k >= 1 * k) by (nonlinear_arith)
                            requires
                                j >= 1,
                                k >= 1,
                        ;
                    }
                }
            }
            self.output_events.push_back(Event::WebSocketData(Frame::Data(frame)));
            proof {
                assert(self.output_events@.take(base as int) =~= old(self).output_events@);
                assert(self.output_events@[base + j] == Event::WebSocketData(
                    Frame::Data(frame),
                ));
            }
            let old_sent = data_sent;
            data_sent = if step == remaining {
                n
            } else {
                end
            };
            proof {
                let rest = m.skip(old_sent as int);
                if rest.len() <= k {
                    assert(data_sent >= n);
                    assert(chunks.skip(j + 1) =~= Seq::<Seq<u8>>::empty());
                    assert(spec_chunks(m.skip(data_sent as int), k) =~= chunks.skip(j + 1));
                } else {
                    assert(data_sent == end && end == old_sent + k);
                    assert((j + 1) * k == j * k + k) by (nonlinear_arith);
                    assert(m.skip(old_sent as int).skip(k as int) =~= m.skip(
                        old_sent as int + k as int,
                    ));
                    assert(chunks.skip(j).skip(1) =~= chunks.skip(j + 1));
                    assert(spec_chunks(m.skip(data_sent as int), k) == chunks.skip(j + 1));
                }
                j = j + 1;
            }
        }
        proof {
            if n == 0 {
                assert(chunks =~= Seq::<Seq<u8>>::empty());
            }
            assert(self.output_events@.take(base as int) =~= old(self).output_events@);
        }
    }
}

/// A control frame's stored data after the 125-byte bound is applied over
/// the status bytes it travels with.
pub open spec fn spec_control_data(data: Seq<u8>, status_bytes: nat) -> Seq<u8> {
    if data.len() + status_bytes <= 125 {
        data
    } else {
        data.take(125 - status_bytes)
    }
}

/// The event that answers a PING: a masked PONG control frame echoing the
/// PING's data (bounded at 125 bytes), with no status code.
pub open spec fn is_pong_echo(e: Event, data: Seq<u8>) -> bool {
    &&& e matches Event::WebSocketData(f)
    &&& e->WebSocketData_0@ matches FrameV::Control(c)
    &&& wf_control_frame(e->WebSocketData_0@->Control_0)
    &&& e->WebSocketData_0@->Control_0.header.code == OPCODE::PONG
    &&& e->WebSocketData_0@->Control_0.header.flag == FLAG::FIN
    &&& e->WebSocketData_0@->Control_0.header.mask is Some
    &&& e->WebSocketData_0@->Control_0.status_code is None
    &&& e->WebSocketData_0@->Control_0.data == spec_control_data(data, 0)
}

/// The event that echoes a CLOSE: a masked CLOSE control frame carrying the
/// given status code and the peer's reason (bounded at 125 bytes in all).
pub open spec fn is_close_echo(e: Event, status: u16, reason: Seq<u8>) -> bool {
    &&& e matches Event::WebSocketData(f)
    &&& e->WebSocketData_0@ matches FrameV::Control(c)
    &&& wf_control_frame(e->WebSocketData_0@->Control_0)
    &&& e->WebSocketData_0@->Control_0.header.code == OPCODE::CLOSE
    &&& e->WebSocketData_0@->Control_0.header.flag == FLAG::FIN
    &&& e->WebSocketData_0@->Control_0.header.mask is Some
    &&& e->WebSocketData_0@->Control_0.status_code == Some(status)
    &&& e->WebSocketData_0@->Control_0.data == spec_control_data(reason, 2)
}

/// The value of a response header, looked up by its lowercased name.
pub open spec fn spec_resp_header(rv: crate::http::ResponseV, name: Seq<char>) -> Option<
    Seq<char>,
> {
    match rv.headers {
        None => None,
        Some(hs) => spec_header_lookup(hs, crate::text::spec_lower(encode_utf8(name))),
    }
}

/// How one data frame advances the receiver: a non-final fragment joins the
/// accumulator; a final one completes the message, which is delivered as
/// UTF-8 text or rejected.
pub open spec fn spec_data_frame_step(
    pre: WSClient,
    post: WSClient,
    d: crate::frame::DataFrameV,
    r: Result<(), WebSocketError>,
) -> bool {
    if d.header.flag != FLAG::FIN {
        &&& r is Ok
        &&& post == (WSClient { recv_data: post.recv_data, ..pre })
        &&& post.recv_data@ == pre.recv_data@ + d.data
    } else {
        let joined = pre.recv_data@ + d.data;
        if valid_utf8(joined) {
            &&& r is Ok
            &&& post == (WSClient { recv_data: post.recv_data, user_events: post.user_events, ..pre })
            &&& post.recv_data@.len() == 0
            &&& post.user_events@.len() == pre.user_events@.len() + 1
            &&& post.user_events@.take(pre.user_events@.len() as int) == pre.user_events@
            &&& (post.user_events@.last() matches WSEvent::ON_TEXT(s) && s@ == decode_utf8(joined))
        } else {
            &&& r == Result::<(), WebSocketError>::Err(WebSocketError::DecodingFromUTF8)
            &&& post == pre
        }
    }
}

/// How one control frame advances the state machine: PING queues a PONG
/// echo at the output front, PONG is accepted and ignored, CLOSE while open
/// abandons all queued work and queues the close echo, CLOSE while the
/// local side awaits its echo completes the close, and a control frame with
/// a data opcode is rejected.
pub open spec fn spec_control_frame_step(
    pre: WSClient,
    post: WSClient,
    c: crate::frame::ControlFrameV,
    r: Result<bool, WebSocketError>,
) -> bool {
    if c.header.code == OPCODE::PING {
        &&& r == Result::<bool, WebSocketError>::Ok(false)
        &&& post == (WSClient { output_events: post.output_events, ..pre })
        &&& post.output_events@.len() == pre.output_events@.len() + 1
        &&& post.output_events@.skip(1) == pre.output_events@
        &&& is_pong_echo(post.output_events@[0], c.data)
    } else if c.header.code == OPCODE::PONG {
        &&& r == Result::<bool, WebSocketError>::Ok(false)
        &&& post == pre
    } else if c.header.code == OPCODE::CLOSE {
        let sc = match c.status_code {
            Some(s) => s,
            None => EXPECTED_STATUS_CODE,
        };
        if pre.connection_status == ConnectionStatus::Open {
            &&& r == Result::<bool, WebSocketError>::Ok(false)
            &&& post == (WSClient {
                connection_status: ConnectionStatus::ServerWantsToClose,
                input_events: post.input_events,
                output_events: post.output_events,
                ..pre
            })
            &&& post.input_events@.len() == 0
            &&& post.output_events@.len() == 1
            &&& is_close_echo(post.output_events@[0], spec_echo_status(sc), c.data)
        } else if pre.connection_status == ConnectionStatus::ClientWantsToClose {
            &&& r == Result::<bool, WebSocketError>::Ok(true)
            &&& post == (WSClient {
                connection_status: ConnectionStatus::Close,
                user_events: post.user_events,
                ..pre
            })
            &&& post.user_events@ == pre.user_events@.push(
                WSEvent::ON_CLOSE(Reason::CLIENT_CLOSE(sc)),
            )
        } else {
            &&& r == Result::<bool, WebSocketError>::Ok(false)
            &&& post == pre
        }
    } else {
        &&& r == Result::<bool, WebSocketError>::Err(WebSocketError::InvalidFrame)
        &&& post == pre
    }
}

/// How an upgrade response advances the handshake: a missing or wrong
/// accept hash, or a status other than 101, is a fatal handshake error;
/// otherwise the negotiated subprotocol is recorded, the connection opens,
/// and the application learns of it together with any response body.
pub open spec fn spec_response_step(
    pre: WSClient,
    post: WSClient,
    rv: crate::http::ResponseV,
    r: Result<(), WebSocketError>,
) -> bool {
    if pre.connection_status != ConnectionStatus::Handshake {
        &&& r is Ok
        &&& post == pre
    } else {
        match spec_resp_header(rv, "Sec-WebSocket-Accept"@) {
            None => r == Result::<(), WebSocketError>::Err(WebSocketError::HandShake) && post
                == pre,
            Some(a) => {
                if a != spec_accept_hash(pre.websocket_key@) {
                    &&& r == Result::<(), WebSocketError>::Err(WebSocketError::HandShake)
                    &&& post == pre
                } else if rv.status_code != 101 {
                    &&& r == Result::<(), WebSocketError>::Err(WebSocketError::HandShake)
                    &&& post == pre
                } else {
                    &&& r is Ok
                    &&& post == (WSClient {
                        connection_status: ConnectionStatus::Open,
                        protocol: post.protocol,
                        user_events: post.user_events,
                        ..pre
                    })
                    &&& (match spec_resp_header(rv, "Sec-WebSocket-Protocol"@) {
                        None => post.protocol is None,
                        Some(p) => post.protocol matches Some(s) && s@ == p,
                    })
                    &&& post.user_events@.len() == pre.user_events@.len() + 1
                    &&& post.user_events@.take(pre.user_events@.len() as int)
                        == pre.user_events@
                    &&& (post.user_events@.last() matches WSEvent::ON_CONNECT(b) && (
                    match rv.body {
                        None => b is None,
                        Some(bb) => b matches Some(bs) && bs@ == bb,
                    }))
                }
            },
        }
    }
}

/// The states in which the connection does protocol work on each tick.
pub open spec fn spec_active(c: WSClient) -> bool {
    ||| c.connection_status == ConnectionStatus::Handshake
    ||| c.connection_status == ConnectionStatus::Open
    ||| c.connection_status == ConnectionStatus::ClientWantsToClose
    ||| c.connection_status == ConnectionStatus::ServerWantsToClose
}

/// The tick's opening: an unanswered in-flight event returns to the queue
/// front, then the bytes the transport read join the receive storage.
pub open spec fn spec_prep_step(pre: WSClient, post: WSClient, read: ReadInput) -> bool {
    &&& post == (WSClient {
        recv_storage: post.recv_storage,
        output_events: post.output_events,
        in_flight: None,
        ..pre
    })
    &&& (match pre.in_flight {
        Some(ev) => post.output_events@ == seq![ev] + pre.output_events@,
        None => post.output_events@ == pre.output_events@,
    })
    &&& (match read {
        ReadInput::Data(b) => post.recv_storage@ == pre.recv_storage@ + b@,
        ReadInput::WouldBlock => post.recv_storage@ == pre.recv_storage@,
        _ => false,
    })
}

/// Decoding one event out of the receive storage: an upgrade response while
/// handshaking, a frame otherwise; too few bytes decode to `NoData`.
pub open spec fn spec_gather_step(pre: WSClient, post: WSClient, ev: Event) -> bool {
    &&& post == (WSClient { recv_storage: post.recv_storage, ..pre })
    &&& if pre.recv_storage@.len() == 0 {
        (ev matches Event::NoData) && post.recv_storage@ == pre.recv_storage@
    } else if pre.connection_status == ConnectionStatus::Handshake {
        match spec_parse_response(pre.recv_storage@) {
            Some(rv) => (ev matches Event::HttpResponse(resp) && resp@ == rv)
                && post.recv_storage@.len() == 0,
            None => (ev matches Event::NoData) && post.recv_storage@ == pre.recv_storage@,
        }
    } else {
        match spec_parse_frame(pre.recv_storage@) {
            FrameParse::Done(fv, used) => (ev matches Event::WebSocketData(f) && f@ == fv)
                && post.recv_storage@ == pre.recv_storage@.skip(used as int),
            FrameParse::Incomplete => (ev matches Event::NoData) && post.recv_storage@
                == pre.recv_storage@,
            FrameParse::Invalid => false,
        }
    }
}

/// Queue placement of a decoded event: control frames go to the input
/// front so that close and ping can preempt fragment reassembly; data
/// frames and responses go to the back; `NoData` is not queued.
pub open spec fn spec_insert_step(pre: WSClient, post: WSClient, ev: Event) -> bool {
    match ev {
        Event::WebSocketData(f) => {
            &&& post == (WSClient { input_events: post.input_events, ..pre })
            &&& if is_control_opcode(spec_frame_header(f@).code) {
                post.input_events@ == seq![ev] + pre.input_events@
            } else {
                post.input_events@ == pre.input_events@.push(ev)
            }
        },
        Event::HttpResponse(_) => {
            &&& post == (WSClient { input_events: post.input_events, ..pre })
            &&& post.input_events@ == pre.input_events@.push(ev)
        },
        _ => post == pre,
    }
}

/// Popping this tick's work: at most one event from the input front, and at
/// most one from the output front — but never websocket data while still
/// handshaking: application sends stay buffered until the socket is open.
pub open spec fn spec_pops_step(
    pre: WSClient,
    post: WSClient,
    in_ev: Option<Event>,
    out_ev: Option<Event>,
) -> bool {
    &&& post == (WSClient {
        input_events: post.input_events,
        output_events: post.output_events,
        ..pre
    })
    &&& (if pre.input_events@.len() == 0 {
        in_ev is None && post.input_events@ == pre.input_events@
    } else {
        in_ev == Some(pre.input_events@[0]) && post.input_events@ == pre.input_events@.skip(1)
    })
    &&& (if pre.output_events@.len() == 0 {
        out_ev is None && post.output_events@ == pre.output_events@
    } else if pre.connection_status == ConnectionStatus::Handshake
        && pre.output_events@[0] matches Event::WebSocketData(_) {
        out_ev is None && post.output_events@ == pre.output_events@
    } else {
        out_ev == Some(pre.output_events@[0]) && post.output_events@
            == pre.output_events@.skip(1)
    })
}

/// The tick's last step: when the close handshake just completed, any
/// popped output event returns to the queue and the transport is shut
/// down; otherwise the popped event's wire bytes are handed out to write
/// and the event is held in flight until the write outcome comes back.
pub open spec fn spec_emit_step(
    pre: WSClient,
    post: WSClient,
    out_ev: Option<Event>,
    shutdown: bool,
    r: WebSocketResult<Action>,
) -> bool {
    if shutdown {
        &&& r == WebSocketResult::<Action>::Ok(Action::Shutdown)
        &&& post == (WSClient { output_events: post.output_events, ..pre })
        &&& (match out_ev {
            Some(e) => post.output_events@ == seq![e] + pre.output_events@,
            None => post.output_events@ == pre.output_events@,
        })
    } else {
        match out_ev {
            None => post == pre && r == WebSocketResult::<Action>::Ok(Action::Wait),
            Some(ev) => match ev {
                Event::WebSocketData(f) => {
                    &&& post == (WSClient { in_flight: post.in_flight, ..pre })
                    &&& post.in_flight == Some(ev)
                    &&& r matches Ok(a)
                    &&& (r->Ok_0 matches Action::Write(b)
                        && b@ == crate::frame::spec_frame_bytes(f@))
                },
                Event::HttpRequest(req) => {
                    &&& post == (WSClient { in_flight: post.in_flight, ..pre })
                    &&& post.in_flight == Some(ev)
                    &&& r matches Ok(a)
                    &&& (r->Ok_0 matches Action::Write(b)
                        && b@ == crate::http::spec_request_bytes(req))
                },
                _ => post == pre && r == WebSocketResult::<Action>::Ok(Action::Wait),
            },
        }
    }
}

/// Handling the popped input event and finishing the tick, by the kind of
/// the event: a data frame feeds the receiver, a control frame drives the
/// close and ping logic, a response drives the handshake; an error from any
/// of them ends the tick with that error and drops the popped output event.
pub open spec fn spec_finish_step(
    s4: WSClient,
    s5: WSClient,
    post: WSClient,
    in_ev: Option<Event>,
    out_ev: Option<Event>,
    r: WebSocketResult<Action>,
) -> bool {
    match in_ev {
        None => s5 == s4 && spec_emit_step(s4, post, out_ev, false, r),
        Some(ev) => match ev {
            Event::WebSocketData(f) => match f {
                Frame::Data(d) => {
                    if d@.header.flag == FLAG::FIN && !valid_utf8(s4.recv_data@ + d@.data) {
                        &&& r == WebSocketResult::<Action>::Err(WebSocketError::DecodingFromUTF8)
                        &&& s5 == s4
                        &&& post == s4
                    } else {
                        &&& spec_data_frame_step(s4, s5, d@, Ok(()))
                        &&& spec_emit_step(s5, post, out_ev, false, r)
                    }
                },
                Frame::Control(c) => {
                    if !is_control_opcode(c@.header.code) {
                        &&& r == WebSocketResult::<Action>::Err(WebSocketError::InvalidFrame)
                        &&& s5 == s4
                        &&& post == s4
                    } else {
                        let sd = c@.header.code == OPCODE::CLOSE && s4.connection_status
                            == ConnectionStatus::ClientWantsToClose;
                        &&& spec_control_frame_step(s4, s5, c@, Ok(sd))
                        &&& spec_emit_step(s5, post, out_ev, sd, r)
                    }
                },
            },
            Event::HttpResponse(resp) => {
                if s4.connection_status == ConnectionStatus::Handshake && !(
                spec_resp_header(resp@, "Sec-WebSocket-Accept"@) matches Some(a) && a
                    == spec_accept_hash(s4.websocket_key@) && resp@.status_code == 101) {
                    &&& r == WebSocketResult::<Action>::Err(WebSocketError::HandShake)
                    &&& s5 == s4
                    &&& post == s4
                } else {
                    &&& spec_response_step(s4, s5, resp@, Ok(()))
                    &&& spec_emit_step(s5, post, out_ev, false, r)
                }
            },
            _ => s5 == s4 && spec_emit_step(s4, post, out_ev, false, r),
        },
    }
}

/// One whole tick in an active state, phase by phase: reclaim and read,
/// decode, enqueue, pop, handle, emit; a frame whose flag or opcode bits
/// are undefined ends the tick right after the read.
pub open spec fn spec_tick_phases(
    pre: WSClient,
    post: WSClient,
    read: ReadInput,
    r: WebSocketResult<Action>,
    s1: WSClient,
    s2: WSClient,
    s3: WSClient,
    s4: WSClient,
    s5: WSClient,
    ev: Event,
    in_ev: Option<Event>,
    out_ev: Option<Event>,
) -> bool {
    &&& spec_prep_step(pre, s1, read)
    &&& if s1.recv_storage@.len() > 0 && s1.connection_status != ConnectionStatus::Handshake
        && spec_parse_frame(s1.recv_storage@) is Invalid {
        post == s1 && r == WebSocketResult::<Action>::Err(WebSocketError::InvalidFrame)
    } else {
        &&& spec_gather_step(s1, s2, ev)
        &&& spec_insert_step(s2, s3, ev)
        &&& spec_pops_step(s3, s4, in_ev, out_ev)
        &&& spec_finish_step(s4, s5, post, in_ev, out_ev, r)
    }
}

/// One whole tick in an active state: some intermediate states and popped
/// events connect the pre and post states through the tick's phases.
pub open spec fn spec_tick_active(
    pre: WSClient,
    post: WSClient,
    read: ReadInput,
    r: WebSocketResult<Action>,
) -> bool {
    exists|s1: WSClient, s2: WSClient, s3: WSClient, s4: WSClient, s5: WSClient,
        ev: Event, in_ev: Option<Event>, out_ev: Option<Event>|
        #[trigger] spec_tick_phases(pre, post, read, r, s1, s2, s3, s4, s5, ev, in_ev, out_ev)
}

proof fn lemma_tick_intro(
    pre: WSClient,
    post: WSClient,
    read: ReadInput,
    r: WebSocketResult<Action>,
    s1: WSClient,
    s2: WSClient,
    s3: WSClient,
    s4: WSClient,
    s5: WSClient,
    ev: Event,
    in_ev: Option<Event>,
    out_ev: Option<Event>,
)
    requires
        spec_tick_phases(pre, post, read, r, s1, s2, s3, s4, s5, ev, in_ev, out_ev),
    ensures
        spec_tick_active(pre, post, read, r),
{
}

impl WSClient {
    /// Applies one data frame to the receiver, as `spec_data_frame_step`
    /// describes.
    fn handle_data_frame(&mut self, frame: DataFrame) -> (r: Result<(), WebSocketError>)
        ensures
            spec_data_frame_step(*old(self), *final(self), frame@, r),
    {
        if frame.get_header().get_flag() != FLAG::FIN {
            self.recv_data.extend_from_slice(frame.get_data().as_slice());
            proof {
                assert(self.recv_data@ =~= old(self).recv_data@ + frame@.data);
            }
            return Ok(());
        }
        let mut joined: Vec<u8> = Vec::new();
        joined.extend_from_slice(self.recv_data.as_slice());
        joined.extend_from_slice(frame.get_data().as_slice());
        proof {
            assert(joined@ =~= old(self).recv_data@ + frame@.data);
        }
        match string_from_utf8(joined) {
            Some(text) => {
                self.recv_data.clear();
                self.user_events.push(WSEvent::ON_TEXT(text));
                proof {
                    assert(self.user_events@.take(old(self).user_events@.len() as int) =~= old(
                        self,
                    ).user_events@);
                }
                Ok(())
            },
            None => Err(WebSocketError::DecodingFromUTF8),
        }
    }

    /// Applies one control frame to the state machine, as
    /// `spec_control_frame_step` describes; the result says whether the
    /// close handshake just completed and the transport must be shut down.
    fn handle_control_frame(&mut self, frame: ControlFrame) -> (r: Result<bool, WebSocketError>)
        ensures
            spec_control_frame_step(*old(self), *final(self), frame@, r),
    {
        let ControlFrame { header, status_code, data } = frame;
        match header.get_opcode() {
            OPCODE::PING => {
                let pong = ControlFrame::new(FLAG::FIN, OPCODE::PONG, None, data, true, None);
                self.output_events.push_front(Event::WebSocketData(Frame::Control(pong)));
                proof {
                    assert(self.output_events@.skip(1) =~= old(self).output_events@);
                }
                Ok(false)
            },
            OPCODE::PONG => Ok(false),
            OPCODE::CLOSE => {
                let sc = match status_code {
                    Some(s) => s,
                    None => EXPECTED_STATUS_CODE,
                };
                match self.connection_status {
                    ConnectionStatus::Open => {
                        let (is_error, _should_close) = evaulate_status_code(sc);
                        let echoed = if is_error {
                            PROTOCOL_ERROR
                        } else {
                            sc
                        };
                        self.output_events.clear();
                        self.input_events.clear();
                        let close = ControlFrame::new(
                            FLAG::FIN,
                            OPCODE::CLOSE,
                            Some(echoed),
                            data,
                            true,
                            None,
                        );
                        self.output_events.push_front(
                            Event::WebSocketData(Frame::Control(close)),
                        );
                        self.connection_status = ConnectionStatus::ServerWantsToClose;
                        Ok(false)
                    },
                    ConnectionStatus::ClientWantsToClose => {
                        self.connection_status = ConnectionStatus::Close;
                        self.user_events.push(WSEvent::ON_CLOSE(Reason::CLIENT_CLOSE(sc)));
                        Ok(true)
                    },
                    _ => Ok(false),
                }
            },
            _ => Err(WebSocketError::InvalidFrame),
        }
    }

    /// Applies an upgrade response, as `spec_response_step` describes.
    fn handle_recv_http_response(&mut self, response: Response) -> (r: Result<
        (),
        WebSocketError,
    >)
        ensures
            spec_response_step(*old(self), *final(self), response@, r),
    {
        if self.connection_status != ConnectionStatus::Handshake {
            return Ok(());
        }
        let accept = match response.header("Sec-WebSocket-Accept") {
            None => {
                return Err(WebSocketError::HandShake);
            },
            Some(a) => a,
        };
        if !verify_key(self.websocket_key.as_str(), accept.as_str()) {
            return Err(WebSocketError::HandShake);
        }
        if response.get_status_code() != 101 {
            return Err(WebSocketError::HandShake);
        }
        self.protocol = response.header("Sec-WebSocket-Protocol");
        let body_msg: Option<String> = match response.body() {
            Some(b) => Some(b.clone()),
            None => None,
        };
        self.connection_status = ConnectionStatus::Open;
        self.user_events.push(WSEvent::ON_CONNECT(body_msg));
        proof {
            assert(self.user_events@.take(old(self).user_events@.len() as int) =~= old(
                self,
            ).user_events@);
        }
        Ok(())
    }

    /// Queues a decoded event for this tick's handling, control frames at
    /// the front, as `spec_insert_step` describes.
    fn insert_input_event(&mut self, event: Event)
        ensures
            spec_insert_step(*old(self), *final(self), event),
    {
        match event {
            Event::WebSocketData(frame) => {
                if frame.kind() == FrameKind::Control {
                    self.input_events.push_front(Event::WebSocketData(frame));
                } else {
                    self.input_events.push_back(Event::WebSocketData(frame));
                }
            },
            Event::HttpResponse(resp) => {
                self.input_events.push_back(Event::HttpResponse(resp));
            },
            Event::HttpRequest(_) => {},
            Event::NoData => {},
        }
    }

    /// Pops the output event this tick may transmit: never websocket data
    /// while still handshaking.
    fn pop_output_event(&mut self) -> (r: Option<Event>)
        ensures
            ({
                let pre = *old(self);
                let post = *final(self);
                &&& post == (WSClient { output_events: post.output_events, ..pre })
                &&& (if pre.output_events@.len() == 0 {
                    r is None && post.output_events@ == pre.output_events@
                } else if pre.connection_status == ConnectionStatus::Handshake
                    && pre.output_events@[0] matches Event::WebSocketData(_) {
                    r is None && post.output_events@ == pre.output_events@
                } else {
                    r == Some(pre.output_events@[0]) && post.output_events@
                        == pre.output_events@.skip(1)
                })
            }),
    {
        let popped = self.output_events.pop_front();
        match popped {
            None => None,
            Some(ev) => {
                let is_ws = match &ev {
                    Event::WebSocketData(_) => true,
                    _ => false,
                };
                if self.connection_status == ConnectionStatus::Handshake && is_ws {
                    self.output_events.push_front(ev);
                    proof {
                        assert(self.output_events@ =~= old(self).output_events@);
                    }
                    None
                } else {
                    Some(ev)
                }
            },
        }
    }

    /// One tick of the event loop. Before anything was configured it waits;
    /// after `init` it asks the application to connect; on a closed
    /// connection it reports `ConnectionClose`. In an active state it
    /// classifies the read (end of stream and failures are fatal), decodes
    /// at most one frame or response, dispatches at most one inbound and
    /// one outbound event, and answers with the transport action to
    /// perform, exactly as `spec_tick_active` composes the phases.
    #[verifier::rlimit(60)]
    pub fn event_loop(&mut self, read: ReadInput) -> (r: WebSocketResult<Action>)
        requires
            wf_client(*old(self)),
        ensures
            wf_client(*final(self)),
            old(self).connection_status == ConnectionStatus::NotInit ==> r
                == WebSocketResult::<Action>::Ok(Action::Wait) && *final(self) == *old(self),
            old(self).connection_status == ConnectionStatus::StartInit ==> r
                == WebSocketResult::<Action>::Ok(Action::Connect) && *final(self) == *old(self),
            old(self).connection_status == ConnectionStatus::Close ==> r
                == WebSocketResult::<Action>::Err(WebSocketError::ConnectionClose) && *final(self)
                == *old(self),
            spec_active(*old(self)) && read is Eof ==> r == WebSocketResult::<Action>::Err(
                WebSocketError::ConnectionClose,
            ) && *final(self) == *old(self),
            spec_active(*old(self)) && read is Failed ==> r == WebSocketResult::<Action>::Err(
                WebSocketError::IOError,
            ) && *final(self) == *old(self),
            spec_active(*old(self)) && !(read is Eof) && !(read is Failed) ==> spec_tick_active(
                *old(self),
                *final(self),
                read,
                r,
            ),
    {
        match self.connection_status {
            ConnectionStatus::NotInit => {
                return Ok(Action::Wait);
            },
            ConnectionStatus::StartInit => {
                return Ok(Action::Connect);
            },
            ConnectionStatus::Close => {
                return Err(WebSocketError::ConnectionClose);
            },
            _ => {},
        }
        match &read {
            ReadInput::Eof => {
                return Err(WebSocketError::ConnectionClose);
            },
            ReadInput::Failed => {
                return Err(WebSocketError::IOError);
            },
            _ => {},
        }
        if self.in_flight.is_some() {
            let mut reclaimed: Option<Event> = None;
            core::mem::swap(&mut self.in_flight, &mut reclaimed);
            match reclaimed {
                Some(ev) => self.output_events.push_front(ev),
                None => {},
            }
        }
        match &read {
            ReadInput::Data(b) => {
                self.recv_storage.extend_from_slice(b.as_slice());
                proof {
                    assert(self.recv_storage@ =~= old(self).recv_storage@
                        + read->Data_0@);
                }
            },
            _ => {},
        }
        let ghost g1 = *self;
        proof {
            assert(spec_prep_step(*old(self), g1, read));
        }
        let ev: Event = if self.recv_storage.len() > 0 {
            if self.connection_status == ConnectionStatus::Handshake {
                match Response::parse(self.recv_storage.as_slice()) {
                    Ok(resp) => {
                        self.recv_storage.clear();
                        Event::HttpResponse(resp)
                    },
                    Err(_) => Event::NoData,
                }
            } else {
                match bytes_to_frame(self.recv_storage.as_slice()) {
                    Ok(Some(pair)) => {
                        let (frame, used) = pair;
                        let rest = self.recv_storage.split_off(used);
                        self.recv_storage = rest;
                        Event::WebSocketData(frame)
                    },
                    Ok(None) => Event::NoData,
                    Err(e) => {
                        proof {
                            lemma_tick_intro(
                                *old(self),
                                *self,
                                read,
                                Err(e),
                                g1,
                                g1,
                                g1,
                                g1,
                                g1,
                                Event::NoData,
                                None,
                                None,
                            );
                        }
                        return Err(e);
                    },
                }
            }
        } else {
            Event::NoData
        };
        let ghost g2 = *self;
        let ghost ev_g = ev;
        proof {
            assert(spec_gather_step(g1, g2, ev));
        }
        self.insert_input_event(ev);
        let ghost g3 = *self;
        let in_event = self.input_events.pop_front();
        let out_event = self.pop_output_event();
        let ghost g4 = *self;
        let ghost in_g = in_event;
        let ghost out_g = out_event;
        proof {
            assert(spec_pops_step(g3, g4, in_g, out_g));
        }
        let mut shutdown = false;
        match in_event {
            None => {},
            Some(Event::WebSocketData(Frame::Data(d))) => {
                match self.handle_data_frame(d) {
                    Ok(()) => {},
                    Err(e) => {
                        proof {
                            assert(spec_finish_step(g4, g4, *self, in_g, out_g, Err(e)));
                            lemma_tick_intro(
                                *old(self), *self, read, Err(e),
                                g1, g2, g3, g4, g4, ev_g, in_g, out_g,
                            );
                        }
                        return Err(e);
                    },
                }
            },
            Some(Event::WebSocketData(Frame::Control(c))) => {
                match self.handle_control_frame(c) {
                    Ok(sd) => {
                        shutdown = sd;
                    },
                    Err(e) => {
                        proof {
                            assert(spec_finish_step(g4, g4, *self, in_g, out_g, Err(e)));
                            lemma_tick_intro(
                                *old(self), *self, read, Err(e),
                                g1, g2, g3, g4, g4, ev_g, in_g, out_g,
                            );
                        }
                        return Err(e);
                    },
                }
            },
            Some(Event::HttpResponse(resp)) => {
                match self.handle_recv_http_response(resp) {
                    Ok(()) => {},
                    Err(e) => {
                        proof {
                            assert(spec_finish_step(g4, g4, *self, in_g, out_g, Err(e)));
                            lemma_tick_intro(
                                *old(self), *self, read, Err(e),
                                g1, g2, g3, g4, g4, ev_g, in_g, out_g,
                            );
                        }
                        return Err(e);
                    },
                }
            },
            Some(Event::HttpRequest(_)) => {},
            Some(Event::NoData) => {},
        }
        let ghost g5 = *self;
        if shutdown {
            match out_event {
                Some(e) => self.output_events.push_front(e),
                None => {},
            }
            proof {
                assert(spec_emit_step(g5, *self, out_g, true, Ok(Action::Shutdown)));
                assert(spec_finish_step(g4, g5, *self, in_g, out_g, Ok(Action::Shutdown)));
                lemma_tick_intro(
                    *old(self), *self, read, Ok(Action::Shutdown),
                    g1, g2, g3, g4, g5, ev_g, in_g, out_g,
                );
            }
            return Ok(Action::Shutdown);
        }
        match out_event {
            None => {
                proof {
                    assert(spec_finish_step(g4, g5, *self, in_g, out_g, Ok(Action::Wait)));
                    lemma_tick_intro(
                        *old(self), *self, read, Ok(Action::Wait),
                        g1, g2, g3, g4, g5, ev_g, in_g, out_g,
                    );
                }
                Ok(Action::Wait)
            },
            Some(Event::WebSocketData(frame)) => {
                let bytes = frame.serialize();
                self.in_flight = Some(Event::WebSocketData(frame));
                let r = Ok(Action::Write(bytes));
                proof {
                    assert(spec_emit_step(g5, *self, out_g, false, r));
                    assert(spec_finish_step(g4, g5, *self, in_g, out_g, r));
                    lemma_tick_intro(
                        *old(self), *self, read, r,
                        g1, g2, g3, g4, g5, ev_g, in_g, out_g,
                    );
                }
                r
            },
            Some(Event::HttpRequest(req)) => {
                let bytes = req.serialize();
                self.in_flight = Some(Event::HttpRequest(req));
                let r = Ok(Action::Write(bytes));
                proof {
                    assert(spec_emit_step(g5, *self, out_g, false, r));
                    assert(spec_finish_step(g4, g5, *self, in_g, out_g, r));
                    lemma_tick_intro(
                        *old(self), *self, read, r,
                        g1, g2, g3, g4, g5, ev_g, in_g, out_g,
                    );
                }
                r
            },
            Some(_) => {
                proof {
                    assert(spec_finish_step(g4, g5, *self, in_g, out_g, Ok(Action::Wait)));
                    lemma_tick_intro(
                        *old(self), *self, read, Ok(Action::Wait),
                        g1, g2, g3, g4, g5, ev_g, in_g, out_g,
                    );
                }
                Ok(Action::Wait)
            },
        }
    }

    /// Reports the outcome of the write that the last `Write` action asked
    /// for. A blocked write returns the held event to the queue front, to
    /// retry next tick with nothing lost or reordered; a completed write of
    /// a control frame while the peer's close was being answered completes
    /// the close handshake: the connection closes, the application learns
    /// of it, and the transport is shut down.
    pub fn write_result(&mut self, sent: bool) -> (r: WebSocketResult<Action>)
        ensures
            old(self).in_flight is None ==> *final(self) == *old(self) && r
                == WebSocketResult::<Action>::Ok(Action::Wait),
            old(self).in_flight matches Some(ev) ==> (if !sent {
                &&& *final(self) == (WSClient {
                    output_events: final(self).output_events,
                    in_flight: None,
                    ..*old(self)
                })
                &&& final(self).output_events@ == seq![ev] + old(self).output_events@
                &&& r == WebSocketResult::<Action>::Ok(Action::Wait)
            } else if (ev matches Event::WebSocketData(f) && is_control_opcode(
                spec_frame_header(f@).code,
            )) && old(self).connection_status == ConnectionStatus::ServerWantsToClose {
                &&& *final(self) == (WSClient {
                    connection_status: ConnectionStatus::Close,
                    in_flight: None,
                    user_events: final(self).user_events,
                    ..*old(self)
                })
                &&& final(self).user_events@ == old(self).user_events@.push(
                    WSEvent::ON_CLOSE(Reason::SERVER_CLOSE(spec_inflight_close_status(ev))),
                )
                &&& r == WebSocketResult::<Action>::Ok(Action::Shutdown)
            } else {
                &&& *final(self) == (WSClient { in_flight: None, ..*old(self) })
                &&& r == WebSocketResult::<Action>::Ok(Action::Wait)
            }),
    {
        let mut taken: Option<Event> = None;
        core::mem::swap(&mut self.in_flight, &mut taken);
        let ev = match taken {
            None => {
                return Ok(Action::Wait);
            },
            Some(ev) => ev,
        };
        if !sent {
            self.output_events.push_front(ev);
            proof {
                assert(self.output_events@ =~= seq![old(self).in_flight->0] + old(
                    self,
                ).output_events@);
            }
            return Ok(Action::Wait);
        }
        let is_control: bool = match &ev {
            Event::WebSocketData(f) => match f.kind() {
                FrameKind::Control => true,
                _ => false,
            },
            _ => false,
        };
        let status: u16 = match &ev {
            Event::WebSocketData(f) => match f {
                Frame::Control(c) => match c.status_code {
                    Some(s) => s,
                    None => 0,
                },
                Frame::Data(_) => 0,
            },
            _ => 0,
        };
        if is_control && self.connection_status == ConnectionStatus::ServerWantsToClose {
            self.connection_status = ConnectionStatus::Close;
            self.user_events.push(WSEvent::ON_CLOSE(Reason::SERVER_CLOSE(status)));
            return Ok(Action::Shutdown);
        }
        Ok(Action::Wait)
    }

    /// Reports the outcome of the connect that a `Connect` action asked
    /// for. A failure surfaces as `UnreachableHost` and leaves the client
    /// ready to retry. On success a fresh nonce is generated, the upgrade
    /// request is queued for transmission, and the handshake begins.
    pub fn connect_result(&mut self, ok: bool) -> (r: WebSocketResult<()>)
        ensures
            old(self).connection_status != ConnectionStatus::StartInit ==> *final(self) == *old(
                self,
            ) && r is Ok,
            old(self).connection_status == ConnectionStatus::StartInit && !ok ==> *final(self)
                == *old(self) && r == WebSocketResult::<()>::Err(WebSocketError::UnreachableHost),
            old(self).connection_status == ConnectionStatus::StartInit && ok ==> ({
                &&& r is Ok
                &&& *final(self) == (WSClient {
                    connection_status: ConnectionStatus::Handshake,
                    output_events: final(self).output_events,
                    websocket_key: final(self).websocket_key,
                    ..*old(self)
                })
                &&& (exists|b: Seq<u8>|
                    b.len() == 16 && final(self).websocket_key@ == base64_of(b))
                &&& final(self).output_events@.len() == old(self).output_events@.len() + 1
                &&& final(self).output_events@.skip(1) == old(self).output_events@
                &&& is_upgrade_request(
                    final(self).output_events@[0],
                    final(self).websocket_key@,
                    old(self).path@,
                    old(self).acceptable_protocols,
                )
            }),
    {
        if self.connection_status != ConnectionStatus::StartInit {
            return Ok(());
        }
        if !ok {
            return Err(WebSocketError::UnreachableHost);
        }
        let sec_websocket_key = gen_key();
        let mut headers: Vec<(String, String)> = Vec::new();
        headers.push(("Upgrade".to_owned(), "websocket".to_owned()));
        headers.push(("Connection".to_owned(), "Upgrade".to_owned()));
        headers.push(("Sec-WebSocket-Key".to_owned(), sec_websocket_key.clone()));
        headers.push(("Sec-WebSocket-Version".to_owned(), "13".to_owned()));
        headers.push(("User-agent".to_owned(), "rust-websocket-std".to_owned()));
        let with_protocols: bool = match &self.acceptable_protocols {
            Some(ps) => ps.len() > 0,
            None => false,
        };
        if with_protocols {
            let joined = match &self.acceptable_protocols {
                Some(ps) => join_protocols(ps),
                None => String::new(),
            };
            headers.push(("Sec-WebSocket-Protocol".to_owned(), joined));
        }
        let request = Request::new(Method::GET, self.path.as_str(), "HTTP/1.1", Some(headers));
        self.output_events.push_front(Event::HttpRequest(request));
        self.websocket_key = sec_websocket_key;
        self.connection_status = ConnectionStatus::Handshake;
        proof {
            assert(self.output_events@.skip(1) =~= old(self).output_events@);
        }
        Ok(())
    }

    /// Begins the client-initiated close: any queued application work is
    /// abandoned, a CLOSE frame with status 1000 and reason `Done` is
    /// queued, and the client awaits the peer's echo. Does nothing unless a
    /// connection is actually up.
    pub fn start_close(&mut self)
        ensures
            !(old(self).connection_status == ConnectionStatus::Open || old(
                self,
            ).connection_status == ConnectionStatus::ClientWantsToClose || old(
                self,
            ).connection_status == ConnectionStatus::ServerWantsToClose) ==> *final(self) == *old(
                self,
            ),
            (old(self).connection_status == ConnectionStatus::Open || old(self).connection_status
                == ConnectionStatus::ClientWantsToClose || old(self).connection_status
                == ConnectionStatus::ServerWantsToClose) ==> ({
                &&& *final(self) == (WSClient {
                    connection_status: ConnectionStatus::ClientWantsToClose,
                    input_events: final(self).input_events,
                    output_events: final(self).output_events,
                    ..*old(self)
                })
                &&& final(self).input_events@.len() == 0
                &&& final(self).output_events@.len() == 1
                &&& is_close_echo(
                    final(self).output_events@[0],
                    crate::status_code::NORMAL_CLOSURE,
                    encode_utf8("Done"@),
                )
            }),
    {
        let active = match self.connection_status {
            ConnectionStatus::Open => true,
            ConnectionStatus::ClientWantsToClose => true,
            ConnectionStatus::ServerWantsToClose => true,
            _ => false,
        };
        if !active {
            return ;
        }
        self.output_events.clear();
        self.input_events.clear();
        let reason = vstd::slice::slice_to_vec("Done".as_bytes());
        let close = ControlFrame::new(
            FLAG::FIN,
            OPCODE::CLOSE,
            Some(crate::status_code::NORMAL_CLOSURE),
            reason,
            true,
            None,
        );
        self.output_events.push_back(Event::WebSocketData(Frame::Control(close)));
        self.connection_status = ConnectionStatus::ClientWantsToClose;
    }
}

/// The status code an in-flight close echo carries, zero when it has none.
pub open spec fn spec_inflight_close_status(ev: Event) -> u16 {
    match ev {
        Event::WebSocketData(f) => match f {
            Frame::Control(c) => match c.status_code {
                Some(s) => s,
                None => 0u16,
            },
            Frame::Data(_) => 0u16,
        },
        _ => 0u16,
    }
}

/// The upgrade request that `connect_result` queues: GET on the configured
/// path, HTTP/1.1, the fixed upgrade headers, the nonce as the key header,
/// and the offered subprotocols joined by commas when any were configured.
pub open spec fn is_upgrade_request(
    e: Event,
    key: Seq<char>,
    path: Seq<char>,
    protocols: Option<Vec<String>>,
) -> bool {
    &&& e matches Event::HttpRequest(req)
    &&& e->HttpRequest_0.method == Method::GET
    &&& e->HttpRequest_0.path@ == path
    &&& e->HttpRequest_0.version@ == "HTTP/1.1"@
    &&& ({
        let hs = e->HttpRequest_0.headers@;
        let with_protocols = protocols matches Some(ps) && ps@.len() > 0;
        &&& hs.len() == (if with_protocols {
            6int
        } else {
            5int
        })
        &&& hs[0].0@ == "Upgrade"@ && hs[0].1@ == "websocket"@
        &&& hs[1].0@ == "Connection"@ && hs[1].1@ == "Upgrade"@
        &&& hs[2].0@ == "Sec-WebSocket-Key"@ && hs[2].1@ == key
        &&& hs[3].0@ == "Sec-WebSocket-Version"@ && hs[3].1@ == "13"@
        &&& hs[4].0@ == "User-agent"@ && hs[4].1@ == "rust-websocket-std"@
        &&& (with_protocols ==> hs[5].0@ == "Sec-WebSocket-Protocol"@ && hs[5].1@
            == spec_join_protocols(protocols->0@))
    })
}

/// The offered subprotocols joined into one header value: each separated
/// from the next by a comma and a space.
pub open spec fn spec_join_protocols(ps: Seq<String>) -> Seq<char>
    decreases ps.len(),
{
    if ps.len() == 0 {
        Seq::empty()
    } else if ps.len() == 1 {
        ps[0]@
    } else {
        spec_join_protocols(ps.drop_last()) + ", "@ + ps.last()@
    }
}

/// Joins the offered subprotocols with comma-space separators.
fn join_protocols(ps: &Vec<String>) -> (r: String)
    ensures
        r@ == spec_join_protocols(ps@),
{
    let mut out = String::new();
    let mut i: usize = 0;
    while i < ps.len()
        invariant
            i <= ps@.len(),
            out@ == spec_join_protocols(ps@.take(i as int)),
        decreases ps@.len() - i,
    {
        if i > 0 {
            out.append(", ");
        }
        out.append(ps[i].as_str());
        proof {
            assert(ps@.take(i + 1).drop_last() =~= ps@.take(i as int));
            assert(ps@.take(i + 1).last() == ps@[i as int]);
            if i == 0 {
                assert(ps@.take(1)[0] == ps@[0]);
            }
        }
        i = i + 1;
    }
    proof {
        assert(ps@.take(ps@.len() as int) =~= ps@);
    }
    out
}

} // verus!
