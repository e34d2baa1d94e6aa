use crate::frame::{
    buffered, bytes_of, chunk_len, chunk_split_to, empty_chunk, frame_extend, frame_freeze,
    frame_len, new_frame,
};
use bytes::{Bytes, BytesMut};
use vstd::prelude::*;
use vstd::slice::slice_subrange;

verus! {

/// Whether, and how, the client carries the gateway connection over a WebSocket.
#[derive(Clone, Copy, Debug, PartialEq, Eq, Structural)]
pub enum WebSocketEnabled {
    Off,
    Insecure,
    Secure,
}

/// The path at which the server takes the WebSocket upgrade.
pub const WS_PATH: &'static str = "/ws/";

/// The URL scheme of the gateway connection: none for raw TCP, `ws` or `wss`.
pub fn ws_scheme(mode: WebSocketEnabled) -> (r: Option<&'static str>)
    ensures
        mode == WebSocketEnabled::Off <==> r is None,
        mode == WebSocketEnabled::Insecure ==> r == Some("ws"),
        mode == WebSocketEnabled::Secure ==> r == Some("wss"),
{
    match mode {
        WebSocketEnabled::Off => None,
        WebSocketEnabled::Insecure => Some("ws"),
        WebSocketEnabled::Secure => Some("wss"),
    }
}

/// The payloads of `msgs`, one after the other.
pub open spec fn concat(msgs: Seq<Seq<u8>>) -> Seq<u8>
    decreases msgs.len(),
{
    if msgs.len() == 0 {
        Seq::empty()
    } else {
        concat(msgs.drop_last()) + msgs.last()
    }
}

proof fn lemma_concat_push(msgs: Seq<Seq<u8>>, m: Seq<u8>)
    ensures
        concat(msgs.push(m)) == concat(msgs) + m,
{
    assert(msgs.push(m).drop_last() =~= msgs);
}

/// Cuts the bytes written to a byte stream into binary WebSocket messages of
/// at most `buffer_size` bytes each.
pub struct FrameWriter {
    frame: Option<BytesMut>,
    buffer_size: usize,
    accepted: Ghost<Seq<u8>>,
    sent: Ghost<Seq<Seq<u8>>>,
}

impl FrameWriter {
    /// Everything that `write` has taken so far.
    pub closed spec fn accepted(&self) -> Seq<u8> {
        self.accepted@
    }

    /// The payloads of the messages handed out so far, in order.
    pub closed spec fn sent(&self) -> Seq<Seq<u8>> {
        self.sent@
    }

    /// The bytes taken but not yet handed out in a message.
    pub closed spec fn pending(&self) -> Seq<u8> {
        match self.frame {
            Some(f) => buffered(f),
            None => Seq::empty(),
        }
    }

    pub closed spec fn buffer_size(&self) -> nat {
        self.buffer_size as nat
    }

    pub closed spec fn wf(&self) -> bool {
        &&& self.buffer_size > 0
        &&& self.pending().len() <= self.buffer_size
        &&& concat(self.sent@) + self.pending() == self.accepted@
        &&& forall|i: int|
            0 <= i < self.sent@.len() ==> 0 < #[trigger] self.sent@[i].len() <= self.buffer_size
    }

    pub fn new(buffer_size: usize) -> (r: FrameWriter)
        requires
            buffer_size > 0,
        ensures
            r.wf(),
            r.buffer_size() == buffer_size,
            r.accepted() == Seq::<u8>::empty(),
            r.sent() == Seq::<Seq<u8>>::empty(),
    {
        let r = FrameWriter {
            frame: None,
            buffer_size,
            accepted: Ghost(Seq::empty()),
            sent: Ghost(Seq::empty()),
        };
        assert(concat(r.sent@) + r.pending() =~= r.accepted@);
        r
    }

    /// Number of bytes taken but not yet handed out.
    pub fn pending_len(&self) -> (r: usize)
        ensures
            r == self.pending().len(),
    {
        match &self.frame {
            Some(f) => frame_len(f),
            None => 0,
        }
    }

    /// Whether the pending frame is full: it must go out before more is written.
    pub fn is_full(&self) -> (r: bool)
        requires
            self.wf(),
        ensures
            r == (self.pending().len() == self.buffer_size()),
    {
        match &self.frame {
            Some(f) => frame_len(f) == self.buffer_size,
            None => false,
        }
    }

    /// Hands out the pending bytes as one message, if there are any.
    pub fn take_frame(&mut self) -> (r: Option<Bytes>)
        requires
            old(self).wf(),
        ensures
            final(self).wf(),
            final(self).buffer_size() == old(self).buffer_size(),
            final(self).accepted() == old(self).accepted(),
            final(self).pending() == Seq::<u8>::empty(),
            old(self).pending().len() == 0 ==> r is None && final(self).sent() == old(self).sent(),
            old(self).pending().len() > 0 ==> (r matches Some(m) && bytes_of(m) == old(
                self,
            ).pending() && final(self).sent() == old(self).sent().push(old(self).pending())),
    {
        let f = self.frame.take();
        match f {
            Some(f) => {
                if frame_len(&f) == 0 {
                    assert(concat(self.sent@) + self.pending() =~= self.accepted@);
                    return None;
                }
                proof {
                    lemma_concat_push(self.sent@, buffered(f));
                }
                self.sent = Ghost(self.sent@.push(buffered(f)));
                let m = frame_freeze(f);
                assert(concat(self.sent@) + self.pending() =~= self.accepted@);
                Some(m)
            },
            None => None,
        }
    }

    /// Takes as much of `buf` as the pending frame has room for.
    pub fn write(&mut self, buf: &[u8]) -> (n: usize)
        requires
            old(self).wf(),
            old(self).pending().len() < old(self).buffer_size(),
        ensures
            final(self).wf(),
            final(self).buffer_size() == old(self).buffer_size(),
            final(self).sent() == old(self).sent(),
            n == if buf@.len() < old(self).buffer_size() - old(self).pending().len() {
                buf@.len() as int
            } else {
                old(self).buffer_size() - old(self).pending().len()
            },
            final(self).accepted() == old(self).accepted() + buf@.subrange(0, n as int),
            final(self).pending() == old(self).pending() + buf@.subrange(0, n as int),
    {
        let mut f = match self.frame.take() {
            Some(f) => f,
            None => new_frame(self.buffer_size),
        };
        let room = self.buffer_size - frame_len(&f);
        let n = if buf.len() < room {
            buf.len()
        } else {
            room
        };
        let part = slice_subrange(buf, 0, n);
        frame_extend(&mut f, part);
        self.frame = Some(f);
        self.accepted = Ghost(self.accepted@ + part@);
        assert(concat(self.sent@) + self.pending() =~= self.accepted@);
        n
    }
}

/// After a flush, the messages handed out carry, in order, exactly the bytes
/// that were written: at least one message when any byte was written, none
/// empty and none longer than the buffer size.
pub proof fn lemma_flushed_messages_carry_writes(w: FrameWriter)
    requires
        w.wf(),
        w.pending().len() == 0,
    ensures
        concat(w.sent()) == w.accepted(),
        w.accepted().len() > 0 ==> w.sent().len() > 0,
        forall|i: int|
            0 <= i < w.sent().len() ==> 0 < #[trigger] w.sent()[i].len() <= w.buffer_size(),
{
    assert(concat(w.sent()) + w.pending() =~= concat(w.sent()));
}

/// Once everything received has been read, the reader has handed out
/// exactly the payloads of the binary messages, in order.
pub proof fn lemma_reader_delivers_payloads(r: FrameReader)
    requires
        r.wf(),
        r.leftover().len() == 0,
    ensures
        r.delivered() == r.received(),
{
    assert(r.delivered() + r.leftover() =~= r.delivered());
}

/// A message received on the WebSocket, by kind.
pub enum WsMessage {
    Binary(Bytes),
    Close,
    /// Text, ping, pong or a raw frame.
    Other,
}

/// What a received message means for the byte stream.
#[derive(Clone, Copy, Debug, PartialEq, Eq, Structural)]
pub enum ReadStatus {
    /// Bytes are ready to be read.
    Data,
    /// The peer closed: end of stream.
    Eof,
    /// A message of a kind that carries no stream bytes: an error.
    Unexpected,
}

/// Turns the binary messages received on a WebSocket back into a byte stream.
pub struct FrameReader {
    current: Option<Bytes>,
    received: Ghost<Seq<u8>>,
    delivered: Ghost<Seq<u8>>,
}

impl FrameReader {
    /// The payloads of all binary messages received, one after the other.
    pub closed spec fn received(&self) -> Seq<u8> {
        self.received@
    }

    /// Everything that `read` has handed out.
    pub closed spec fn delivered(&self) -> Seq<u8> {
        self.delivered@
    }

    /// Bytes received but not yet read.
    pub closed spec fn leftover(&self) -> Seq<u8> {
        match self.current {
            Some(b) => bytes_of(b),
            None => Seq::empty(),
        }
    }

    pub closed spec fn wf(&self) -> bool {
        self.delivered@ + self.leftover() == self.received@
    }

    pub fn new() -> (r: FrameReader)
        ensures
            r.wf(),
            r.received() == Seq::<u8>::empty(),
            r.delivered() == Seq::<u8>::empty(),
    {
        let r = FrameReader {
            current: None,
            received: Ghost(Seq::empty()),
            delivered: Ghost(Seq::empty()),
        };
        assert(r.delivered@ + r.leftover() =~= r.received@);
        r
    }

    /// Whether every byte received has been read, so the next message is due.
    pub fn needs_message(&self) -> (r: bool)
        ensures
            r == (self.leftover().len() == 0),
    {
        match &self.current {
            Some(b) => chunk_len(b) == 0,
            None => true,
        }
    }

    /// Takes the next message. Only binary messages carry bytes; a close ends
    /// the stream; any other kind is an error.
    pub fn on_message(&mut self, m: WsMessage) -> (r: ReadStatus)
        requires
            old(self).wf(),
            old(self).leftover().len() == 0,
        ensures
            final(self).wf(),
            final(self).delivered() == old(self).delivered(),
            m matches WsMessage::Binary(b) ==> r == ReadStatus::Data && final(self).leftover()
                == bytes_of(b) && final(self).received() == old(self).received() + bytes_of(b),
            m is Close ==> r == ReadStatus::Eof && final(self).received() == old(self).received(),
            m is Other ==> r == ReadStatus::Unexpected && final(self).received()
                == old(self).received(),
    {
        match m {
            WsMessage::Binary(b) => {
                self.received = Ghost(self.received@ + bytes_of(b));
                self.current = Some(b);
                assert(self.delivered@ + self.leftover() =~= self.received@);
                ReadStatus::Data
            },
            WsMessage::Close => ReadStatus::Eof,
            WsMessage::Other => ReadStatus::Unexpected,
        }
    }

    /// Hands out up to `max` of the bytes received, keeping the rest for the
    /// next read.
    pub fn read(&mut self, max: usize) -> (r: Bytes)
        requires
            old(self).wf(),
        ensures
            final(self).wf(),
            final(self).received() == old(self).received(),
            bytes_of(r).len() == if max < old(self).leftover().len() {
                max as int
            } else {
                old(self).leftover().len() as int
            },
            bytes_of(r) == old(self).leftover().subrange(0, bytes_of(r).len() as int),
            final(self).delivered() == old(self).delivered() + bytes_of(r),
            final(self).leftover() == old(self).leftover().subrange(
                bytes_of(r).len() as int,
                old(self).leftover().len() as int,
            ),
    {
        match self.current.take() {
            Some(mut b) => {
                let len = chunk_len(&b);
                let n = if max < len {
                    max
                } else {
                    len
                };
                let out = chunk_split_to(&mut b, n);
                self.delivered = Ghost(self.delivered@ + bytes_of(out));
                self.current = Some(b);
                assert(self.delivered@ + self.leftover() =~= self.received@);
                out
            },
            None => {
                let out = empty_chunk();
                assert(self.delivered@ + bytes_of(out) =~= self.delivered@);
                out
            },
        }
    }
}

} // verus!
