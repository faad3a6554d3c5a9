//! One session: what its reader and its writer make of each message.
//!
//! Inbound, a connection takes the bytes that its socket delivered, removes
//! the telnet commands, frames lines and hands each line on as a
//! `UserMessage`. Outbound, it takes a `UserMessage`, renders the
//! presentation that the message carries and hands the bytes on as a
//! `NetworkMessage` for its peer. It performs no I/O itself: each operation
//! returns the messages to be queued.

use crate::ansicolors::{compile, AnsiColors};
use crate::buffers::{append_bytes, to_vec};
use crate::endpoint::Endpoint;
use crate::framer::{
    edit, frame, has_crlf, join_lines, lemma_edit_plain, lemma_frame_chunks, lemma_frame_joined,
    line_views, Framed, FramingBuffer, BS, CR, LF,
};
use crate::server::NetworkMessage;
use crate::telnet::{
    lemma_filter_chunks, lemma_filtered_plain, payload, pending, split_telnet, IAC, TELOPT_ECHO,
    WILL, WONT,
};
use crate::template::{jinja_process, jinja_text, TemplateVars};
use crate::text::{from_utf8_lossy, lossy_text};
use vstd::prelude::*;
use vstd::string::*;
use vstd::utf8::{decode_utf8, encode_utf8, valid_utf8};

verus! {

/// A payload on a connection's queues, in one of three presentations: raw
/// bytes, a line of text, or a template with its variables. A message with
/// none of them asks the writer to stop.
#[derive(Debug, Clone)]
pub struct UserMessage {
    pub bytes: Vec<u8>,
    pub string: String,
    pub jinja: Option<TemplateVars>,
}

impl UserMessage {
    /// Whether the message carries no presentation at all.
    pub open spec fn is_sentinel(&self) -> bool {
        self.string@.len() == 0 && self.bytes@.len() == 0 && self.jinja is None
    }

    /// A message of raw bytes.
    pub fn from_bytes(bytes: Vec<u8>) -> (message: UserMessage)
        ensures
            message.bytes == bytes,
            message.string@.len() == 0,
            message.jinja is None,
    {
        UserMessage { bytes, string: String::new(), jinja: None }
    }

    /// A message of text.
    pub fn from_string(string: String) -> (message: UserMessage)
        ensures
            message.bytes@.len() == 0,
            message.string == string,
            message.jinja is None,
    {
        UserMessage { bytes: Vec::new(), string, jinja: None }
    }

    /// A template message.
    pub fn from_template(vars: TemplateVars) -> (message: UserMessage)
        ensures
            message.bytes@.len() == 0,
            message.string@.len() == 0,
            message.jinja == Some(vars),
    {
        UserMessage { bytes: Vec::new(), string: String::new(), jinja: Some(vars) }
    }

    /// The message that asks the writer to stop.
    pub fn disconnect() -> (message: UserMessage)
        ensures
            message.is_sentinel(),
    {
        UserMessage { bytes: Vec::new(), string: String::new(), jinja: None }
    }

    /// Whether the message asks the writer to stop.
    pub fn is_disconnect(&self) -> (r: bool)
        ensures
            r == self.is_sentinel(),
    {
        self.string.as_str().is_empty() && self.bytes.len() == 0 && self.jinja.is_none()
    }
}

/// What the writer does with a message from its queue.
#[derive(Debug)]
pub enum TxStep {
    /// The message was the request to stop: the session is disconnected.
    /// Queue this request to disconnect the peer, and end the writer.
    Stop(NetworkMessage),
    /// Queue these bytes for the peer.
    Send(NetworkMessage),
}

/// What the reader's processing makes of a message from the socket.
#[derive(Debug)]
pub struct RxStep {
    /// The lines that the message completed, in order.
    pub lines: Vec<UserMessage>,
    /// Messages to queue for the peer.
    pub outbound: Vec<NetworkMessage>,
    /// Whether the processing of this connection ends here.
    pub stop: bool,
}

/// The state of one session.
#[derive(Debug)]
pub struct Connection {
    pub addr: Endpoint,
    pub ansi_mode: bool,
    pub ansi_colors: AnsiColors,
    pub disconnected: bool,
    /// Whether the reader and the writer have been started.
    pub started: bool,
    /// The telnet sequence that the last inbound chunk ended in the
    /// middle of.
    pub pending: Vec<u8>,
    /// The inbound bytes that wait for their line end.
    pub incoming_buffer: FramingBuffer,
}

/// Whether `message` is the user message that the reader hands on for the
/// line `line`: it carries the text that the bytes of the line decode to,
/// which for well-formed UTF-8 is the text that they encode, and no other
/// presentation.
pub open spec fn is_line_message(message: UserMessage, line: Seq<u8>) -> bool {
    &&& message.bytes@.len() == 0
    &&& message.string@ == lossy_text(line)
    &&& valid_utf8(line) ==> message.string@ == decode_utf8(line)
    &&& message.jinja is None
}

/// The bytes that a connection in ANSI mode `ansi_mode` sends for `msg`,
/// in the one presentation that the message carries: a template is
/// rendered and compiled like text, raw bytes pass as they are, text is
/// compiled.
pub open spec fn rendering(msg: UserMessage, ansi_mode: bool) -> Seq<u8> {
    if msg.jinja is Some {
        compile(encode_utf8(jinja_text(msg.jinja.unwrap()@)), ansi_mode)
    } else if msg.bytes@.len() != 0 {
        msg.bytes@
    } else {
        compile(encode_utf8(msg.string@), ansi_mode)
    }
}

/// The bytes that the messages of a queue amount to, in their order, up
/// to the first request to stop.
pub open spec fn rendered_stream(msgs: Seq<UserMessage>, ansi_mode: bool) -> Seq<u8>
    decreases msgs.len(),
{
    if msgs.len() == 0 || msgs[0].is_sentinel() {
        Seq::empty()
    } else {
        rendering(msgs[0], ansi_mode) + rendered_stream(msgs.skip(1), ansi_mode)
    }
}

/// The bytes of a run of network messages, one after the other.
pub open spec fn total_bytes(out: Seq<NetworkMessage>) -> Seq<u8>
    decreases out.len(),
{
    if out.len() == 0 {
        Seq::empty()
    } else {
        total_bytes(out.drop_last()) + out.last().data@
    }
}

/// Whether a request to stop stands among `msgs`.
pub open spec fn has_sentinel(msgs: Seq<UserMessage>) -> bool {
    exists|i: int| 0 <= i < msgs.len() && (#[trigger] msgs[i]).is_sentinel()
}

/// The telnet sequence that a session holds back after the inbound bytes
/// `data`, having held `held` back before.
pub open spec fn inbound_pending(held: Seq<u8>, data: Seq<u8>) -> Seq<u8> {
    pending(held + data)
}

/// The lines that the inbound bytes `data` complete, and what stays in the
/// framing buffer, for a session that holds `held` back and has `buffer`
/// in its framing buffer.
pub open spec fn inbound_framed(held: Seq<u8>, buffer: Seq<u8>, data: Seq<u8>) -> Framed {
    frame(buffer + payload(held + data))
}

/// A session receives a stream as it receives its whole: two chunks in
/// turn complete the lines, leave the buffer and hold back the sequence
/// that the two chunks joined do.
pub proof fn lemma_receive_chunks(held: Seq<u8>, buffer: Seq<u8>, a: Seq<u8>, b: Seq<u8>)
    ensures
        inbound_pending(inbound_pending(held, a), b) == inbound_pending(held, a + b),
        inbound_framed(held, buffer, a).lines + inbound_framed(
            inbound_pending(held, a),
            inbound_framed(held, buffer, a).rest,
            b,
        ).lines == inbound_framed(held, buffer, a + b).lines,
        inbound_framed(
            inbound_pending(held, a),
            inbound_framed(held, buffer, a).rest,
            b,
        ).rest == inbound_framed(held, buffer, a + b).rest,
{
    lemma_filter_chunks(held + a, b);
    assert((held + a) + b =~= held + (a + b));
    let first = payload(held + a);
    let second = payload(pending(held + a) + b);
    assert((buffer + first) + second =~= buffer + (first + second));
    lemma_frame_chunks(buffer + first, second);
}

/// What a session has made of its inbound bytes: the telnet sequence that
/// it holds back, its framing buffer, and the lines that it has handed on.
pub struct Inbound {
    pub held: Seq<u8>,
    pub buffer: Seq<u8>,
    pub lines: Seq<Seq<u8>>,
}

/// A session after one more chunk of inbound bytes.
pub open spec fn inbound_step(state: Inbound, data: Seq<u8>) -> Inbound {
    let framed = inbound_framed(state.held, state.buffer, data);
    Inbound {
        held: inbound_pending(state.held, data),
        buffer: framed.rest,
        lines: state.lines + framed.lines,
    }
}

/// A session after the chunks `chunks`, received in turn.
pub open spec fn inbound_after(state: Inbound, chunks: Seq<Seq<u8>>) -> Inbound
    decreases chunks.len(),
{
    if chunks.len() == 0 {
        state
    } else {
        inbound_after(inbound_step(state, chunks[0]), chunks.skip(1))
    }
}

/// The chunks `chunks`, one after the other.
pub open spec fn joined(chunks: Seq<Seq<u8>>) -> Seq<u8>
    decreases chunks.len(),
{
    if chunks.len() == 0 {
        Seq::empty()
    } else {
        chunks[0] + joined(chunks.skip(1))
    }
}

/// A session at its start.
pub open spec fn inbound_start() -> Inbound {
    Inbound { held: Seq::empty(), buffer: Seq::empty(), lines: Seq::empty() }
}

/// However a stream is cut into chunks, a session makes of the chunks,
/// received in turn, what it makes of the stream received at once: the
/// same lines in the same order, the same framing buffer, the same
/// sequence held back.
pub proof fn lemma_receive_stream(state: Inbound, chunks: Seq<Seq<u8>>)
    requires
        chunks.len() > 0,
    ensures
        inbound_after(state, chunks) == inbound_step(state, joined(chunks)),
    decreases chunks.len(),
{
    let first = chunks[0];
    let rest = chunks.skip(1);
    let next = inbound_step(state, first);
    if rest.len() == 0 {
        assert(joined(rest) =~= Seq::<u8>::empty());
        assert(first + joined(rest) =~= first);
        assert(inbound_after(next, rest) == next);
    } else {
        lemma_receive_stream(next, rest);
        lemma_receive_chunks(state.held, state.buffer, first, joined(rest));
        let whole = inbound_step(state, first + joined(rest));
        let after = inbound_step(next, joined(rest));
        assert(after.lines =~= whole.lines);
        assert(after == whole);
    }
}

/// The lines `lines`, each followed by its line end, hold the byte `b`
/// nowhere if no line holds it and it is no byte of a line end.
pub proof fn lemma_join_lines_without(lines: Seq<Seq<u8>>, b: u8)
    requires
        b != CR,
        b != LF,
        forall|k: int, i: int|
            0 <= k < lines.len() && 0 <= i < lines[k].len() ==> #[trigger] lines[k][i] != b,
    ensures
        forall|i: int| 0 <= i < join_lines(lines).len() ==> join_lines(lines)[i] != b,
    decreases lines.len(),
{
    if lines.len() > 0 {
        let rest = lines.skip(1);
        assert forall|k: int, i: int| 0 <= k < rest.len() && 0 <= i < rest[k].len() implies
            #[trigger] rest[k][i] != b by {
            assert(rest[k] == lines[k + 1]);
            assert(lines[k + 1][i] != b);
        }
        lemma_join_lines_without(rest, b);
        let first = lines[0];
        let s = join_lines(lines);
        assert forall|i: int| 0 <= i < s.len() implies s[i] != b by {
            if i < first.len() {
                assert(s[i] == first[i]);
                assert(lines[0][i] != b);
            } else if i < first.len() + 2 {
                assert(s[i] == seq![CR, LF][i - first.len()]);
            } else {
                assert(s[i] == join_lines(rest)[i - first.len() - 2]);
            }
        }
    }
}

/// From a stream that is the lines `lines`, each followed by its line
/// end, and a tail, a session that starts afresh hands on exactly these
/// lines, each once and in their order, and keeps the tail in its framing
/// buffer, however the stream is cut into chunks; provided that no line
/// holds a line end, a backspace or an `IAC`, and the tail no line end and
/// no `IAC`.
pub proof fn lemma_receive_lines(chunks: Seq<Seq<u8>>, lines: Seq<Seq<u8>>, tail: Seq<u8>)
    requires
        chunks.len() > 0,
        joined(chunks) == join_lines(lines) + tail,
        forall|k: int| 0 <= k < lines.len() ==> !has_crlf(#[trigger] lines[k]),
        forall|k: int, i: int|
            0 <= k < lines.len() && 0 <= i < lines[k].len() ==> #[trigger] lines[k][i] != BS
                && lines[k][i] != IAC,
        !has_crlf(tail),
        forall|i: int| 0 <= i < tail.len() ==> tail[i] != IAC,
    ensures
        inbound_after(inbound_start(), chunks) == (Inbound {
            held: Seq::empty(),
            buffer: tail,
            lines: lines,
        }),
{
    let stream = joined(chunks);
    lemma_receive_stream(inbound_start(), chunks);
    lemma_join_lines_without(lines, IAC);
    assert forall|i: int| 0 <= i < stream.len() implies stream[i] != IAC by {
        if i < join_lines(lines).len() {
            assert(stream[i] == join_lines(lines)[i]);
        } else {
            assert(stream[i] == tail[i - join_lines(lines).len()]);
        }
    }
    lemma_filtered_plain(stream);
    assert(Seq::<u8>::empty() + stream =~= stream);
    lemma_frame_joined(lines, tail);
    let edited = lines.map_values(|line: Seq<u8>| edit(line));
    assert forall|k: int| 0 <= k < lines.len() implies edited[k] == lines[k] by {
        let line = lines[k];
        assert forall|i: int| 0 <= i < line.len() implies line[i] != BS by {
            assert(lines[k][i] != BS);
        }
        lemma_edit_plain(line);
    }
    assert(edited =~= lines);
    let after = inbound_step(inbound_start(), stream);
    assert(after.lines =~= lines);
}

/// The bytes of `message` with a line end added.
pub open spec fn with_line_end(message: Seq<char>) -> Seq<char> {
    message + seq!['\r', '\n']
}

impl Connection {
    /// The session of the peer `addr`: ANSI mode on, nothing received yet,
    /// not started.
    pub fn new(addr: Endpoint) -> (connection: Connection)
        ensures
            connection.addr == addr,
            connection.ansi_mode,
            !connection.disconnected,
            !connection.started,
            connection.pending@ == Seq::<u8>::empty(),
            connection.incoming_buffer@ == Seq::<u8>::empty(),
    {
        Connection {
            addr,
            ansi_mode: true,
            ansi_colors: AnsiColors::get(),
            disconnected: false,
            started: false,
            pending: Vec::new(),
            incoming_buffer: FramingBuffer::new(),
        }
    }

    /// Marks the session as started. Returns whether the reader and the
    /// writer are to be spawned now: `true` on the first call, `false` on
    /// every later one.
    pub fn start_processing(&mut self) -> (spawn: bool)
        ensures
            spawn == !old(self).started,
            final(self).started,
            final(self).addr == old(self).addr,
            final(self).ansi_mode == old(self).ansi_mode,
            final(self).disconnected == old(self).disconnected,
            final(self).pending == old(self).pending,
            final(self).incoming_buffer == old(self).incoming_buffer,
    {
        let spawn = !self.started;
        self.started = true;
        spawn
    }

    /// Ends the session: a farewell line with the reason, if one is given,
    /// then the request to disconnect the peer.
    pub fn disconnect(&mut self, reason: String) -> (outbound: Vec<NetworkMessage>)
        ensures
            final(self).disconnected,
            final(self).addr == old(self).addr,
            final(self).ansi_mode == old(self).ansi_mode,
            final(self).started == old(self).started,
            final(self).pending == old(self).pending,
            final(self).incoming_buffer == old(self).incoming_buffer,
            outbound@.len() == if reason@.len() > 0 {
                2int
            } else {
                1int
            },
            forall|i: int|
                0 <= i < outbound@.len() ==> #[trigger] outbound@[i].dest == old(self).addr,
            reason@.len() > 0 ==> outbound@[0].data@ == compile(
                encode_utf8(with_line_end(reason@)),
                old(self).ansi_mode,
            ),
            outbound@.last().data@ == Seq::<u8>::empty(),
    {
        let mut outbound: Vec<NetworkMessage> = Vec::new();
        if !reason.as_str().is_empty() {
            outbound.push(self.send_line(reason));
        }
        outbound.push(self.send_raw(&[]));
        self.disconnected = true;
        outbound
    }

    /// The message that carries `message` to the peer as it is.
    pub fn send_raw(&self, message: &[u8]) -> (outmsg: NetworkMessage)
        ensures
            outmsg.dest == self.addr,
            outmsg.data@ == message@,
    {
        let msgvec = to_vec(message);
        NetworkMessage { dest: self.addr, data: msgvec }
    }

    /// The message that tells the peer that the server will echo
    /// (`IAC WILL ECHO`) or will not (`IAC WONT ECHO`).
    pub fn set_echo(&self, enable: bool) -> (outmsg: NetworkMessage)
        ensures
            outmsg.dest == self.addr,
            outmsg.data@ == seq![IAC, if enable {
                WILL
            } else {
                WONT
            }, TELOPT_ECHO],
    {
        let mut data: Vec<u8> = Vec::new();
        data.push(IAC);
        if enable {
            data.push(WILL);
        } else {
            data.push(WONT);
        }
        data.push(TELOPT_ECHO);
        let outmsg = NetworkMessage { dest: self.addr, data };
        assert(outmsg.data@ =~= seq![IAC, if enable {
            WILL
        } else {
            WONT
        }, TELOPT_ECHO]);
        outmsg
    }

    /// The message that carries the text `message`, compiled for the
    /// session's ANSI mode, to the peer.
    pub fn send_string(&self, message: String) -> (outmsg: NetworkMessage)
        ensures
            outmsg.dest == self.addr,
            outmsg.data@ == compile(encode_utf8(message@), self.ansi_mode),
    {
        let ansimsg = self.ansi_colors.convert_string(message, self.ansi_mode);
        NetworkMessage { dest: self.addr, data: ansimsg }
    }

    /// As `send_string`, with a line end added to the text.
    pub fn send_line(&self, message: String) -> (outmsg: NetworkMessage)
        ensures
            outmsg.dest == self.addr,
            outmsg.data@ == compile(encode_utf8(with_line_end(message@)), self.ansi_mode),
    {
        proof {
            reveal_strlit("\r\n");
            assert("\r\n"@ =~= seq!['\r', '\n']);
        }
        self.send_string(message.concat("\r\n"))
    }

    /// The writer's step: what to do with a message from the outbound
    /// queue. The request to stop disconnects the session: the request to
    /// disconnect the peer goes out, and the writer ends. Any other message
    /// is sent in the one presentation that it carries.
    pub fn transmit(&mut self, msg: &UserMessage) -> (step: TxStep)
        ensures
            final(self).addr == old(self).addr,
            final(self).ansi_mode == old(self).ansi_mode,
            final(self).started == old(self).started,
            final(self).pending == old(self).pending,
            final(self).incoming_buffer == old(self).incoming_buffer,
            match step {
                TxStep::Stop(outmsg) => {
                    &&& msg.is_sentinel()
                    &&& outmsg.dest == old(self).addr
                    &&& outmsg.data@ == Seq::<u8>::empty()
                    &&& final(self).disconnected
                },
                TxStep::Send(outmsg) => {
                    &&& !msg.is_sentinel()
                    &&& outmsg.dest == old(self).addr
                    &&& outmsg.data@ == rendering(*msg, old(self).ansi_mode)
                    &&& final(self).disconnected == old(self).disconnected
                },
            },
    {
        if msg.is_disconnect() {
            // disconnect user
            self.disconnected = true;
            return TxStep::Stop(self.send_raw(&[]));
        }
        match &msg.jinja {
            Some(jinjamap) => {
                let jinja_str = jinja_process(jinjamap);
                TxStep::Send(self.send_string(jinja_str))
            },
            None => {
                if msg.bytes.len() != 0 {
                    TxStep::Send(self.send_raw(msg.bytes.as_slice()))
                } else {
                    TxStep::Send(self.send_string(msg.string.clone()))
                }
            },
        }
    }

    /// The writer's steps for a run of messages from the outbound queue:
    /// the network messages for those that stand before the first request
    /// to stop, in their order, then the request to disconnect the peer if
    /// the run holds a request to stop; and whether the writer ends. The
    /// bytes that go out are the renderings of the messages, one after the
    /// other in the order in which they were queued.
    pub fn transmit_all(&mut self, msgs: &Vec<UserMessage>) -> (r: (Vec<NetworkMessage>, bool))
        ensures
            final(self).addr == old(self).addr,
            final(self).ansi_mode == old(self).ansi_mode,
            final(self).started == old(self).started,
            final(self).pending == old(self).pending,
            final(self).incoming_buffer == old(self).incoming_buffer,
            final(self).disconnected == (old(self).disconnected || r.1),
            total_bytes(r.0@) == rendered_stream(msgs@, old(self).ansi_mode),
            forall|i: int| 0 <= i < r.0@.len() ==> (#[trigger] r.0@[i]).dest == old(self).addr,
            r.1 == has_sentinel(msgs@),
            !r.1 ==> r.0@.len() == msgs@.len(),
            r.1 ==> r.0@.len() > 0 && r.0@.last().data@.len() == 0,
            forall|i: int|
                0 <= i < r.0@.len() && !(r.1 && i == r.0@.len() - 1) ==> (#[trigger] r.0@[i]).data@
                    == rendering(msgs@[i], old(self).ansi_mode),
    {
        let mut out: Vec<NetworkMessage> = Vec::new();
        let mut i: usize = 0;
        assert(msgs@.skip(0) =~= msgs@);
        while i < msgs.len()
            invariant
                i <= msgs@.len(),
                out@.len() == i,
                self.addr == old(self).addr,
                self.ansi_mode == old(self).ansi_mode,
                self.started == old(self).started,
                self.pending == old(self).pending,
                self.incoming_buffer == old(self).incoming_buffer,
                self.disconnected == old(self).disconnected,
                forall|j: int| 0 <= j < i ==> !(#[trigger] msgs@[j]).is_sentinel(),
                forall|j: int| 0 <= j < i ==> (#[trigger] out@[j]).dest == self.addr,
                forall|j: int|
                    0 <= j < i ==> (#[trigger] out@[j]).data@ == rendering(
                        msgs@[j],
                        self.ansi_mode,
                    ),
                rendered_stream(msgs@, self.ansi_mode) == total_bytes(out@) + rendered_stream(
                    msgs@.skip(i as int),
                    self.ansi_mode,
                ),
            decreases msgs@.len() - i,
        {
            let ghost rest = msgs@.skip(i as int);
            assert(rest[0] == msgs@[i as int]);
            assert(rest.skip(1) =~= msgs@.skip(i + 1));
            let ghost before = out@;
            match self.transmit(&msgs[i]) {
                TxStep::Stop(outmsg) => {
                    out.push(outmsg);
                    assert(out@.drop_last() =~= before);
                    assert(total_bytes(out@) =~= total_bytes(before));
                    assert(total_bytes(before) + Seq::<u8>::empty() =~= total_bytes(before));
                    return (out, true);
                },
                TxStep::Send(outmsg) => {
                    out.push(outmsg);
                    assert(out@.drop_last() =~= before);
                    assert(total_bytes(out@) + rendered_stream(
                        msgs@.skip(i + 1),
                        self.ansi_mode,
                    ) =~= total_bytes(before) + rendered_stream(rest, self.ansi_mode));
                },
            }
            i = i + 1;
        }
        assert(total_bytes(out@) + Seq::<u8>::empty() =~= total_bytes(out@));
        (out, false)
    }

    /// The reader's step: what a message from the socket leads to. A
    /// message without bytes says that the peer is gone: the session is
    /// disconnected and its processing ends. Otherwise the telnet commands
    /// are removed from the bytes, a sequence that the bytes end in the
    /// middle of being kept for the next message, and every line that is
    /// complete now is handed on.
    pub fn receive(&mut self, msg: &NetworkMessage) -> (step: RxStep)
        ensures
            final(self).addr == old(self).addr,
            final(self).ansi_mode == old(self).ansi_mode,
            final(self).started == old(self).started,
            msg.is_sentinel() ==> {
                &&& step.stop
                &&& step.lines@.len() == 0
                &&& step.outbound@.len() == 1
                &&& step.outbound@[0].dest == old(self).addr
                &&& step.outbound@[0].data@ == Seq::<u8>::empty()
                &&& final(self).disconnected
                &&& final(self).pending == old(self).pending
                &&& final(self).incoming_buffer == old(self).incoming_buffer
            },
            !msg.is_sentinel() ==> {
                let framed = inbound_framed(
                    old(self).pending@,
                    old(self).incoming_buffer@,
                    msg.data@,
                );
                &&& !step.stop
                &&& step.outbound@.len() == 0
                &&& final(self).disconnected == old(self).disconnected
                &&& final(self).pending@ == inbound_pending(old(self).pending@, msg.data@)
                &&& final(self).incoming_buffer@ == framed.rest
                &&& step.lines@.len() == framed.lines.len()
                &&& forall|i: int|
                    0 <= i < framed.lines.len() ==> is_line_message(
                        #[trigger] step.lines@[i],
                        framed.lines[i],
                    )
            },
    {
        if msg.data.len() == 0 {
            let outbound = self.disconnect(String::new());
            return RxStep { lines: Vec::new(), outbound, stop: true };
        }
        let mut input: Vec<u8> = Vec::new();
        input.append(&mut self.pending);
        append_bytes(&mut input, msg.data.as_slice());
        let (data, rest) = split_telnet(input.as_slice());
        self.pending = rest;
        let linebufs = self.incoming_buffer.feed(data.as_slice());
        let ghost framed = frame(old(self).incoming_buffer@ + payload(input@));
        let mut lines: Vec<UserMessage> = Vec::new();
        let mut k: usize = 0;
        while k < linebufs.len()
            invariant
                k <= linebufs@.len(),
                line_views(linebufs@) == framed.lines,
                lines@.len() == k,
                forall|j: int|
                    0 <= j < k ==> is_line_message(#[trigger] lines@[j], framed.lines[j]),
            decreases linebufs@.len() - k,
        {
            let linebuf = &linebufs[k];
            assert(line_views(linebufs@)[k as int] == linebuf@);
            let line = from_utf8_lossy(linebuf.as_slice());
            let usermsg = UserMessage { bytes: Vec::new(), string: line, jinja: None };
            lines.push(usermsg);
            k = k + 1;
        }
        RxStep { lines, outbound: Vec::new(), stop: false }
    }
}

impl Clone for Connection {
    fn clone(&self) -> (copy: Connection)
        ensures
            copy.addr == self.addr,
            copy.ansi_mode == self.ansi_mode,
            copy.disconnected == self.disconnected,
            copy.started == self.started,
            copy.pending@ == self.pending@,
            copy.incoming_buffer@ == self.incoming_buffer@,
    {
        Connection {
            addr: self.addr,
            ansi_mode: self.ansi_mode,
            ansi_colors: self.ansi_colors.clone(),
            disconnected: self.disconnected,
            started: self.started,
            pending: to_vec(self.pending.as_slice()),
            incoming_buffer: self.incoming_buffer.clone(),
        }
    }
}

} // verus!
