//! One accepted connection: read one line, ask the guest, write its answer,
//! close.
//!
//! The connection is a state machine fed with what the socket and the guest
//! bridge report. Each step answers with the next thing to do. Connections
//! share nothing, so one failing never touches another.
use vstd::prelude::*;
use vstd::string::StrSliceExecFns;
use vstd::utf8::{decode_utf8, encode_utf8, valid_utf8};
use crate::listener::{listen_next, ListenerAction, ListenerEvent, ListenerPhase};
use crate::text::utf8_text;

verus! {

/// Why a connection was closed without an answer.
#[derive(Clone, Copy, Debug, PartialEq, Eq, Structural)]
pub enum ConnectionError {
    /// The stream ended before a newline arrived.
    IncompleteRequest,
    /// The request line is not valid UTF-8.
    InvalidText,
    /// Reading from or writing to the socket failed.
    Io,
    /// The guest bridge could not produce an answer.
    Invocation,
    /// An event arrived that the connection's phase does not expect.
    OutOfOrder,
}

#[derive(Clone, Copy, Debug, PartialEq, Eq, Structural)]
pub enum Phase {
    Reading,
    AwaitingReply,
    Writing,
    Closed,
}

/// What the socket or the guest bridge reports to a connection.
pub enum ConnEvent {
    Data(Vec<u8>),
    EndOfStream,
    ReadFailed,
    Reply(String),
    InvokeFailed,
    Written,
    WriteFailed,
}

/// What the connection asks for next.
pub enum ConnAction {
    /// Read more bytes from the socket.
    Read,
    /// Call the guest bridge for this component with this line.
    Invoke { component_id: String, line: String },
    /// Write these bytes to the socket, once.
    Write(Vec<u8>),
    /// Close the socket; the outcome is for the operator's log.
    Close(Result<(), ConnectionError>),
}

pub enum ConnEventView {
    Data(Seq<u8>),
    EndOfStream,
    ReadFailed,
    Reply(Seq<char>),
    InvokeFailed,
    Written,
    WriteFailed,
}

pub enum ConnActionView {
    Read,
    Invoke { component: Seq<char>, line: Seq<char> },
    Write(Seq<u8>),
    Close(Result<(), ConnectionError>),
}

pub struct ConnView {
    pub component: Seq<char>,
    pub buffer: Seq<u8>,
    pub phase: Phase,
}

impl View for ConnEvent {
    type V = ConnEventView;

    open spec fn view(&self) -> ConnEventView {
        match self {
            ConnEvent::Data(b) => ConnEventView::Data(b@),
            ConnEvent::EndOfStream => ConnEventView::EndOfStream,
            ConnEvent::ReadFailed => ConnEventView::ReadFailed,
            ConnEvent::Reply(s) => ConnEventView::Reply(s@),
            ConnEvent::InvokeFailed => ConnEventView::InvokeFailed,
            ConnEvent::Written => ConnEventView::Written,
            ConnEvent::WriteFailed => ConnEventView::WriteFailed,
        }
    }
}

impl View for ConnAction {
    type V = ConnActionView;

    open spec fn view(&self) -> ConnActionView {
        match self {
            ConnAction::Read => ConnActionView::Read,
            ConnAction::Invoke { component_id, line } => ConnActionView::Invoke {
                component: component_id@,
                line: line@,
            },
            ConnAction::Write(b) => ConnActionView::Write(b@),
            ConnAction::Close(r) => ConnActionView::Close(*r),
        }
    }
}

pub const NEWLINE: u8 = 10;

pub open spec fn has_newline(b: Seq<u8>) -> bool {
    exists|i: int| 0 <= i < b.len() && b[i] == NEWLINE
}

/// `i` is the position of the first newline in `b`.
pub open spec fn line_end(b: Seq<u8>, i: int) -> bool {
    &&& 0 <= i < b.len()
    &&& b[i] == NEWLINE
    &&& forall|j: int| 0 <= j < i ==> b[j] != NEWLINE
}

/// The bytes before the first newline.
pub open spec fn request_line(b: Seq<u8>) -> Seq<u8> {
    b.subrange(0, choose|i: int| line_end(b, i))
}

pub open spec fn closed(s: ConnView) -> ConnView {
    ConnView { component: s.component, buffer: Seq::empty(), phase: Phase::Closed }
}

/// The protocol of one connection: the state after an event, and what to do.
pub open spec fn conn_next(s: ConnView, e: ConnEventView) -> (ConnView, ConnActionView) {
    match (s.phase, e) {
        (Phase::Reading, ConnEventView::Data(chunk)) => {
            let b = s.buffer + chunk;
            if !has_newline(b) {
                (ConnView { buffer: b, ..s }, ConnActionView::Read)
            } else if valid_utf8(request_line(b)) {
                (
                    ConnView { component: s.component, buffer: Seq::empty(), phase: Phase::AwaitingReply },
                    ConnActionView::Invoke {
                        component: s.component,
                        line: decode_utf8(request_line(b)),
                    },
                )
            } else {
                (closed(s), ConnActionView::Close(Err(ConnectionError::InvalidText)))
            }
        },
        (Phase::Reading, ConnEventView::EndOfStream) => (
            closed(s),
            ConnActionView::Close(Err(ConnectionError::IncompleteRequest)),
        ),
        (Phase::Reading, ConnEventView::ReadFailed) => (
            closed(s),
            ConnActionView::Close(Err(ConnectionError::Io)),
        ),
        (Phase::AwaitingReply, ConnEventView::Reply(r)) => (
            ConnView { phase: Phase::Writing, ..s },
            ConnActionView::Write(encode_utf8(r)),
        ),
        (Phase::AwaitingReply, ConnEventView::InvokeFailed) => (
            closed(s),
            ConnActionView::Close(Err(ConnectionError::Invocation)),
        ),
        (Phase::Writing, ConnEventView::Written) => (closed(s), ConnActionView::Close(Ok(()))),
        (Phase::Writing, ConnEventView::WriteFailed) => (
            closed(s),
            ConnActionView::Close(Err(ConnectionError::Io)),
        ),
        _ => (closed(s), ConnActionView::Close(Err(ConnectionError::OutOfOrder))),
    }
}

/// One accepted connection of a component's listener.
pub struct Connection {
    pub component_id: String,
    pub buffer: Vec<u8>,
    pub phase: Phase,
}

impl View for Connection {
    type V = ConnView;

    open spec fn view(&self) -> ConnView {
        ConnView { component: self.component_id@, buffer: self.buffer@, phase: self.phase }
    }
}

impl Connection {
    /// While reading, the bytes held back contain no newline yet.
    pub open spec fn wf(&self) -> bool {
        self.phase == Phase::Reading ==> !has_newline(self.buffer@)
    }

    /// A freshly accepted connection for `component_id`; the first action
    /// is to read.
    pub fn new(component_id: String) -> (r: Connection)
        ensures
            r.wf(),
            r@ == (ConnView { component: component_id@, buffer: Seq::empty(), phase: Phase::Reading }),
    {
        Connection { component_id, buffer: Vec::new(), phase: Phase::Reading }
    }

    pub fn is_closed(&self) -> (r: bool)
        ensures
            r == (self.phase == Phase::Closed),
    {
        self.phase == Phase::Closed
    }

    fn close(&mut self, outcome: Result<(), ConnectionError>) -> (a: ConnAction)
        ensures
            final(self)@ == closed(old(self)@),
            a@ == ConnActionView::Close(outcome),
    {
        self.buffer = Vec::new();
        self.phase = Phase::Closed;
        ConnAction::Close(outcome)
    }

    /// Takes in bytes that arrived while reading.
    fn receive(&mut self, chunk: Vec<u8>) -> (a: ConnAction)
        requires
            old(self).wf(),
            old(self).phase == Phase::Reading,
        ensures
            final(self).wf(),
            (final(self)@, a@) == conn_next(old(self)@, ConnEventView::Data(chunk@)),
    {
        let ghost b = self.buffer@ + chunk@;
        let mut i: usize = 0;
        while i < chunk.len() && chunk[i] != NEWLINE
            invariant
                0 <= i <= chunk.len(),
                forall|j: int| 0 <= j < i ==> chunk@[j] != NEWLINE,
            decreases chunk.len() - i,
        {
            i = i + 1;
        }
        if i == chunk.len() {
            let mut k: usize = 0;
            let ghost start = self.buffer@;
            while k < chunk.len()
                invariant
                    0 <= k <= chunk.len(),
                    self.buffer@ == start + chunk@.subrange(0, k as int),
                    self.phase == Phase::Reading,
                    forall|j: int| 0 <= j < chunk.len() ==> chunk@[j] != NEWLINE,
                    !has_newline(start),
                    self.component_id@ == old(self).component_id@,
                decreases chunk.len() - k,
            {
                self.buffer.push(chunk[k]);
                k = k + 1;
            }
            assert(chunk@.subrange(0, chunk.len() as int) == chunk@);
            assert(!has_newline(b)) by {
                if has_newline(b) {
                    let n = choose|n: int| 0 <= n < b.len() && b[n] == NEWLINE;
                    if n >= start.len() {
                        assert(chunk@[n - start.len()] == NEWLINE);
                    }
                }
            }
            return ConnAction::Read;
        }
        let ghost at = self.buffer@.len() + i;
        assert(line_end(b, at));
        assert(has_newline(b));
        let mut raw: Vec<u8> = Vec::new();
        let mut k: usize = 0;
        while k < self.buffer.len()
            invariant
                0 <= k <= self.buffer.len(),
                raw@ == self.buffer@.subrange(0, k as int),
            decreases self.buffer.len() - k,
        {
            raw.push(self.buffer[k]);
            k = k + 1;
        }
        let mut k: usize = 0;
        while k < i
            invariant
                0 <= k <= i < chunk.len(),
                raw@ == self.buffer@ + chunk@.subrange(0, k as int),
            decreases i - k,
        {
            raw.push(chunk[k]);
            k = k + 1;
        }
        proof {
            assert forall|n: int| line_end(b, n) implies n == at by {
                if n < at {
                    if n < self.buffer@.len() {
                        assert(self.buffer@[n] == NEWLINE);
                        assert(has_newline(self.buffer@));
                    } else {
                        assert(chunk@[n - self.buffer@.len()] == NEWLINE);
                    }
                }
                assert(!(at < n));
            }
            assert(raw@ == b.subrange(0, at));
        }
        assert(raw@ == request_line(b));
        match utf8_text(raw) {
            Some(line) => {
                self.buffer = Vec::new();
                self.phase = Phase::AwaitingReply;
                ConnAction::Invoke { component_id: self.component_id.clone(), line }
            },
            None => self.close(Err(ConnectionError::InvalidText)),
        }
    }

    /// Advances the connection by one event and returns the next action.
    pub fn step(&mut self, event: ConnEvent) -> (a: ConnAction)
        requires
            old(self).wf(),
        ensures
            final(self).wf(),
            (final(self)@, a@) == conn_next(old(self)@, event@),
    {
        match (self.phase, event) {
            (Phase::Reading, ConnEvent::Data(chunk)) => self.receive(chunk),
            (Phase::Reading, ConnEvent::EndOfStream) => self.close(
                Err(ConnectionError::IncompleteRequest),
            ),
            (Phase::Reading, ConnEvent::ReadFailed) => self.close(Err(ConnectionError::Io)),
            (Phase::AwaitingReply, ConnEvent::Reply(reply)) => {
                self.phase = Phase::Writing;
                ConnAction::Write(reply.as_str().as_bytes_vec())
            },
            (Phase::AwaitingReply, ConnEvent::InvokeFailed) => self.close(
                Err(ConnectionError::Invocation),
            ),
            (Phase::Writing, ConnEvent::Written) => self.close(Ok(())),
            (Phase::Writing, ConnEvent::WriteFailed) => self.close(Err(ConnectionError::Io)),
            _ => self.close(Err(ConnectionError::OutOfOrder)),
        }
    }
}

pub open spec fn fresh(component: Seq<char>) -> ConnView {
    ConnView { component, buffer: Seq::empty(), phase: Phase::Reading }
}

/// A request line `text` followed by a newline reaches the guest as exactly
/// `text`, under the connection's own component; the guest's reply is then
/// written verbatim, and the connection closes once it is written.
pub proof fn lemma_line_is_answered(component: Seq<char>, text: Seq<u8>, reply: Seq<char>)
    requires
        forall|i: int| 0 <= i < text.len() ==> text[i] != NEWLINE,
        valid_utf8(text),
    ensures
        ({
            let (s1, a1) = conn_next(fresh(component), ConnEventView::Data(text.push(NEWLINE)));
            let (s2, a2) = conn_next(s1, ConnEventView::Reply(reply));
            let (s3, a3) = conn_next(s2, ConnEventView::Written);
            &&& a1 == ConnActionView::Invoke { component, line: decode_utf8(text) }
            &&& a2 == ConnActionView::Write(encode_utf8(reply))
            &&& a3 == ConnActionView::Close(Ok(()))
            &&& s3.phase == Phase::Closed
        }),
{
    let b = Seq::<u8>::empty() + text.push(NEWLINE);
    assert(b == text.push(NEWLINE));
    assert(line_end(b, text.len() as int));
    assert(has_newline(b));
    let at = choose|i: int| line_end(b, i);
    assert(at == text.len()) by {
        if at < text.len() {
            assert(b[at] == text[at]);
        }
        if at > text.len() {
            assert(b[text.len() as int] == NEWLINE);
        }
    }
    assert(request_line(b) == text);
}

/// How the request is split over reads does not matter: two reads, the
/// first without a newline, act as one read of both.
pub proof fn lemma_reads_may_be_split(s: ConnView, first: Seq<u8>, second: Seq<u8>)
    requires
        s.phase == Phase::Reading,
        !has_newline(s.buffer + first),
    ensures
        conn_next(conn_next(s, ConnEventView::Data(first)).0, ConnEventView::Data(second))
            == conn_next(s, ConnEventView::Data(first + second)),
{
    assert(s.buffer + first + second == s.buffer + (first + second));
}

/// Bytes without a newline, then the end of the stream, get no answer: the
/// connection only ever asks to read more, then closes as incomplete. The
/// listener that accepted it keeps accepting whatever its connections do.
pub proof fn lemma_unterminated_request_is_dropped(component: Seq<char>, data: Seq<u8>, e: ListenerEvent)
    requires
        forall|i: int| 0 <= i < data.len() ==> data[i] != NEWLINE,
    ensures
        ({
            let (s1, a1) = conn_next(fresh(component), ConnEventView::Data(data));
            let (s2, a2) = conn_next(s1, ConnEventView::EndOfStream);
            &&& a1 == ConnActionView::Read
            &&& a2 == ConnActionView::Close(Err(ConnectionError::IncompleteRequest))
            &&& s2.phase == Phase::Closed
        }),
        listen_next(ListenerPhase::Accepting, e).0 == ListenerPhase::Accepting,
        listen_next(ListenerPhase::Accepting, ListenerEvent::Accepted).1 == ListenerAction::Serve,
{
    let b = Seq::<u8>::empty() + data;
    assert(b == data);
    assert(!has_newline(b));
}

/// Two connections, even of the same component and answered in either
/// order, each pass on their own line and write back their own reply.
pub proof fn lemma_no_cross_talk(
    component: Seq<char>,
    first: Seq<u8>,
    second: Seq<u8>,
    first_reply: Seq<char>,
    second_reply: Seq<char>,
)
    requires
        forall|i: int| 0 <= i < first.len() ==> first[i] != NEWLINE,
        forall|i: int| 0 <= i < second.len() ==> second[i] != NEWLINE,
        valid_utf8(first),
        valid_utf8(second),
    ensures
        ({
            let (a1, x1) = conn_next(fresh(component), ConnEventView::Data(first.push(NEWLINE)));
            let (b1, y1) = conn_next(fresh(component), ConnEventView::Data(second.push(NEWLINE)));
            &&& x1 == ConnActionView::Invoke { component, line: decode_utf8(first) }
            &&& y1 == ConnActionView::Invoke { component, line: decode_utf8(second) }
            &&& conn_next(a1, ConnEventView::Reply(first_reply)).1 == ConnActionView::Write(
                encode_utf8(first_reply),
            )
            &&& conn_next(b1, ConnEventView::Reply(second_reply)).1 == ConnActionView::Write(
                encode_utf8(second_reply),
            )
        }),
{
    lemma_line_is_answered(component, first, first_reply);
    lemma_line_is_answered(component, second, second_reply);
}

/// A failed guest call closes its connection with nothing written, while the
/// listener keeps serving: the next connection's line is answered as usual.
pub proof fn lemma_failed_invocation_is_contained(
    s: ConnView,
    component: Seq<char>,
    next_text: Seq<u8>,
    next_reply: Seq<char>,
)
    requires
        s.phase == Phase::AwaitingReply,
        forall|i: int| 0 <= i < next_text.len() ==> next_text[i] != NEWLINE,
        valid_utf8(next_text),
    ensures
        conn_next(s, ConnEventView::InvokeFailed) == (
            closed(s),
            ConnActionView::Close(Err(ConnectionError::Invocation)),
        ),
        listen_next(ListenerPhase::Accepting, ListenerEvent::Accepted) == (
            ListenerPhase::Accepting,
            ListenerAction::Serve,
        ),
        ({
            let (s1, a1) = conn_next(fresh(component), ConnEventView::Data(next_text.push(NEWLINE)));
            &&& a1 == ConnActionView::Invoke { component, line: decode_utf8(next_text) }
            &&& conn_next(s1, ConnEventView::Reply(next_reply)).1 == ConnActionView::Write(
                encode_utf8(next_reply),
            )
        }),
{
    lemma_line_is_answered(component, next_text, next_reply);
}

} // verus!
