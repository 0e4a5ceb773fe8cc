//! The decisions of one visit, as a state machine: the caller performs each
//! action (connect, handshake, write, read) and reports what happened as an
//! event; the machine answers with the next action.
use vstd::prelude::*;
use vstd::utf8::encode_utf8;
use crate::error::ClientError;
use crate::request::{request_line, GeminiRequest, RequestView};

verus! {

/// How long a connection attempt may take, in seconds.
pub const CONNECT_TIMEOUT_SECS: u64 = 5;

/// A name for the text that a lossy UTF-8 decoding gives for some bytes.
pub uninterp spec fn lossy_text(b: Seq<u8>) -> Seq<char>;

/// Relies on `String::from_utf8_lossy`: the text depends on the bytes alone;
/// invalid sequences become replacement characters and never fail.
#[verifier::external_body]
fn decode_lossy(b: &Vec<u8>) -> (r: String)
    ensures
        r@ == lossy_text(b@),
{
    String::from_utf8_lossy(b.as_slice()).to_string()
}

/// The text of a response: no bytes give no text.
pub open spec fn response_text(b: Seq<u8>) -> Seq<char> {
    if b.len() == 0 {
        Seq::empty()
    } else {
        lossy_text(b)
    }
}

/// Where a visit stands.
#[derive(Clone, Copy, Debug, PartialEq, Eq, Structural)]
pub enum Stage {
    /// Waiting for the connection to open.
    Connecting,
    /// Waiting for the encrypted session to be negotiated.
    Handshaking,
    /// Writing the request line; the number of bytes already written.
    Sending(usize),
    /// Reading the response until the peer closes.
    Receiving,
    /// The response was read to its end.
    Done,
    /// The visit failed; nothing further happens.
    Failed,
}

/// What the caller observed after performing an action.
pub enum Event {
    Connected,
    ConnectFailed,
    HandshakeDone,
    HandshakeFailed,
    /// Some bytes of the pending request line were written.
    Wrote(usize),
    WriteFailed,
    /// Some bytes of the response arrived.
    Received(Vec<u8>),
    /// The peer closed the session in order.
    Closed,
    ReceiveFailed,
}

/// What the caller is to do next.
pub enum Action {
    /// Negotiate the encrypted session over the open connection.
    Handshake,
    /// Write these bytes (the rest of the request line).
    Write(Vec<u8>),
    /// Read more of the response.
    Read,
    /// The visit is over; this is the page.
    Finish(String),
    /// The visit is over and failed.
    Fail(ClientError),
    /// Nothing to do: the event did not fit the stage.
    Idle,
}

pub ghost enum ActionView {
    Handshake,
    Write(Seq<u8>),
    Read,
    Finish(Seq<char>),
    Fail(ClientError),
    Idle,
}

impl View for Action {
    type V = ActionView;

    open spec fn view(&self) -> ActionView {
        match self {
            Action::Handshake => ActionView::Handshake,
            Action::Write(b) => ActionView::Write(b@),
            Action::Read => ActionView::Read,
            Action::Finish(t) => ActionView::Finish(t@),
            Action::Fail(e) => ActionView::Fail(*e),
            Action::Idle => ActionView::Idle,
        }
    }
}

/// A visit as the bytes of its request line, its stage, and the bytes of the
/// response received so far.
pub ghost struct VisitView {
    pub line: Seq<u8>,
    pub stage: Stage,
    pub received: Seq<u8>,
}

/// The stage a visit is in once `sent` bytes of its line are written.
pub open spec fn after_writing(v: VisitView, sent: int) -> (VisitView, ActionView) {
    if sent >= v.line.len() {
        (VisitView { stage: Stage::Receiving, ..v }, ActionView::Read)
    } else {
        (
            VisitView { stage: Stage::Sending(sent as usize), ..v },
            ActionView::Write(v.line.subrange(sent, v.line.len() as int)),
        )
    }
}

/// One step of a visit: the next state and action after an event.
pub open spec fn next(v: VisitView, e: Event) -> (VisitView, ActionView) {
    let failed = VisitView { stage: Stage::Failed, received: Seq::empty(), ..v };
    match v.stage {
        Stage::Connecting => match e {
            Event::Connected => (VisitView { stage: Stage::Handshaking, ..v }, ActionView::Handshake),
            Event::ConnectFailed => (failed, ActionView::Fail(ClientError::Connect)),
            _ => (v, ActionView::Idle),
        },
        Stage::Handshaking => match e {
            Event::HandshakeDone => after_writing(v, 0),
            Event::HandshakeFailed => (failed, ActionView::Fail(ClientError::Handshake)),
            _ => (v, ActionView::Idle),
        },
        Stage::Sending(sent) => match e {
            Event::Wrote(n) => if n == 0 || sent + n > v.line.len() {
                (failed, ActionView::Fail(ClientError::Send))
            } else {
                after_writing(v, sent + n)
            },
            Event::WriteFailed => (failed, ActionView::Fail(ClientError::Send)),
            _ => (v, ActionView::Idle),
        },
        Stage::Receiving => match e {
            Event::Received(chunk) => (
                VisitView { received: v.received + chunk@, ..v },
                ActionView::Read,
            ),
            Event::Closed => (
                VisitView { stage: Stage::Done, ..v },
                ActionView::Finish(response_text(v.received)),
            ),
            Event::ReceiveFailed => (failed, ActionView::Fail(ClientError::Receive)),
            _ => (v, ActionView::Idle),
        },
        _ => (v, ActionView::Idle),
    }
}

/// The actions a visit answers to a sequence of events, one for each.
pub open spec fn answers(v: VisitView, es: Seq<Event>) -> Seq<ActionView>
    decreases es.len(),
{
    if es.len() == 0 {
        Seq::empty()
    } else {
        let (w, a) = next(v, es[0]);
        seq![a] + answers(w, es.drop_first())
    }
}

/// The state of a visit in which no bytes are written beyond the line.
pub open spec fn visit_ok(v: VisitView) -> bool {
    match v.stage {
        Stage::Sending(sent) => sent <= v.line.len(),
        _ => true,
    }
}

/// A visit that is yet to connect, for the given request.
pub open spec fn start_view(d: RequestView) -> VisitView {
    VisitView {
        line: encode_utf8(request_line(d)),
        stage: Stage::Connecting,
        received: Seq::empty(),
    }
}

/// Once failed, a visit stays failed and does nothing, whatever happens next.
pub proof fn lemma_failed_stays_idle(v: VisitView, es: Seq<Event>)
    requires
        v.stage == Stage::Failed,
    ensures
        forall|i: int| 0 <= i < answers(v, es).len() ==> answers(v, es)[i] == ActionView::Idle,
        answers(v, es).len() == es.len(),
    decreases es.len(),
{
    if es.len() > 0 {
        lemma_failed_stays_idle(v, es.drop_first());
        let r = answers(v, es);
        assert(r == seq![ActionView::Idle] + answers(v, es.drop_first()));
    }
}

/// A visit whose certificate the trust policy rejects fails with a handshake
/// error and, whatever follows, never writes the request line.
pub proof fn lemma_rejected_handshake_never_sends(v: VisitView, es: Seq<Event>)
    requires
        v.stage == Stage::Handshaking,
    ensures
        next(v, Event::HandshakeFailed).1 == ActionView::Fail(ClientError::Handshake),
        forall|i: int|
            0 <= i < answers(next(v, Event::HandshakeFailed).0, es).len() ==> !(answers(
                next(v, Event::HandshakeFailed).0,
                es,
            )[i] is Write),
{
    lemma_failed_stays_idle(next(v, Event::HandshakeFailed).0, es);
}

/// A connection that cannot be opened in time ends the visit with a connect
/// error, and nothing is attempted afterwards.
pub proof fn lemma_connect_failure_ends_visit(v: VisitView, es: Seq<Event>)
    requires
        v.stage == Stage::Connecting,
    ensures
        next(v, Event::ConnectFailed).1 == ActionView::Fail(ClientError::Connect),
        forall|i: int|
            0 <= i < answers(next(v, Event::ConnectFailed).0, es).len() ==> answers(
                next(v, Event::ConnectFailed).0,
                es,
            )[i] == ActionView::Idle,
{
    lemma_failed_stays_idle(next(v, Event::ConnectFailed).0, es);
}

/// A server that closes right after the handshake, having sent nothing,
/// yields an empty page and no error.
pub proof fn lemma_silent_close_is_empty_page(d: RequestView, n: usize)
    requires
        n == start_view(d).line.len(),
    ensures
        answers(
            start_view(d),
            seq![Event::Connected, Event::HandshakeDone, Event::Wrote(n), Event::Closed],
        ) == seq![
            ActionView::Handshake,
            ActionView::Write(start_view(d).line),
            ActionView::Read,
            ActionView::Finish(Seq::empty()),
        ],
{
    let v0 = start_view(d);
    let line = request_line(d);
    assert(line.len() > 0);
    assert(encode_utf8(line).len() > 0);
    let es = seq![Event::Connected, Event::HandshakeDone, Event::Wrote(n), Event::Closed];
    let (v1, a1) = next(v0, es[0]);
    let (v2, a2) = next(v1, es[1]);
    let (v3, a3) = next(v2, es[2]);
    let (v4, a4) = next(v3, es[3]);
    assert(v0.line.subrange(0, v0.line.len() as int) =~= v0.line);
    assert(es.drop_first() =~= seq![Event::HandshakeDone, Event::Wrote(n), Event::Closed]);
    assert(es.drop_first().drop_first() =~= seq![Event::Wrote(n), Event::Closed]);
    assert(es.drop_first().drop_first().drop_first() =~= seq![Event::Closed]);
    assert(es.drop_first().drop_first().drop_first().drop_first() =~= Seq::<Event>::empty());
    assert(answers(v4, Seq::empty()) == Seq::<ActionView>::empty());
    assert(answers(v3, seq![Event::Closed]) =~= seq![a4]);
    assert(answers(v2, seq![Event::Wrote(n), Event::Closed]) =~= seq![a3, a4]);
    assert(answers(v1, seq![Event::HandshakeDone, Event::Wrote(n), Event::Closed]) =~= seq![
        a2,
        a3,
        a4,
    ]);
    assert(answers(v0, es) =~= seq![a1, a2, a3, a4]);
}

/// How the response is cut into reads does not matter: receiving `a` and then
/// `b` leaves a visit exactly as receiving `a` and `b` at once does, so a
/// server that sends the same bytes twice gives the same page twice.
pub proof fn lemma_chunking_is_invisible(v: VisitView, a: Vec<u8>, b: Vec<u8>, ab: Vec<u8>)
    requires
        v.stage == Stage::Receiving,
        ab@ == a@ + b@,
    ensures
        next(next(v, Event::Received(a)).0, Event::Received(b)) == next(v, Event::Received(ab)),
{
    assert(v.received + a@ + b@ =~= v.received + ab@);
}

/// The state a visit reaches after a sequence of events.
pub open spec fn after(v: VisitView, es: Seq<Event>) -> VisitView
    decreases es.len(),
{
    if es.len() == 0 {
        v
    } else {
        after(next(v, es[0]).0, es.drop_first())
    }
}

/// The bytes of a sequence of chunks, one after another.
pub open spec fn joined(cs: Seq<Vec<u8>>) -> Seq<u8>
    decreases cs.len(),
{
    if cs.len() == 0 {
        Seq::empty()
    } else {
        cs[0]@ + joined(cs.drop_first())
    }
}

/// The events of a response arriving in the given chunks.
pub open spec fn deliveries(cs: Seq<Vec<u8>>) -> Seq<Event> {
    Seq::new(cs.len(), |i: int| Event::Received(cs[i]))
}

/// Receiving a sequence of chunks appends their bytes and changes nothing else.
pub proof fn lemma_deliveries_append(v: VisitView, cs: Seq<Vec<u8>>)
    requires
        v.stage == Stage::Receiving,
    ensures
        after(v, deliveries(cs)) == (VisitView { received: v.received + joined(cs), ..v }),
    decreases cs.len(),
{
    if cs.len() == 0 {
        assert(v.received + joined(cs) =~= v.received);
    } else {
        let w = next(v, Event::Received(cs[0])).0;
        assert(deliveries(cs).drop_first() =~= deliveries(cs.drop_first()));
        lemma_deliveries_append(w, cs.drop_first());
        assert(w.received + joined(cs.drop_first()) =~= v.received + joined(cs));
    }
}

/// A deterministic server sends the same bytes on every visit, though the
/// network may cut them differently: two visits that receive chunks with the
/// same bytes and are then closed reach the same state and give the same page.
pub proof fn lemma_same_bytes_same_page(v: VisitView, cs1: Seq<Vec<u8>>, cs2: Seq<Vec<u8>>)
    requires
        v.stage == Stage::Receiving,
        joined(cs1) == joined(cs2),
    ensures
        after(v, deliveries(cs1)) == after(v, deliveries(cs2)),
        next(after(v, deliveries(cs1)), Event::Closed) == next(
            after(v, deliveries(cs2)),
            Event::Closed,
        ),
{
    lemma_deliveries_append(v, cs1);
    lemma_deliveries_append(v, cs2);
}

/// The bytes of `v` from index `from` on.
fn tail(v: &Vec<u8>, from: usize) -> (r: Vec<u8>)
    requires
        from <= v@.len(),
    ensures
        r@ == v@.subrange(from as int, v@.len() as int),
{
    let mut r: Vec<u8> = Vec::new();
    let mut i: usize = from;
    while i < v.len()
        invariant
            from <= i <= v@.len(),
            r@ == v@.subrange(from as int, i as int),
        decreases v@.len() - i,
    {
        r.push(v[i]);
        i = i + 1;
        proof {
            assert(r@ =~= v@.subrange(from as int, i as int));
        }
    }
    r
}

/// One visit in progress.
pub struct Visit {
    line: Vec<u8>,
    stage: Stage,
    received: Vec<u8>,
}

impl View for Visit {
    type V = VisitView;

    closed spec fn view(&self) -> VisitView {
        VisitView { line: self.line@, stage: self.stage, received: self.received@ }
    }
}

impl Visit {
    pub open spec fn wf(&self) -> bool {
        visit_ok(self@)
    }

    /// A visit for `request`, about to connect: the first action is always
    /// to open the connection.
    pub fn new(request: &GeminiRequest) -> (r: Visit)
        ensures
            r@ == start_view(request@),
            r.wf(),
    {
        let line = request.request();
        Visit { line: line.as_str().as_bytes_vec(), stage: Stage::Connecting, received: Vec::new() }
    }

    pub fn stage(&self) -> (r: Stage)
        ensures
            r == self@.stage,
    {
        self.stage
    }

    fn write_from(&mut self, sent: usize) -> (a: Action)
        requires
            sent <= old(self)@.line.len(),
        ensures
            (final(self)@, a@) == after_writing(old(self)@, sent as int),
    {
        if sent >= self.line.len() {
            self.stage = Stage::Receiving;
            Action::Read
        } else {
            self.stage = Stage::Sending(sent);
            Action::Write(tail(&self.line, sent))
        }
    }

    fn fail(&mut self, e: ClientError) -> (a: Action)
        ensures
            final(self)@ == (VisitView {
                stage: Stage::Failed,
                received: Seq::empty(),
                ..old(self)@
            }),
            a@ == ActionView::Fail(e),
    {
        self.stage = Stage::Failed;
        self.received = Vec::new();
        Action::Fail(e)
    }

    /// Takes in what happened and answers with what to do next.
    pub fn step(&mut self, event: Event) -> (a: Action)
        requires
            old(self).wf(),
        ensures
            final(self).wf(),
            (final(self)@, a@) == next(old(self)@, event),
    {
        match self.stage {
            Stage::Connecting => match event {
                Event::Connected => {
                    self.stage = Stage::Handshaking;
                    Action::Handshake
                },
                Event::ConnectFailed => self.fail(ClientError::Connect),
                _ => Action::Idle,
            },
            Stage::Handshaking => match event {
                Event::HandshakeDone => self.write_from(0),
                Event::HandshakeFailed => self.fail(ClientError::Handshake),
                _ => Action::Idle,
            },
            Stage::Sending(sent) => match event {
                Event::Wrote(n) => {
                    if n == 0 || n > self.line.len() - sent {
                        self.fail(ClientError::Send)
                    } else {
                        self.write_from(sent + n)
                    }
                },
                Event::WriteFailed => self.fail(ClientError::Send),
                _ => Action::Idle,
            },
            Stage::Receiving => match event {
                Event::Received(chunk) => {
                    let mut chunk = chunk;
                    self.received.append(&mut chunk);
                    Action::Read
                },
                Event::Closed => {
                    self.stage = Stage::Done;
                    if self.received.len() == 0 {
                        Action::Finish(String::new())
                    } else {
                        Action::Finish(decode_lossy(&self.received))
                    }
                },
                Event::ReceiveFailed => self.fail(ClientError::Receive),
                _ => Action::Idle,
            },
            _ => Action::Idle,
        }
    }
}

} // verus!
