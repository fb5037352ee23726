//! One exchange with the worker over its socket, as a state machine.
//!
//! The machine says which transfer comes next; the caller performs it and
//! reports how it went.

use crate::frame;
use crate::frame::{FrameReader, ReadFailure, ReadStep};
use crate::rpc::{RpcError, RpcErrorView};
use vstd::prelude::*;

verus! {

/// The two kinds of exchange.
#[derive(Debug, Clone, Copy, PartialEq, Eq, Structural)]
pub enum ExchangeKind {
    /// One frame out, one frame back.
    Unary,
    /// One frame out, frames back until the worker closes the connection.
    ServerStream,
}

/// The verb that opens an exchange of this kind.
pub open spec fn verb_of(kind: ExchangeKind) -> Seq<char> {
    match kind {
        ExchangeKind::Unary => "CALL"@,
        ExchangeKind::ServerStream => "SSTREAM"@,
    }
}

impl ExchangeKind {
    /// The verb that opens an exchange of this kind.
    pub fn verb(self) -> (res: &'static str)
        ensures
            res@ == verb_of(self),
            self == ExchangeKind::Unary ==> res@ == "CALL"@,
            self == ExchangeKind::ServerStream ==> res@ == "SSTREAM"@,
    {
        match self {
            ExchangeKind::Unary => "CALL",
            ExchangeKind::ServerStream => "SSTREAM",
        }
    }
}

/// Which transfer is under way.
#[derive(Debug, Clone, Copy, PartialEq, Eq, Structural)]
pub enum ExchangeStage {
    /// The connection is being made.
    Connecting,
    /// The header is being sent.
    SendingHeader,
    /// The request frame is being sent.
    SendingBody,
    /// Bytes of the answer are being received.
    Reading,
    /// A chunk is being handed to the client.
    Delivering,
    /// Nothing: the exchange is over.
    Closed,
}

/// How the last transfer went.
#[derive(Debug, PartialEq, Eq)]
pub enum TransferOutcome {
    /// It succeeded. For a receipt, these are the bytes.
    Completed(Vec<u8>),
    /// The worker closed the connection.
    EndOfInput(RpcError),
    /// It failed in another way.
    Failed(RpcError),
}

/// What to do next.
#[derive(Debug, PartialEq, Eq)]
pub enum ExchangeAction {
    /// Send the header with the verb of this kind and this route.
    SendHeader(ExchangeKind, String),
    /// Send these bytes and flush.
    Send(Vec<u8>),
    /// Receive exactly so many bytes.
    Receive(usize),
    /// Hand this chunk to the client and go on.
    Deliver(Vec<u8>),
    /// The exchange is over, with this answer.
    Done(Vec<u8>),
    /// The stream is over.
    End,
    /// The exchange is over, with this error.
    Fail(RpcError),
}

/// The contents of a `TransferOutcome`.
pub enum OutcomeView {
    Completed(Seq<u8>),
    EndOfInput(RpcErrorView),
    Failed(RpcErrorView),
}

impl View for TransferOutcome {
    type V = OutcomeView;

    open spec fn view(&self) -> OutcomeView {
        match self {
            TransferOutcome::Completed(bytes) => OutcomeView::Completed(bytes@),
            TransferOutcome::EndOfInput(e) => OutcomeView::EndOfInput(e@),
            TransferOutcome::Failed(e) => OutcomeView::Failed(e@),
        }
    }
}

/// The contents of an `ExchangeAction`.
pub enum ActionView {
    SendHeader(ExchangeKind, Seq<char>),
    Send(Seq<u8>),
    Receive(nat),
    Deliver(Seq<u8>),
    Done(Seq<u8>),
    End,
    Fail(RpcErrorView),
}

impl View for ExchangeAction {
    type V = ActionView;

    open spec fn view(&self) -> ActionView {
        match self {
            ExchangeAction::SendHeader(kind, route) => ActionView::SendHeader(*kind, route@),
            ExchangeAction::Send(bytes) => ActionView::Send(bytes@),
            ExchangeAction::Receive(n) => ActionView::Receive(*n as nat),
            ExchangeAction::Deliver(chunk) => ActionView::Deliver(chunk@),
            ExchangeAction::Done(payload) => ActionView::Done(payload@),
            ExchangeAction::End => ActionView::End,
            ExchangeAction::Fail(e) => ActionView::Fail(e@),
        }
    }
}

/// The state of an exchange.
pub struct ExchangeView {
    pub kind: ExchangeKind,
    pub stage: ExchangeStage,
    /// The route that the header names.
    pub route: Seq<char>,
    /// What the request frame carries.
    pub body: Seq<u8>,
    /// The largest acceptable payload length.
    pub limit: nat,
    /// The bytes received and not yet used.
    pub pending: Seq<u8>,
}

impl ExchangeView {
    pub open spec fn at(self, stage: ExchangeStage) -> ExchangeView {
        ExchangeView { stage, ..self }
    }

    /// The exchange is over, with `action`.
    pub open spec fn closed_with(self, action: ActionView) -> (ExchangeView, ActionView) {
        (self.at(ExchangeStage::Closed), action)
    }

    /// Uses the bytes received so far.
    pub open spec fn examined(self) -> (ExchangeView, ActionView) {
        match frame::parse_frame(self.pending, self.limit) {
            frame::Parsed::Short { missing } => (
                self.at(ExchangeStage::Reading),
                ActionView::Receive(missing),
            ),
            frame::Parsed::TooLarge { len } => (ExchangeView {
                pending: self.pending.skip(4),
                ..self
            }).closed_with(
                ActionView::Fail(RpcErrorView::BadRequest(frame::over_limit_message(len))),
            ),
            frame::Parsed::Complete { payload } => {
                let left = ExchangeView {
                    pending: self.pending.skip(4 + payload.len() as int),
                    ..self
                };
                match self.kind {
                    ExchangeKind::Unary => left.closed_with(ActionView::Done(payload)),
                    ExchangeKind::ServerStream => (
                        left.at(ExchangeStage::Delivering),
                        ActionView::Deliver(frame::frame(payload)),
                    ),
                }
            },
        }
    }

    /// What follows when the header has been sent: the request frame, unless
    /// the body is too large for one.
    pub open spec fn request_frame_next(self) -> (ExchangeView, ActionView) {
        if self.body.len() >= frame::LEN_RANGE {
            self.closed_with(
                ActionView::Fail(RpcErrorView::BadRequest(frame::too_large_message())),
            )
        } else if self.body.len() > self.limit {
            self.closed_with(
                ActionView::Fail(
                    RpcErrorView::BadRequest(frame::over_limit_message(self.body.len())),
                ),
            )
        } else {
            (self.at(ExchangeStage::SendingBody), ActionView::Send(frame::frame(self.body)))
        }
    }

    /// The step of the machine.
    pub open spec fn next(self, outcome: OutcomeView) -> (ExchangeView, ActionView) {
        match (self.stage, outcome) {
            (ExchangeStage::Closed, _) => (self, ActionView::End),
            (ExchangeStage::Connecting, OutcomeView::Completed(_)) => (
                self.at(ExchangeStage::SendingHeader),
                ActionView::SendHeader(self.kind, self.route),
            ),
            (ExchangeStage::SendingHeader, OutcomeView::Completed(_)) => self.request_frame_next(),
            (ExchangeStage::SendingBody, OutcomeView::Completed(_)) => self.examined(),
            (ExchangeStage::Reading, OutcomeView::Completed(bytes)) => (ExchangeView {
                pending: self.pending + bytes,
                ..self
            }).examined(),
            (ExchangeStage::Delivering, OutcomeView::Completed(_)) => self.examined(),
            (ExchangeStage::Delivering, _) => self.closed_with(ActionView::End),
            (ExchangeStage::Reading, OutcomeView::EndOfInput(e)) => if self.kind
                == ExchangeKind::ServerStream && self.pending.len() < 4 {
                self.closed_with(ActionView::End)
            } else {
                self.closed_with(ActionView::Fail(e))
            },
            (_, OutcomeView::EndOfInput(e)) => self.closed_with(ActionView::Fail(e)),
            (_, OutcomeView::Failed(e)) => self.closed_with(ActionView::Fail(e)),
        }
    }
}

/// An exchange with the worker: connect, send the header, send the request
/// frame, receive the answer.
#[derive(Debug, PartialEq, Eq)]
pub struct Exchange {
    kind: ExchangeKind,
    stage: ExchangeStage,
    route: String,
    body: Vec<u8>,
    reader: FrameReader,
}

impl View for Exchange {
    type V = ExchangeView;

    closed spec fn view(&self) -> ExchangeView {
        ExchangeView {
            kind: self.kind,
            stage: self.stage,
            route: self.route@,
            body: self.body@,
            limit: self.reader.limit(),
            pending: self.reader.pending(),
        }
    }
}

impl Exchange {
    /// An exchange on `route` whose first transfer is to connect.
    pub fn new(kind: ExchangeKind, route: String, body: Vec<u8>, max: u32) -> (res: Self)
        ensures
            res@ == fresh(kind, route@, body@, max as nat),
            res@.kind == kind,
            res@.stage == ExchangeStage::Connecting,
            res@.route == route@,
            res@.body == body@,
            res@.limit == max,
            res@.pending.len() == 0,
    {
        Exchange {
            kind,
            stage: ExchangeStage::Connecting,
            route,
            body,
            reader: FrameReader::new(max),
        }
    }

    /// Takes the outcome of the last transfer and says what comes next.
    pub fn step(&mut self, outcome: TransferOutcome) -> (res: ExchangeAction)
        ensures
            (final(self)@, res@) == old(self)@.next(outcome@),
    {
        match self.stage {
            ExchangeStage::Closed => ExchangeAction::End,
            ExchangeStage::Connecting => match outcome {
                TransferOutcome::Completed(_) => {
                    self.stage = ExchangeStage::SendingHeader;
                    ExchangeAction::SendHeader(self.kind, self.route.clone())
                },
                TransferOutcome::EndOfInput(e) => self.fail(e),
                TransferOutcome::Failed(e) => self.fail(e),
            },
            ExchangeStage::SendingHeader => match outcome {
                TransferOutcome::Completed(_) => {
                    match frame::write_raw_frame(self.body.as_slice(), self.reader.max_payload()) {
                        Ok(bytes) => {
                            self.stage = ExchangeStage::SendingBody;
                            ExchangeAction::Send(bytes)
                        },
                        Err(e) => self.fail(e),
                    }
                },
                TransferOutcome::EndOfInput(e) => self.fail(e),
                TransferOutcome::Failed(e) => self.fail(e),
            },
            ExchangeStage::SendingBody => match outcome {
                TransferOutcome::Completed(_) => self.examine(),
                TransferOutcome::EndOfInput(e) => self.fail(e),
                TransferOutcome::Failed(e) => self.fail(e),
            },
            ExchangeStage::Reading => match outcome {
                TransferOutcome::Completed(bytes) => {
                    self.reader.feed(bytes.as_slice());
                    self.examine()
                },
                TransferOutcome::EndOfInput(e) => self.read_failed(ReadFailure::EndOfInput(e)),
                TransferOutcome::Failed(e) => self.read_failed(ReadFailure::Broken(e)),
            },
            ExchangeStage::Delivering => match outcome {
                TransferOutcome::Completed(_) => self.examine(),
                _ => {
                    self.stage = ExchangeStage::Closed;
                    ExchangeAction::End
                },
            },
        }
    }

    /// Uses the bytes received so far.
    fn examine(&mut self) -> (res: ExchangeAction)
        ensures
            (final(self)@, res@) == old(self)@.examined(),
    {
        proof {
            frame::read_frame_was_written(self.reader.pending(), self.reader.limit());
        }
        match self.reader.read_raw_frame() {
            ReadStep::Need(n) => {
                self.stage = ExchangeStage::Reading;
                ExchangeAction::Receive(n)
            },
            ReadStep::Frame(payload) => match self.kind {
                ExchangeKind::Unary => {
                    self.stage = ExchangeStage::Closed;
                    ExchangeAction::Done(payload)
                },
                ExchangeKind::ServerStream => {
                    self.stage = ExchangeStage::Delivering;
                    ExchangeAction::Deliver(frame::relay_chunk(payload.as_slice()))
                },
            },
            ReadStep::Fail(e) => self.fail(e),
        }
    }

    /// Ends the exchange after a failed receipt.
    fn read_failed(&mut self, failure: ReadFailure) -> (res: ExchangeAction)
        ensures
            final(self)@ == old(self)@.at(ExchangeStage::Closed),
            match failure {
                ReadFailure::EndOfInput(e) => if old(self)@.kind == ExchangeKind::ServerStream
                    && old(self)@.pending.len() < 4 {
                    res@ == ActionView::End
                } else {
                    res@ == ActionView::Fail(e@)
                },
                ReadFailure::Broken(e) => res@ == ActionView::Fail(e@),
            },
    {
        self.stage = ExchangeStage::Closed;
        match self.reader.read_failed(self.kind == ExchangeKind::ServerStream, failure) {
            Ok(_) => ExchangeAction::End,
            Err(e) => ExchangeAction::Fail(e),
        }
    }

    /// Ends the exchange with an error.
    fn fail(&mut self, e: RpcError) -> (res: ExchangeAction)
        ensures
            (final(self)@, res@) == old(self)@.closed_with(ActionView::Fail(e@)),
    {
        self.stage = ExchangeStage::Closed;
        ExchangeAction::Fail(e)
    }
}

/// The error of every exchange on a platform without Unix sockets.
pub fn sockets_unsupported() -> (res: RpcError)
    ensures
        res matches RpcError::Transport(message) && message@
            == "supervised HTTP proxy requires Unix sockets"@,
{
    RpcError::Transport("supervised HTTP proxy requires Unix sockets".to_owned())
}

/// Carries an exchange on from `action`, with a worker that sends exactly
/// `wire` and then closes the connection, and a client that takes every chunk:
/// the chunks delivered, and the action that ends the exchange. `eof` is the
/// error by which the closed connection shows.
pub open spec fn carried_on(
    state: ExchangeView,
    action: ActionView,
    wire: Seq<u8>,
    eof: RpcErrorView,
) -> (Seq<Seq<u8>>, ActionView)
    decreases wire.len(), state.pending.len(), (if action is Deliver { 1nat } else { 0nat }),
{
    match action {
        ActionView::Receive(n) => if 0 < n <= wire.len() {
            let (state2, action2) = state.next(OutcomeView::Completed(wire.take(n as int)));
            carried_on(state2, action2, wire.skip(n as int), eof)
        } else {
            (Seq::empty(), state.next(OutcomeView::EndOfInput(eof)).1)
        },
        ActionView::Deliver(chunk) => if state.stage == ExchangeStage::Delivering {
            let (state2, action2) = state.next(OutcomeView::Completed(Seq::empty()));
            let (chunks, last) = carried_on(state2, action2, wire, eof);
            (seq![chunk] + chunks, last)
        } else {
            (seq![chunk], ActionView::End)
        },
        _ => (Seq::empty(), action),
    }
}

/// The frames of `payloads`, one by one.
pub open spec fn framed(payloads: Seq<Seq<u8>>) -> Seq<Seq<u8>> {
    payloads.map_values(|payload: Seq<u8>| frame::frame(payload))
}

/// The action that a stream with this end leads to.
pub open spec fn stream_end_action(end: frame::StreamEnd, eof: RpcErrorView) -> ActionView {
    match end {
        frame::StreamEnd::Clean => ActionView::End,
        frame::StreamEnd::Truncated => ActionView::Fail(eof),
        frame::StreamEnd::TooLarge { len } => ActionView::Fail(
            RpcErrorView::BadRequest(frame::over_limit_message(len)),
        ),
    }
}

proof fn lemma_stream_carried_on(state: ExchangeView, wire: Seq<u8>, eof: RpcErrorView)
    requires
        state.kind == ExchangeKind::ServerStream,
    ensures
        ({
            let (state1, action1) = state.examined();
            let (payloads, end) = frame::read_stream(state.pending + wire, state.limit);
            carried_on(state1, action1, wire, eof) == (
                framed(payloads),
                stream_end_action(end, eof),
            )
        }),
    decreases wire.len(), state.pending.len(),
{
    let (state1, action1) = state.examined();
    let all = state.pending + wire;
    let (payloads, end) = frame::read_stream(all, state.limit);
    frame::later_bytes_do_not_matter(state.pending, wire, state.limit);
    match frame::parse_frame(state.pending, state.limit) {
        frame::Parsed::Complete { payload } => {
            let k = 4 + payload.len() as int;
            assert(all.skip(k) =~= state1.pending + wire);
            lemma_stream_carried_on(state1, wire, eof);
            let (rest, rest_end) = frame::read_stream(state1.pending + wire, state.limit);
            assert(framed(payloads) =~= seq![frame::frame(payload)] + framed(rest));
        },
        frame::Parsed::TooLarge { len } => {
            assert(framed(payloads) =~= Seq::empty());
        },
        frame::Parsed::Short { missing } => {
            if missing <= wire.len() {
                let taken = wire.take(missing as int);
                let state2 = ExchangeView { pending: state1.pending + taken, ..state1 };
                assert(state2.pending + wire.skip(missing as int) =~= all);
                lemma_stream_carried_on(state2, wire.skip(missing as int), eof);
            } else {
                if state.pending.len() >= 4 {
                    assert(all.take(4) =~= state.pending.take(4));
                }
                assert(framed(payloads) =~= Seq::empty());
            }
        },
    }
}

/// The action that ends a unary exchange whose answer is `bytes`.
pub open spec fn unary_end_action(bytes: Seq<u8>, limit: nat, eof: RpcErrorView) -> ActionView {
    match frame::parse_frame(bytes, limit) {
        frame::Parsed::Complete { payload } => ActionView::Done(payload),
        frame::Parsed::TooLarge { len } => ActionView::Fail(
            RpcErrorView::BadRequest(frame::over_limit_message(len)),
        ),
        frame::Parsed::Short { .. } => ActionView::Fail(eof),
    }
}

proof fn lemma_unary_carried_on(state: ExchangeView, wire: Seq<u8>, eof: RpcErrorView)
    requires
        state.kind == ExchangeKind::Unary,
    ensures
        ({
            let (state1, action1) = state.examined();
            carried_on(state1, action1, wire, eof) == (
                Seq::<Seq<u8>>::empty(),
                unary_end_action(state.pending + wire, state.limit, eof),
            )
        }),
    decreases wire.len(),
{
    let (state1, action1) = state.examined();
    let all = state.pending + wire;
    frame::later_bytes_do_not_matter(state.pending, wire, state.limit);
    if let frame::Parsed::Short { missing } = frame::parse_frame(state.pending, state.limit) {
        if missing <= wire.len() {
            let taken = wire.take(missing as int);
            let state2 = ExchangeView { pending: state1.pending + taken, ..state1 };
            assert(state2.pending + wire.skip(missing as int) =~= all);
            lemma_unary_carried_on(state2, wire.skip(missing as int), eof);
        } else if state.pending.len() >= 4 {
            assert(all.take(4) =~= state.pending.take(4));
        }
    }
}

/// An exchange before its connection is made.
pub open spec fn fresh(
    kind: ExchangeKind,
    route: Seq<char>,
    body: Seq<u8>,
    limit: nat,
) -> ExchangeView {
    ExchangeView {
        kind,
        stage: ExchangeStage::Connecting,
        route,
        body,
        limit,
        pending: Seq::empty(),
    }
}

/// Carries a fresh exchange through connecting and sending to the receipt of
/// the answer: what it sends, the chunks delivered, and its last action.
pub open spec fn whole_run(fresh: ExchangeView, wire: Seq<u8>, eof: RpcErrorView) -> (
    (ActionView, ActionView),
    (Seq<Seq<u8>>, ActionView),
) {
    let done = OutcomeView::Completed(Seq::empty());
    let (connected, header) = fresh.next(done);
    let (sending, request) = connected.next(done);
    let (reading, first) = sending.next(done);
    ((header, request), carried_on(reading, first, wire, eof))
}

/// A unary exchange sends its verb and route and the frame of its body, and its
/// answer is the payload of the frame that the worker sends; a frame over the
/// limit, or a connection closed before its end, is an error.
pub proof fn unary_exchange_answers(
    route: Seq<char>,
    body: Seq<u8>,
    limit: nat,
    wire: Seq<u8>,
    eof: RpcErrorView,
)
    requires
        body.len() <= limit < frame::LEN_RANGE,
    ensures
        whole_run(fresh(ExchangeKind::Unary, route, body, limit), wire, eof) == (
            (
                ActionView::SendHeader(ExchangeKind::Unary, route),
                ActionView::Send(frame::frame(body)),
            ),
            (Seq::<Seq<u8>>::empty(), unary_end_action(wire, limit, eof)),
        ),
{
    let start = fresh(ExchangeKind::Unary, route, body, limit).at(ExchangeStage::SendingBody);
    assert(start.pending + wire =~= wire);
    lemma_unary_carried_on(start, wire, eof);
}

/// A streaming exchange sends its verb and route and the frame of its body, and
/// delivers the frames that the worker sends, one chunk each, until the stream
/// ends.
pub proof fn stream_exchange_relays(
    route: Seq<char>,
    body: Seq<u8>,
    limit: nat,
    wire: Seq<u8>,
    eof: RpcErrorView,
)
    requires
        body.len() <= limit < frame::LEN_RANGE,
    ensures
        ({
            let (payloads, end) = frame::read_stream(wire, limit);
            whole_run(fresh(ExchangeKind::ServerStream, route, body, limit), wire, eof) == (
                (
                    ActionView::SendHeader(ExchangeKind::ServerStream, route),
                    ActionView::Send(frame::frame(body)),
                ),
                (framed(payloads), stream_end_action(end, eof)),
            )
        }),
{
    let start = fresh(ExchangeKind::ServerStream, route, body, limit).at(ExchangeStage::SendingBody);
    assert(start.pending + wire =~= wire);
    lemma_stream_carried_on(start, wire, eof);
}

/// A stream of frames within the limit that the worker sends whole passes
/// unchanged: one chunk for each frame, and a clean end.
pub proof fn whole_stream_passes_unchanged(
    route: Seq<char>,
    body: Seq<u8>,
    limit: nat,
    payloads: Seq<Seq<u8>>,
    eof: RpcErrorView,
)
    requires
        body.len() <= limit < frame::LEN_RANGE,
        forall|i: int| 0 <= i < payloads.len() ==> (#[trigger] payloads[i]).len() <= limit,
    ensures
        whole_run(
            fresh(ExchangeKind::ServerStream, route, body, limit),
            frame::frames(payloads),
            eof,
        ).1 == (framed(payloads), ActionView::End),
{
    frame::written_stream_is_read_back(payloads, limit);
    stream_exchange_relays(route, body, limit, frame::frames(payloads), eof);
}

/// A body over the limit is refused after the header and before any of it is
/// sent, whatever the kind of exchange.
pub proof fn oversized_body_is_never_sent(
    kind: ExchangeKind,
    route: Seq<char>,
    body: Seq<u8>,
    limit: nat,
    connected: OutcomeView,
    sent: OutcomeView,
)
    requires
        body.len() > limit,
        connected is Completed,
    ensures
        ({
            let (state1, action1) = fresh(kind, route, body, limit).next(connected);
            let (state2, action2) = state1.next(sent);
            &&& action1 == ActionView::SendHeader(kind, route)
            &&& state2.stage == ExchangeStage::Closed
            &&& action2 is Fail
        }),
{
}

/// An exchange that is over stays over.
pub proof fn closed_exchange_stays_closed(state: ExchangeView, outcome: OutcomeView)
    requires
        state.stage == ExchangeStage::Closed,
    ensures
        state.next(outcome) == (state, ActionView::End),
{
}

/// Views of what is reported and of what is to be done hold all of it.
pub proof fn transfer_views_are_faithful(
    kind: ExchangeKind,
    route: String,
    bytes: Vec<u8>,
    n: usize,
    e: RpcError,
)
    ensures
        (TransferOutcome::Completed(bytes))@ == OutcomeView::Completed(bytes@),
        (TransferOutcome::EndOfInput(e))@ == OutcomeView::EndOfInput(e@),
        (TransferOutcome::Failed(e))@ == OutcomeView::Failed(e@),
        (ExchangeAction::SendHeader(kind, route))@ == ActionView::SendHeader(kind, route@),
        (ExchangeAction::Send(bytes))@ == ActionView::Send(bytes@),
        (ExchangeAction::Receive(n))@ == ActionView::Receive(n as nat),
        (ExchangeAction::Deliver(bytes))@ == ActionView::Deliver(bytes@),
        (ExchangeAction::Done(bytes))@ == ActionView::Done(bytes@),
        ExchangeAction::End@ == ActionView::End,
        (ExchangeAction::Fail(e))@ == ActionView::Fail(e@),
{
}

/// An exchange starts as it was asked for.
pub proof fn fresh_exchange_is_as_asked(
    kind: ExchangeKind,
    route: Seq<char>,
    body: Seq<u8>,
    limit: nat,
)
    ensures
        fresh(kind, route, body, limit).kind == kind,
        fresh(kind, route, body, limit).route == route,
        fresh(kind, route, body, limit).body == body,
        fresh(kind, route, body, limit).limit == limit,
        fresh(kind, route, body, limit).stage == ExchangeStage::Connecting,
        fresh(kind, route, body, limit).pending.len() == 0,
{
}

/// Whatever comes of a transfer, what the exchange was asked for stays.
pub proof fn exchange_keeps_its_request(state: ExchangeView, outcome: OutcomeView)
    ensures
        state.next(outcome).0.kind == state.kind,
        state.next(outcome).0.route == state.route,
        state.next(outcome).0.body == state.body,
        state.next(outcome).0.limit == state.limit,
{
}

/// The header goes out once the connection is made, and at no other time; it
/// names the verb and the route asked for.
pub proof fn header_follows_the_connection(state: ExchangeView, outcome: OutcomeView)
    ensures
        state.stage == ExchangeStage::Connecting && outcome is Completed ==> state.next(outcome).1
            is SendHeader,
        state.next(outcome).1 matches ActionView::SendHeader(kind, route) ==> {
            &&& state.stage == ExchangeStage::Connecting
            &&& outcome is Completed
            &&& kind == state.kind
            &&& route == state.route
            &&& state.next(outcome).0.stage == ExchangeStage::SendingHeader
            &&& state.next(outcome).0.pending == state.pending
        },
{
}

/// The request goes out once the header is sent, and at no other time: as its
/// length and its bytes, if it is within the limit and a prefix can hold its
/// length. Otherwise the exchange is over with an error that says so.
pub proof fn request_follows_the_header(state: ExchangeView, outcome: OutcomeView)
    ensures
        state.next(outcome).1 matches ActionView::Send(bytes) ==> {
            &&& state.stage == ExchangeStage::SendingHeader
            &&& outcome is Completed
            &&& state.body.len() <= state.limit
            &&& state.body.len() < 0x1_0000_0000
            &&& bytes.skip(4) == state.body
            &&& frame::be32_value(bytes.take(4)) == state.body.len()
            &&& state.next(outcome).0.stage == ExchangeStage::SendingBody
            &&& state.next(outcome).0.pending == state.pending
        },
        state.stage == ExchangeStage::SendingHeader && outcome is Completed ==> {
            let (after, action) = state.next(outcome);
            &&& state.body.len() <= state.limit && state.body.len() < 0x1_0000_0000 ==> action
                is Send
            &&& state.body.len() >= 0x1_0000_0000 ==> action == ActionView::Fail(
                RpcErrorView::BadRequest("frame too large"@),
            )
            &&& state.limit < state.body.len() < 0x1_0000_0000 ==> action == ActionView::Fail(
                RpcErrorView::BadRequest(
                    "frame too large: "@ + crate::text::decimal_digits(state.body.len()),
                ),
            )
            &&& action is Fail ==> after.stage == ExchangeStage::Closed
        },
{
    if state.next(outcome).1 is Send {
        let bytes = frame::frame(state.body);
        frame::frame_is_length_then_payload(state.body);
        frame::written_frame_is_read_back(state.body, Seq::empty(), state.body.len());
        assert(bytes + Seq::<u8>::empty() =~= bytes);
    }
}

/// The bytes that an exchange has when it looks at them: those it had, and
/// those just received.
pub open spec fn bytes_at_hand(state: ExchangeView, outcome: OutcomeView) -> Seq<u8> {
    match outcome {
        OutcomeView::Completed(bytes) => if state.stage == ExchangeStage::Reading {
            state.pending + bytes
        } else {
            state.pending
        },
        _ => state.pending,
    }
}

/// No received byte is lost, added or changed. Whenever an exchange looks at
/// its bytes, it does one of four things. It asks for exactly the bytes that
/// the prefix, or the payload that the prefix announces, still lacks, and keeps
/// all it has. As a streaming exchange it hands on a whole frame, as it came,
/// and keeps what follows. As a unary exchange it answers with the payload of a
/// whole frame and is over. Or it refuses a prefix over the limit, and is over.
pub proof fn received_bytes_are_conserved(state: ExchangeView, outcome: OutcomeView)
    requires
        outcome is Completed,
        state.stage == ExchangeStage::SendingBody || state.stage == ExchangeStage::Reading
            || state.stage == ExchangeStage::Delivering,
    ensures
        ({
            let (after, action) = state.next(outcome);
            let bytes = bytes_at_hand(state, outcome);
            let announced = frame::be32_value(bytes.take(4));
            match action {
                ActionView::Receive(n) => {
                    &&& after.stage == ExchangeStage::Reading
                    &&& after.pending == bytes
                    &&& n > 0
                    &&& bytes.len() < 4 ==> bytes.len() + n == 4
                    &&& bytes.len() >= 4 ==> announced <= state.limit && bytes.len() + n == 4
                        + announced
                },
                ActionView::Deliver(chunk) => {
                    &&& state.kind == ExchangeKind::ServerStream
                    &&& after.stage == ExchangeStage::Delivering
                    &&& chunk + after.pending == bytes
                    &&& chunk.len() == 4 + announced
                    &&& announced <= state.limit
                },
                ActionView::Done(payload) => {
                    &&& state.kind == ExchangeKind::Unary
                    &&& after.stage == ExchangeStage::Closed
                    &&& bytes.take(4) + payload + after.pending == bytes
                    &&& payload.len() == announced
                    &&& announced <= state.limit
                },
                ActionView::Fail(e) => {
                    &&& after.stage == ExchangeStage::Closed
                    &&& bytes.len() >= 4
                    &&& announced > state.limit
                    &&& after.pending == bytes.skip(4)
                    &&& e == RpcErrorView::BadRequest(
                        "frame too large: "@ + crate::text::decimal_digits(announced),
                    )
                },
                _ => false,
            }
        }),
{
    let bytes = bytes_at_hand(state, outcome);
    frame::read_frame_was_written(bytes, state.limit);
    if let frame::Parsed::Complete { payload } = frame::parse_frame(bytes, state.limit) {
        let rest = bytes.skip(4 + payload.len() as int);
        assert(bytes.take(4) + payload + rest =~= bytes);
        assert(frame::frame(payload) + rest == bytes);
    }
}

/// A transfer that fails ends the exchange with its error. Two ends are no
/// error: a stream whose worker closes the connection before the prefix of the
/// next frame is whole, and a stream whose client is gone.
pub proof fn failed_transfer_ends_the_exchange(state: ExchangeView, outcome: OutcomeView)
    requires
        !(outcome is Completed),
        state.stage != ExchangeStage::Closed,
    ensures
        ({
            let (after, action) = state.next(outcome);
            let clean = state.stage == ExchangeStage::Delivering || (state.stage
                == ExchangeStage::Reading && outcome is EndOfInput && state.kind
                == ExchangeKind::ServerStream && state.pending.len() < 4);
            &&& after.stage == ExchangeStage::Closed
            &&& after.pending == state.pending
            &&& clean ==> action == ActionView::End
            &&& !clean ==> match outcome {
                OutcomeView::EndOfInput(e) => action == ActionView::Fail(e),
                OutcomeView::Failed(e) => action == ActionView::Fail(e),
                OutcomeView::Completed(_) => true,
            }
        }),
{
}

/// A unary exchange whose worker answers with the frame of a payload within the
/// limit ends with that payload, whatever the worker sends after it.
pub proof fn unary_exchange_returns_the_payload(
    route: Seq<char>,
    body: Seq<u8>,
    limit: nat,
    payload: Seq<u8>,
    rest: Seq<u8>,
    eof: RpcErrorView,
)
    requires
        body.len() <= limit < 0x1_0000_0000,
        payload.len() <= limit,
    ensures
        ({
            let run = whole_run(
                fresh(ExchangeKind::Unary, route, body, limit),
                frame::be32(payload.len()) + payload + rest,
                eof,
            );
            &&& run.0.0 == ActionView::SendHeader(ExchangeKind::Unary, route)
            &&& run.0.1 == ActionView::Send(frame::be32(body.len()) + body)
            &&& run.1.0.len() == 0
            &&& run.1.1 == ActionView::Done(payload)
        }),
{
    let wire = frame::be32(payload.len()) + payload + rest;
    assert(wire =~= frame::frame(payload) + rest);
    frame::written_frame_is_read_back(payload, rest, limit);
    unary_exchange_answers(route, body, limit, wire, eof);
}

/// A streaming exchange whose worker sends the frames of payloads within the
/// limit delivers one chunk for each payload, its length and its bytes, in
/// order, and then ends.
pub proof fn stream_exchange_delivers_every_payload(
    route: Seq<char>,
    body: Seq<u8>,
    limit: nat,
    payloads: Seq<Seq<u8>>,
    eof: RpcErrorView,
)
    requires
        body.len() <= limit < 0x1_0000_0000,
        forall|i: int| 0 <= i < payloads.len() ==> (#[trigger] payloads[i]).len() <= limit,
    ensures
        ({
            let run = whole_run(
                fresh(ExchangeKind::ServerStream, route, body, limit),
                frame::frames(payloads),
                eof,
            );
            &&& run.0.0 == ActionView::SendHeader(ExchangeKind::ServerStream, route)
            &&& run.0.1 == ActionView::Send(frame::be32(body.len()) + body)
            &&& run.1.0.len() == payloads.len()
            &&& forall|i: int|
                0 <= i < payloads.len() ==> #[trigger] run.1.0[i] == frame::be32(payloads[i].len())
                    + payloads[i]
            &&& run.1.1 == ActionView::End
        }),
{
    whole_stream_passes_unchanged(route, body, limit, payloads, eof);
    stream_exchange_relays(route, body, limit, frame::frames(payloads), eof);
}

} // verus!
