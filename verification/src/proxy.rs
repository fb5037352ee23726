//! How the supervising proxy answers an HTTP request.

use crate::activity;
use crate::exchange;
use crate::exchange::{ActionView, Exchange, ExchangeAction, ExchangeKind, ExchangeView};
use crate::frame;
use crate::reply;
use crate::reply::{ContentType, Reply, ReplyHead};
use crate::routes;
use crate::routes::RouteTable;
use crate::rpc::{RpcError, RpcErrorView};
use vstd::prelude::*;
use vstd::slice::slice_to_vec;

verus! {

/// Where a proxied request stands.
#[derive(Debug, Clone, Copy, PartialEq, Eq, Structural)]
pub enum ProxyStage {
    /// It has come in, and nothing has been done for it.
    Arrived,
    /// The worker child is being brought up.
    EnsuringUp,
    /// The worker child is up, and its use is being noted.
    NotingActivity,
    /// A unary exchange with the worker is under way.
    Calling,
    /// The reply has started, and a streaming exchange feeds its body.
    Streaming,
    /// The reply is complete.
    Finished,
}

/// What has happened to a proxied request.
#[derive(Debug, PartialEq, Eq)]
pub enum ProxyEvent {
    /// It has come in.
    Arrived,
    /// The worker child is up.
    WorkerUp,
    /// The worker child could not be brought up.
    WorkerDown(RpcError),
    /// The use of the worker child has been noted.
    ActivityNoted,
    /// The exchange with the worker says what comes next.
    Exchange(ExchangeAction),
}

/// What to do next for a proxied request.
#[derive(Debug, PartialEq, Eq)]
pub enum ProxyAction {
    /// Nothing: the exchange with the worker goes on.
    Wait,
    /// Bring the worker child up.
    EnsureUp,
    /// Note that the worker child is in use.
    NoteActivity,
    /// Carry out this exchange.
    BeginCall(Exchange),
    /// Start the reply with this head, and carry out this exchange, which feeds
    /// its body.
    BeginStream(ReplyHead, Exchange),
    /// Send this chunk of the body.
    Chunk(Vec<u8>),
    /// Send the frame of this error, if it can be encoded, and end the body.
    ErrorChunk(RpcError),
    /// End the body.
    EndBody,
    /// Reply as a whole.
    Reply(Reply),
    /// Reply with this error as a whole.
    ReplyError(RpcError),
}

/// The contents of a `ProxyEvent`.
pub enum ProxyEventView {
    Arrived,
    WorkerUp,
    WorkerDown(RpcErrorView),
    ActivityNoted,
    Exchange(ActionView),
}

impl View for ProxyEvent {
    type V = ProxyEventView;

    open spec fn view(&self) -> ProxyEventView {
        match self {
            ProxyEvent::Arrived => ProxyEventView::Arrived,
            ProxyEvent::WorkerUp => ProxyEventView::WorkerUp,
            ProxyEvent::WorkerDown(e) => ProxyEventView::WorkerDown(e@),
            ProxyEvent::ActivityNoted => ProxyEventView::ActivityNoted,
            ProxyEvent::Exchange(action) => ProxyEventView::Exchange(action@),
        }
    }
}

/// The contents of a `ProxyAction`.
pub enum ProxyActionView {
    Wait,
    EnsureUp,
    NoteActivity,
    BeginCall(ExchangeView),
    BeginStream(ReplyHead, ExchangeView),
    Chunk(Seq<u8>),
    ErrorChunk(RpcErrorView),
    EndBody,
    Reply(ReplyHead, Seq<u8>),
    ReplyError(RpcErrorView),
}

impl View for ProxyAction {
    type V = ProxyActionView;

    open spec fn view(&self) -> ProxyActionView {
        match self {
            ProxyAction::Wait => ProxyActionView::Wait,
            ProxyAction::EnsureUp => ProxyActionView::EnsureUp,
            ProxyAction::NoteActivity => ProxyActionView::NoteActivity,
            ProxyAction::BeginCall(exchange) => ProxyActionView::BeginCall(exchange@),
            ProxyAction::BeginStream(head, exchange) => ProxyActionView::BeginStream(
                *head,
                exchange@,
            ),
            ProxyAction::Chunk(bytes) => ProxyActionView::Chunk(bytes@),
            ProxyAction::ErrorChunk(e) => ProxyActionView::ErrorChunk(e@),
            ProxyAction::EndBody => ProxyActionView::EndBody,
            ProxyAction::Reply(reply) => ProxyActionView::Reply(reply.head, reply.body@),
            ProxyAction::ReplyError(e) => ProxyActionView::ReplyError(e@),
        }
    }
}

/// The state of a proxied request.
pub struct ProxyView {
    /// The full name of its route.
    pub full_route: Seq<char>,
    /// Whether its answer is a stream.
    pub streams: bool,
    /// Whether it stops counting as active when its reply starts.
    pub releases_early: bool,
    /// What it carries.
    pub body: Seq<u8>,
    /// The largest payload of a frame.
    pub limit: nat,
    pub stage: ProxyStage,
    /// Whether it counts as active.
    pub counted: bool,
}

impl ProxyView {
    /// The reply is complete, and the request no longer counts as active.
    pub open spec fn finished(self) -> ProxyView {
        ProxyView { stage: ProxyStage::Finished, counted: false, ..self }
    }

    /// The exchange that passes the request on: to its route, with its body.
    pub open spec fn exchange(self, kind: ExchangeKind) -> ExchangeView {
        exchange::fresh(kind, self.full_route, self.body, self.limit)
    }

    /// The step of a proxied request. An event that does not belong to the
    /// stage changes nothing.
    pub open spec fn next(self, event: ProxyEventView) -> (ProxyView, ProxyActionView) {
        match (self.stage, event) {
            (ProxyStage::Arrived, ProxyEventView::Arrived) => (
                ProxyView { stage: ProxyStage::EnsuringUp, ..self },
                ProxyActionView::EnsureUp,
            ),
            (ProxyStage::EnsuringUp, ProxyEventView::WorkerDown(e)) => (
                self.finished(),
                ProxyActionView::ReplyError(e),
            ),
            (ProxyStage::EnsuringUp, ProxyEventView::WorkerUp) => (
                ProxyView { stage: ProxyStage::NotingActivity, ..self },
                ProxyActionView::NoteActivity,
            ),
            (ProxyStage::NotingActivity, ProxyEventView::ActivityNoted) => if self.streams {
                (
                    ProxyView {
                        stage: ProxyStage::Streaming,
                        counted: self.counted && !self.releases_early,
                        ..self
                    },
                    ProxyActionView::BeginStream(
                        reply::ok_head(ContentType::OctetStream),
                        self.exchange(ExchangeKind::ServerStream),
                    ),
                )
            } else {
                (
                    ProxyView { stage: ProxyStage::Calling, ..self },
                    ProxyActionView::BeginCall(self.exchange(ExchangeKind::Unary)),
                )
            },
            (ProxyStage::Calling, ProxyEventView::Exchange(ActionView::Done(payload))) => (
                self.finished(),
                ProxyActionView::Reply(reply::ok_head(ContentType::Msgpack), payload),
            ),
            (ProxyStage::Calling, ProxyEventView::Exchange(ActionView::Fail(e))) => (
                self.finished(),
                ProxyActionView::ReplyError(e),
            ),
            (ProxyStage::Streaming, ProxyEventView::Exchange(ActionView::Deliver(chunk))) => (
                self,
                ProxyActionView::Chunk(chunk),
            ),
            (ProxyStage::Streaming, ProxyEventView::Exchange(ActionView::Fail(e))) => (
                self.finished(),
                ProxyActionView::ErrorChunk(e),
            ),
            (ProxyStage::Streaming, ProxyEventView::Exchange(ActionView::End)) => (
                self.finished(),
                ProxyActionView::EndBody,
            ),
            _ => (self, ProxyActionView::Wait),
        }
    }
}

/// A request that the proxy passes on to the worker.
pub struct ProxyRequest {
    full_route: String,
    streams: bool,
    releases_early: bool,
    body: Vec<u8>,
    max: u32,
    stage: ProxyStage,
    counted: bool,
}

impl View for ProxyRequest {
    type V = ProxyView;

    closed spec fn view(&self) -> ProxyView {
        ProxyView {
            full_route: self.full_route@,
            streams: self.streams,
            releases_early: self.releases_early,
            body: self.body@,
            limit: self.max as nat,
            stage: self.stage,
            counted: self.counted,
        }
    }
}

/// A request on `full`, a full name, that has just come in.
pub open spec fn arrived(
    table: routes::RouteTableView,
    full: Seq<char>,
    body: Seq<u8>,
    limit: nat,
) -> ProxyView {
    ProxyView {
        full_route: full,
        streams: table.streams(full),
        releases_early: full == table.ensure_category,
        body,
        limit,
        stage: ProxyStage::Arrived,
        counted: true,
    }
}

impl ProxyRequest {
    /// A request with this path below `/v1/` and this body comes in. It counts
    /// as active from now on.
    pub fn new(table: &RouteTable, route: &str, body: Vec<u8>, max: u32) -> (res: Self)
        ensures
            res@ == arrived(table@, routes::full_name(route@), body@, max as nat),
            res@.full_route == "/v1/"@ + route@,
            res@.streams <==> res@.full_route == table.ensure_category@ || res@.full_route
                == table.download_stt@ || res@.full_route == table.model_download@,
            res@.releases_early <==> res@.full_route == table.ensure_category@,
            res@.body == body@,
            res@.limit == max,
            res@.stage == ProxyStage::Arrived,
            res@.counted,
    {
        let full_route = routes::full_route(route);
        let streams = routes::is_stream_route(table, full_route.as_str());
        let releases_early = str::eq(full_route.as_str(), table.ensure_category.as_str());
        ProxyRequest {
            full_route,
            streams,
            releases_early,
            body,
            max,
            stage: ProxyStage::Arrived,
            counted: true,
        }
    }

    /// The full name of the route.
    pub fn full_route(&self) -> (res: &str)
        ensures
            res@ == self@.full_route,
    {
        self.full_route.as_str()
    }

    /// Whether the request counts as active.
    pub fn counts_as_active(&self) -> (res: bool)
        ensures
            res == self@.counted,
    {
        self.counted
    }

    /// Takes an event and says what to do next.
    pub fn handle_proxy_unary_or_stream(&mut self, event: ProxyEvent) -> (res: ProxyAction)
        ensures
            (final(self)@, res@) == old(self)@.next(event@),
    {
        match self.stage {
            ProxyStage::Arrived => match event {
                ProxyEvent::Arrived => {
                    self.stage = ProxyStage::EnsuringUp;
                    ProxyAction::EnsureUp
                },
                _ => ProxyAction::Wait,
            },
            ProxyStage::EnsuringUp => match event {
                ProxyEvent::WorkerDown(e) => {
                    self.finish();
                    ProxyAction::ReplyError(e)
                },
                ProxyEvent::WorkerUp => {
                    self.stage = ProxyStage::NotingActivity;
                    ProxyAction::NoteActivity
                },
                _ => ProxyAction::Wait,
            },
            ProxyStage::NotingActivity => match event {
                ProxyEvent::ActivityNoted => if self.streams {
                    self.stage = ProxyStage::Streaming;
                    self.counted = self.counted && !self.releases_early;
                    ProxyAction::BeginStream(
                        reply::stream_head(),
                        self.exchange(ExchangeKind::ServerStream),
                    )
                } else {
                    self.stage = ProxyStage::Calling;
                    ProxyAction::BeginCall(self.exchange(ExchangeKind::Unary))
                },
                _ => ProxyAction::Wait,
            },
            ProxyStage::Calling => match event {
                ProxyEvent::Exchange(ExchangeAction::Done(payload)) => {
                    self.finish();
                    ProxyAction::Reply(reply::msgpack_response(payload))
                },
                ProxyEvent::Exchange(ExchangeAction::Fail(e)) => {
                    self.finish();
                    ProxyAction::ReplyError(e)
                },
                _ => ProxyAction::Wait,
            },
            ProxyStage::Streaming => match event {
                ProxyEvent::Exchange(ExchangeAction::Deliver(chunk)) => ProxyAction::Chunk(chunk),
                ProxyEvent::Exchange(ExchangeAction::Fail(e)) => {
                    self.finish();
                    ProxyAction::ErrorChunk(e)
                },
                ProxyEvent::Exchange(ExchangeAction::End) => {
                    self.finish();
                    ProxyAction::EndBody
                },
                _ => ProxyAction::Wait,
            },
            ProxyStage::Finished => ProxyAction::Wait,
        }
    }

    /// The exchange that passes the request on.
    fn exchange(&self, kind: ExchangeKind) -> (res: Exchange)
        ensures
            res@ == self@.exchange(kind),
    {
        Exchange::new(
            kind,
            self.full_route.clone(),
            slice_to_vec(self.body.as_slice()),
            self.max,
        )
    }

    /// The reply is complete.
    fn finish(&mut self)
        ensures
            final(self)@ == old(self)@.finished(),
    {
        self.stage = ProxyStage::Finished;
        self.counted = false;
    }
}

/// The state after `events`, first to last, and the actions they led to.
pub open spec fn after_events(state: ProxyView, events: Seq<ProxyEventView>) -> (
    ProxyView,
    Seq<ProxyActionView>,
)
    decreases events.len(),
{
    if events.len() == 0 {
        (state, Seq::empty())
    } else {
        let (before, actions) = after_events(state, events.drop_last());
        let (after, action) = before.next(events.last());
        (after, actions.push(action))
    }
}

/// Whether `action` starts a reply.
pub open spec fn starts_reply(action: ProxyActionView) -> bool {
    match action {
        ProxyActionView::BeginStream(_, _) => true,
        ProxyActionView::Reply(_, _) => true,
        ProxyActionView::ReplyError(_) => true,
        _ => false,
    }
}

/// Whether `action` begins an exchange with the worker.
pub open spec fn begins_exchange(action: ProxyActionView) -> bool {
    action is BeginCall || action is BeginStream
}

/// How many of `actions` satisfy `p`.
pub open spec fn count_of(
    actions: Seq<ProxyActionView>,
    p: spec_fn(ProxyActionView) -> bool,
) -> nat
    decreases actions.len(),
{
    if actions.len() == 0 {
        0
    } else {
        count_of(actions.drop_last(), p) + (if p(actions.last()) {
            1nat
        } else {
            0nat
        })
    }
}

/// Whatever happens, a request is replied to at most once, and exactly once by
/// the time its reply streams or is complete. It counts as active until then,
/// or until its body is complete, except that a request that releases early
/// counts only until its body starts. What it asks for does not change.
pub proof fn request_is_answered_once(
    table: routes::RouteTableView,
    full: Seq<char>,
    body: Seq<u8>,
    limit: nat,
    events: Seq<ProxyEventView>,
)
    ensures
        ({
            let (state, actions) = after_events(arrived(table, full, body, limit), events);
            &&& count_of(actions, |a: ProxyActionView| starts_reply(a)) == (match state.stage {
                ProxyStage::Streaming => 1nat,
                ProxyStage::Finished => 1nat,
                _ => 0nat,
            })
            &&& state.counted == (match state.stage {
                ProxyStage::Streaming => full != table.ensure_category,
                ProxyStage::Finished => false,
                _ => true,
            })
            &&& state == ProxyView {
                stage: state.stage,
                counted: state.counted,
                ..arrived(table, full, body, limit)
            }
        }),
    decreases events.len(),
{
    if events.len() > 0 {
        request_is_answered_once(table, full, body, limit, events.drop_last());
        let start = arrived(table, full, body, limit);
        let (before, actions) = after_events(start, events.drop_last());
        let (after, action) = before.next(events.last());
        assert(actions.push(action).drop_last() =~= actions);
    }
}

/// Whatever happens, a request brings the worker child up at most once, notes
/// its use at most once, and begins at most one exchange. Each is done exactly
/// once by the time a later one is: the use is noted only for a child brought
/// up, and the exchange begins only after its use has been noted.
pub proof fn worker_is_brought_up_once(
    table: routes::RouteTableView,
    full: Seq<char>,
    body: Seq<u8>,
    limit: nat,
    events: Seq<ProxyEventView>,
)
    ensures
        ({
            let (state, actions) = after_events(arrived(table, full, body, limit), events);
            let ups = count_of(actions, |a: ProxyActionView| a is EnsureUp);
            let notes = count_of(actions, |a: ProxyActionView| a is NoteActivity);
            let exchanges = count_of(actions, |a: ProxyActionView| begins_exchange(a));
            &&& exchanges <= notes <= ups <= 1
            &&& ups == (if state.stage == ProxyStage::Arrived {
                0nat
            } else {
                1nat
            })
            &&& state.stage == ProxyStage::NotingActivity ==> notes == 1 && exchanges == 0
            &&& state.stage == ProxyStage::Calling || state.stage == ProxyStage::Streaming
                ==> exchanges == 1
            &&& state.stage == ProxyStage::Arrived || state.stage == ProxyStage::EnsuringUp
                ==> notes == 0
        }),
    decreases events.len(),
{
    if events.len() > 0 {
        worker_is_brought_up_once(table, full, body, limit, events.drop_last());
        let start = arrived(table, full, body, limit);
        let (before, actions) = after_events(start, events.drop_last());
        let (after, action) = before.next(events.last());
        assert(actions.push(action).drop_last() =~= actions);
    }
}

/// Whatever happens, the exchange that a request begins goes to its route with
/// its body.
pub proof fn request_is_passed_on_unchanged(
    table: routes::RouteTableView,
    full: Seq<char>,
    body: Seq<u8>,
    limit: nat,
    events: Seq<ProxyEventView>,
    event: ProxyEventView,
)
    ensures
        ({
            let (state, actions) = after_events(arrived(table, full, body, limit), events);
            match state.next(event).1 {
                ProxyActionView::BeginCall(begun) => {
                    &&& !table.streams(full)
                    &&& begun == exchange::fresh(ExchangeKind::Unary, full, body, limit)
                },
                ProxyActionView::BeginStream(head, begun) => {
                    &&& table.streams(full)
                    &&& begun == exchange::fresh(ExchangeKind::ServerStream, full, body, limit)
                },
                _ => true,
            }
        }),
{
    request_is_answered_once(table, full, body, limit, events);
}

/// A request that does not count as active never does so again.
pub proof fn released_request_stays_released(state: ProxyView, event: ProxyEventView)
    requires
        !state.counted,
    ensures
        !state.next(event).0.counted,
{
}

/// A request that is finished leads to nothing more.
pub proof fn finished_request_stays_finished(state: ProxyView, event: ProxyEventView)
    requires
        state.stage == ProxyStage::Finished,
    ensures
        state.next(event) == (state, ProxyActionView::Wait),
{
}

/// What a streaming exchange tells the request: each chunk, then the end.
pub open spec fn exchange_events(chunks: Seq<Seq<u8>>, last: ActionView) -> Seq<ProxyEventView> {
    Seq::new(
        chunks.len() + 1,
        |i: int|
            if i < chunks.len() {
                ProxyEventView::Exchange(ActionView::Deliver(chunks[i]))
            } else {
                ProxyEventView::Exchange(last)
            },
    )
}

proof fn lemma_chunks_pass(state: ProxyView, chunks: Seq<Seq<u8>>, last: ActionView, k: int)
    requires
        state.stage == ProxyStage::Streaming,
        0 <= k <= chunks.len(),
    ensures
        after_events(state, exchange_events(chunks, last).take(k)) == (
            state,
            chunks.take(k).map_values(|chunk: Seq<u8>| ProxyActionView::Chunk(chunk)),
        ),
    decreases k,
{
    let events = exchange_events(chunks, last);
    if k == 0 {
        assert(events.take(0) =~= Seq::empty());
        assert(chunks.take(0).map_values(|chunk: Seq<u8>| ProxyActionView::Chunk(chunk))
            =~= Seq::empty());
    } else {
        lemma_chunks_pass(state, chunks, last, k - 1);
        assert(events.take(k).drop_last() =~= events.take(k - 1));
        assert(events.take(k).last() == events[k - 1]);
        assert(chunks.take(k).map_values(|chunk: Seq<u8>| ProxyActionView::Chunk(chunk))
            =~= chunks.take(k - 1).map_values(
            |chunk: Seq<u8>| ProxyActionView::Chunk(chunk),
        ).push(ProxyActionView::Chunk(chunks[k - 1])));
    }
}

/// The body of a proxied stream is what the worker sends, frame by frame. It
/// ends where the worker closes the connection between two frames; if the
/// stream ends in another way, an error frame comes last.
pub proof fn proxied_stream_is_the_workers(
    state: ProxyView,
    wire: Seq<u8>,
    eof: RpcErrorView,
)
    requires
        state.stage == ProxyStage::Streaming,
        state.body.len() <= state.limit < frame::LEN_RANGE,
    ensures
        ({
            let start = state.exchange(ExchangeKind::ServerStream);
            let (chunks, last) = exchange::whole_run(start, wire, eof).1;
            let (payloads, end) = frame::read_stream(wire, state.limit);
            let (after, actions) = after_events(state, exchange_events(chunks, last));
            &&& after == state.finished()
            &&& actions == exchange::framed(payloads).map_values(
                |chunk: Seq<u8>| ProxyActionView::Chunk(chunk),
            ).push(
                match exchange::stream_end_action(end, eof) {
                    ActionView::Fail(e) => ProxyActionView::ErrorChunk(e),
                    _ => ProxyActionView::EndBody,
                },
            )
        }),
{
    exchange::stream_exchange_relays(state.full_route, state.body, state.limit, wire, eof);
    let start = state.exchange(ExchangeKind::ServerStream);
    let (chunks, last) = exchange::whole_run(start, wire, eof).1;
    let events = exchange_events(chunks, last);
    lemma_chunks_pass(state, chunks, last, chunks.len() as int);
    assert(events.drop_last() =~= events.take(chunks.len() as int));
    assert(chunks.take(chunks.len() as int) =~= chunks);
}

/// The reply to a proxied unary request is the payload that the worker sends,
/// byte for byte; an answer that is cut short or over the limit becomes an
/// error reply.
pub proof fn proxied_reply_is_the_workers(
    state: ProxyView,
    wire: Seq<u8>,
    eof: RpcErrorView,
)
    requires
        state.stage == ProxyStage::Calling,
        state.body.len() <= state.limit < frame::LEN_RANGE,
    ensures
        ({
            let start = state.exchange(ExchangeKind::Unary);
            let (chunks, last) = exchange::whole_run(start, wire, eof).1;
            state.next(ProxyEventView::Exchange(last)) == (
                state.finished(),
                match frame::parse_frame(wire, state.limit) {
                    frame::Parsed::Complete { payload } => ProxyActionView::Reply(
                        reply::ok_head(ContentType::Msgpack),
                        payload,
                    ),
                    frame::Parsed::TooLarge { len } => ProxyActionView::ReplyError(
                        RpcErrorView::BadRequest(frame::over_limit_message(len)),
                    ),
                    frame::Parsed::Short { .. } => ProxyActionView::ReplyError(eof),
                },
            )
        }),
{
    exchange::unary_exchange_answers(state.full_route, state.body, state.limit, wire, eof);
}

/// The proxy with all its requests, in the order in which they came in.
pub struct ProxySystem {
    pub activity: activity::ActivityView,
    pub requests: Seq<ProxyView>,
}

/// Something that happens to the proxy.
pub enum SystemEvent {
    /// A request comes in.
    Arrive { full: Seq<char>, body: Seq<u8>, limit: nat },
    /// Something happens to the request with this index at this time.
    Happen { index: int, event: ProxyEventView, now: int },
    /// The client drops the request with this index at this time.
    Drop { index: int, now: int },
}

impl ProxySystem {
    /// The request with this index has become `after` at `now`. If it no longer
    /// counts as active, it is completed.
    pub open spec fn with_request(self, index: int, after: ProxyView, now: int) -> ProxySystem {
        ProxySystem {
            activity: if self.requests[index].counted && !after.counted {
                self.activity.finished(now)
            } else {
                self.activity
            },
            requests: self.requests.update(index, after),
        }
    }

    /// The step of the proxy.
    pub open spec fn next(self, table: routes::RouteTableView, event: SystemEvent) -> ProxySystem {
        match event {
            SystemEvent::Arrive { full, body, limit } => ProxySystem {
                activity: self.activity.begun(),
                requests: self.requests.push(arrived(table, full, body, limit)),
            },
            SystemEvent::Happen { index, event, now } => if 0 <= index < self.requests.len() {
                self.with_request(index, self.requests[index].next(event).0, now)
            } else {
                self
            },
            SystemEvent::Drop { index, now } => if 0 <= index < self.requests.len() {
                self.with_request(index, self.requests[index].finished(), now)
            } else {
                self
            },
        }
    }
}

/// The proxy after `events`, first to last.
pub open spec fn system_after(
    start: ProxySystem,
    table: routes::RouteTableView,
    events: Seq<SystemEvent>,
) -> ProxySystem
    decreases events.len(),
{
    if events.len() == 0 {
        start
    } else {
        system_after(start, table, events.drop_last()).next(table, events.last())
    }
}

/// How many of `requests` count as active.
pub open spec fn counted_requests(requests: Seq<ProxyView>) -> nat
    decreases requests.len(),
{
    if requests.len() == 0 {
        0
    } else {
        counted_requests(requests.drop_last()) + (if requests.last().counted {
            1nat
        } else {
            0nat
        })
    }
}

proof fn lemma_counted_after_update(requests: Seq<ProxyView>, index: int, after: ProxyView)
    requires
        0 <= index < requests.len(),
    ensures
        counted_requests(requests.update(index, after)) == counted_requests(requests) - (
        if requests[index].counted {
            1int
        } else {
            0int
        }) + (if after.counted {
            1int
        } else {
            0int
        }),
    decreases requests.len(),
{
    let updated = requests.update(index, after);
    if index == requests.len() - 1 {
        assert(updated.drop_last() =~= requests.drop_last());
    } else {
        assert(updated.drop_last() =~= requests.drop_last().update(index, after));
        lemma_counted_after_update(requests.drop_last(), index, after);
    }
}

proof fn lemma_none_counted(requests: Seq<ProxyView>)
    requires
        forall|i: int| 0 <= i < requests.len() ==> !(#[trigger] requests[i]).counted,
    ensures
        counted_requests(requests) == 0,
    decreases requests.len(),
{
    if requests.len() > 0 {
        let before = requests.drop_last();
        assert forall|i: int| 0 <= i < before.len() implies !(#[trigger] before[i]).counted by {
            assert(before[i] == requests[i]);
        }
        lemma_none_counted(before);
        assert(!requests[requests.len() - 1].counted);
    }
}

/// The number of requests under way is the number at the start and those that
/// count as active, less some whole rounds of the counter, and no finished
/// request counts.
proof fn lemma_system_invariant(
    start: ProxySystem,
    table: routes::RouteTableView,
    events: Seq<SystemEvent>,
) -> (rounds: int)
    requires
        start.requests.len() == 0,
        start.activity.in_range(),
    ensures
        ({
            let system = system_after(start, table, events);
            &&& 0 <= system.activity.active <= usize::MAX
            &&& system.activity.active == start.activity.active + counted_requests(system.requests)
                - rounds * (usize::MAX + 1)
            &&& forall|i: int|
                0 <= i < system.requests.len() && (#[trigger] system.requests[i]).stage
                    == ProxyStage::Finished ==> !system.requests[i].counted
        }),
    decreases events.len(),
{
    if events.len() == 0 {
        0
    } else {
        let rounds = lemma_system_invariant(start, table, events.drop_last());
        let before = system_after(start, table, events.drop_last());
        let exact = start.activity.active + counted_requests(before.requests);
        match events.last() {
            SystemEvent::Arrive { full, body, limit } => {
                let request = arrived(table, full, body, limit);
                assert(before.requests.push(request).drop_last() =~= before.requests);
                activity::lemma_rounds_after_step(before.activity.active, exact, rounds, 1)
            },
            SystemEvent::Happen { index, event, now } => if 0 <= index < before.requests.len() {
                let request = before.requests[index];
                let after = request.next(event).0;
                lemma_counted_after_update(before.requests, index, after);
                if !request.counted {
                    released_request_stays_released(request, event);
                }
                if request.counted && !after.counted {
                    activity::lemma_rounds_after_step(before.activity.active, exact, rounds, -1)
                } else {
                    rounds
                }
            } else {
                rounds
            },
            SystemEvent::Drop { index, now } => if 0 <= index < before.requests.len() {
                let request = before.requests[index];
                lemma_counted_after_update(before.requests, index, request.finished());
                if request.counted {
                    activity::lemma_rounds_after_step(before.activity.active, exact, rounds, -1)
                } else {
                    rounds
                }
            } else {
                rounds
            },
        }
    }
}

/// However the requests are interleaved, and whatever comes of each, the number
/// of requests under way is the number before the first of them and those of
/// them that count as active, whenever a counter can hold that many. It is then
/// never less than at the start, and once all are finished it is back there.
pub proof fn active_count_returns_to_its_start(
    start: ProxySystem,
    table: routes::RouteTableView,
    events: Seq<SystemEvent>,
)
    requires
        start.requests.len() == 0,
        start.activity.in_range(),
    ensures
        ({
            let system = system_after(start, table, events);
            let under_way = start.activity.active + counted_requests(system.requests);
            &&& under_way <= usize::MAX ==> {
                &&& system.activity.active == under_way
                &&& system.activity.active >= start.activity.active
            }
            &&& (forall|i: int|
                0 <= i < system.requests.len() ==> (#[trigger] system.requests[i]).stage
                    == ProxyStage::Finished) ==> system.activity.active == start.activity.active
        }),
{
    let rounds = lemma_system_invariant(start, table, events);
    let system = system_after(start, table, events);
    let under_way = start.activity.active + counted_requests(system.requests);
    if forall|i: int|
        0 <= i < system.requests.len() ==> (#[trigger] system.requests[i]).stage
            == ProxyStage::Finished {
        lemma_none_counted(system.requests);
    }
    if under_way <= usize::MAX {
        activity::lemma_no_rounds(system.activity.active, under_way, rounds);
    }
}

/// Views of what happens to a request and of what is to be done for it hold all
/// of it.
pub proof fn proxy_views_are_faithful(
    e: RpcError,
    action: ExchangeAction,
    begun: Exchange,
    head: ReplyHead,
    bytes: Vec<u8>,
    reply: Reply,
)
    ensures
        ProxyEvent::Arrived@ == ProxyEventView::Arrived,
        ProxyEvent::WorkerUp@ == ProxyEventView::WorkerUp,
        (ProxyEvent::WorkerDown(e))@ == ProxyEventView::WorkerDown(e@),
        ProxyEvent::ActivityNoted@ == ProxyEventView::ActivityNoted,
        (ProxyEvent::Exchange(action))@ == ProxyEventView::Exchange(action@),
        ProxyAction::Wait@ == ProxyActionView::Wait,
        ProxyAction::EnsureUp@ == ProxyActionView::EnsureUp,
        ProxyAction::NoteActivity@ == ProxyActionView::NoteActivity,
        (ProxyAction::BeginCall(begun))@ == ProxyActionView::BeginCall(begun@),
        (ProxyAction::BeginStream(head, begun))@ == ProxyActionView::BeginStream(head, begun@),
        (ProxyAction::Chunk(bytes))@ == ProxyActionView::Chunk(bytes@),
        (ProxyAction::ErrorChunk(e))@ == ProxyActionView::ErrorChunk(e@),
        ProxyAction::EndBody@ == ProxyActionView::EndBody,
        (ProxyAction::Reply(reply))@ == ProxyActionView::Reply(reply.head, reply.body@),
        (ProxyAction::ReplyError(e))@ == ProxyActionView::ReplyError(e@),
{
}

/// A request that has come in is on its route, carries its body, and counts as
/// active. It streams on the three streaming routes, and releases early on one
/// of them.
pub proof fn arrived_request_is_as_sent(
    table: routes::RouteTableView,
    full: Seq<char>,
    body: Seq<u8>,
    limit: nat,
)
    ensures
        ({
            let state = arrived(table, full, body, limit);
            &&& state.full_route == full
            &&& state.body == body
            &&& state.limit == limit
            &&& state.stage == ProxyStage::Arrived
            &&& state.counted
            &&& state.streams <==> full == table.ensure_category || full == table.download_stt
                || full == table.model_download
            &&& state.releases_early <==> full == table.ensure_category
        }),
{
}

/// Whatever happens, what a request asks for stays.
pub proof fn proxied_request_keeps_what_it_asks(state: ProxyView, event: ProxyEventView)
    ensures
        state.next(event).0.full_route == state.full_route,
        state.next(event).0.streams == state.streams,
        state.next(event).0.releases_early == state.releases_early,
        state.next(event).0.body == state.body,
        state.next(event).0.limit == state.limit,
{
}

/// The worker child is brought up when the request has come in, and at no other
/// time.
pub proof fn worker_is_brought_up_on_arrival(state: ProxyView, event: ProxyEventView)
    ensures
        state.next(event).1 is EnsureUp <==> state.stage == ProxyStage::Arrived && event
            is Arrived,
        state.next(event).1 is EnsureUp ==> state.next(event).0.stage == ProxyStage::EnsuringUp,
{
}

/// The use of the worker child is noted when it is up, and at no other time.
pub proof fn activity_is_noted_when_up(state: ProxyView, event: ProxyEventView)
    ensures
        state.next(event).1 is NoteActivity <==> state.stage == ProxyStage::EnsuringUp && event
            is WorkerUp,
        state.next(event).1 is NoteActivity ==> state.next(event).0.stage
            == ProxyStage::NotingActivity,
{
}

/// The exchange begins when the use of the worker child has been noted, and at
/// no other time: a streaming one, under a reply with status 200 that has begun,
/// if the request streams, and a unary one if not. It has done nothing yet, and
/// has the route, the whole body and the limit of the request.
pub proof fn exchange_begins_when_noted(state: ProxyView, event: ProxyEventView)
    ensures
        begins_exchange(state.next(event).1) <==> state.stage == ProxyStage::NotingActivity
            && event is ActivityNoted,
        state.next(event).1 matches ProxyActionView::BeginCall(begun) ==> {
            &&& !state.streams
            &&& begun.kind == ExchangeKind::Unary
            &&& begun.stage == exchange::ExchangeStage::Connecting
            &&& begun.route == state.full_route
            &&& begun.body == state.body
            &&& begun.limit == state.limit
            &&& begun.pending.len() == 0
            &&& state.next(event).0.stage == ProxyStage::Calling
        },
        state.next(event).1 matches ProxyActionView::BeginStream(head, begun) ==> {
            &&& state.streams
            &&& head.status == 200
            &&& head.content_type == ContentType::OctetStream
            &&& begun.kind == ExchangeKind::ServerStream
            &&& begun.stage == exchange::ExchangeStage::Connecting
            &&& begun.route == state.full_route
            &&& begun.body == state.body
            &&& begun.limit == state.limit
            &&& begun.pending.len() == 0
            &&& state.next(event).0.stage == ProxyStage::Streaming
        },
{
}

/// A unary request is replied to with a payload only when its exchange is done
/// with that payload, and then always: the body is the payload, the status is
/// 200 and the content type is that of one value.
pub proof fn reply_is_what_the_exchange_returns(state: ProxyView, event: ProxyEventView)
    ensures
        state.next(event).1 matches ProxyActionView::Reply(head, body) ==> {
            &&& state.stage == ProxyStage::Calling
            &&& event == ProxyEventView::Exchange(ActionView::Done(body))
            &&& head.status == 200
            &&& head.content_type == ContentType::Msgpack
            &&& state.next(event).0.stage == ProxyStage::Finished
        },
        state.stage == ProxyStage::Calling && (event matches ProxyEventView::Exchange(action)
            && action is Done) ==> state.next(event).1 is Reply,
{
}

/// A request is replied to with an error only when the worker child could not
/// be brought up or the unary exchange failed, and then always: with that error.
pub proof fn error_reply_is_what_failed(state: ProxyView, event: ProxyEventView)
    ensures
        state.next(event).1 matches ProxyActionView::ReplyError(e) ==> {
            &&& (state.stage == ProxyStage::EnsuringUp && event == ProxyEventView::WorkerDown(e))
                || (state.stage == ProxyStage::Calling && event == ProxyEventView::Exchange(
                ActionView::Fail(e),
            ))
            &&& state.next(event).0.stage == ProxyStage::Finished
        },
        state.stage == ProxyStage::EnsuringUp && event is WorkerDown ==> state.next(event).1
            is ReplyError,
        state.stage == ProxyStage::Calling && (event matches ProxyEventView::Exchange(action)
            && action is Fail) ==> state.next(event).1 is ReplyError,
{
}

/// A chunk of the body is sent only when the streaming exchange delivers it, and
/// then always: that chunk, and nothing else changes.
pub proof fn chunk_is_what_the_exchange_delivers(state: ProxyView, event: ProxyEventView)
    ensures
        state.next(event).1 matches ProxyActionView::Chunk(chunk) ==> {
            &&& state.stage == ProxyStage::Streaming
            &&& event == ProxyEventView::Exchange(ActionView::Deliver(chunk))
            &&& state.next(event).0 == state
        },
        state.stage == ProxyStage::Streaming && (event matches ProxyEventView::Exchange(action)
            && action is Deliver) ==> state.next(event).1 is Chunk,
{
}

/// A body ends when its exchange does, and at no other time: with the error
/// that the exchange failed with, or without one.
pub proof fn body_ends_with_its_exchange(state: ProxyView, event: ProxyEventView)
    ensures
        state.next(event).1 matches ProxyActionView::ErrorChunk(e) ==> {
            &&& state.stage == ProxyStage::Streaming
            &&& event == ProxyEventView::Exchange(ActionView::Fail(e))
            &&& state.next(event).0.stage == ProxyStage::Finished
        },
        state.stage == ProxyStage::Streaming && (event matches ProxyEventView::Exchange(action)
            && action is Fail) ==> state.next(event).1 is ErrorChunk,
        state.next(event).1 is EndBody <==> state.stage == ProxyStage::Streaming && event
            == ProxyEventView::Exchange(ActionView::End),
        state.next(event).1 is EndBody ==> state.next(event).0.stage == ProxyStage::Finished,
{
}

/// An event that leads to nothing leaves the request as it was.
pub proof fn waiting_changes_nothing(state: ProxyView, event: ProxyEventView)
    ensures
        state.next(event).1 is Wait ==> state.next(event).0 == state,
{
}

/// A request stops counting as active when its reply is complete, or when its
/// body starts if it releases early, and at no other time.
pub proof fn request_counts_until_released(state: ProxyView, event: ProxyEventView)
    ensures
        ({
            let (after, action) = state.next(event);
            let complete = action is Reply || action is ReplyError || action is ErrorChunk
                || action is EndBody;
            let released = action is BeginStream && state.releases_early;
            after.counted <==> state.counted && !complete && !released
        }),
{
}

/// A request that comes in, for which the worker child comes up and whose use
/// of it is noted, leads to three actions: bringing the child up, noting its
/// use, and beginning the exchange that passes on the whole body, with the
/// limit, to the route. This holds for every table, route, body and limit.
pub proof fn request_reaches_the_worker(
    table: routes::RouteTableView,
    full: Seq<char>,
    body: Seq<u8>,
    limit: nat,
)
    ensures
        ({
            let (state, actions) = after_events(
                arrived(table, full, body, limit),
                seq![
                    ProxyEventView::Arrived,
                    ProxyEventView::WorkerUp,
                    ProxyEventView::ActivityNoted,
                ],
            );
            let streams = full == table.ensure_category || full == table.download_stt || full
                == table.model_download;
            &&& actions.len() == 3
            &&& actions[0] is EnsureUp
            &&& actions[1] is NoteActivity
            &&& !streams ==> {
                &&& state.stage == ProxyStage::Calling
                &&& actions[2] == ProxyActionView::BeginCall(
                    exchange::fresh(ExchangeKind::Unary, full, body, limit),
                )
                &&& actions[2] matches ProxyActionView::BeginCall(begun) && begun.route == full
                    && begun.body == body && begun.limit == limit
            }
            &&& streams ==> {
                &&& state.stage == ProxyStage::Streaming
                &&& actions[2] == ProxyActionView::BeginStream(
                    reply::ok_head(ContentType::OctetStream),
                    exchange::fresh(ExchangeKind::ServerStream, full, body, limit),
                )
                &&& actions[2] matches ProxyActionView::BeginStream(head, begun) && head.status
                    == 200 && begun.route == full && begun.body == body && begun.limit == limit
            }
        }),
{
    let one = seq![ProxyEventView::Arrived];
    let two = one.push(ProxyEventView::WorkerUp);
    let three = two.push(ProxyEventView::ActivityNoted);
    assert(one.drop_last() =~= Seq::empty());
    assert(two.drop_last() =~= one);
    assert(three.drop_last() =~= two);
    reveal_with_fuel(after_events, 4);
    assert(three =~= seq![
        ProxyEventView::Arrived,
        ProxyEventView::WorkerUp,
        ProxyEventView::ActivityNoted,
    ]);
}

/// Whatever happens, and in whatever order, there is one action for each event,
/// and every reply, error and chunk is given in answer to the event that brought
/// it: a reply holds the payload of an exchange just done, an error what just
/// failed, a chunk what was just delivered.
pub proof fn replies_come_from_the_worker(
    state: ProxyView,
    events: Seq<ProxyEventView>,
    i: int,
)
    requires
        0 <= i < events.len(),
    ensures
        after_events(state, events).1.len() == events.len(),
        match after_events(state, events).1[i] {
            ProxyActionView::Reply(head, body) => {
                &&& events[i] == ProxyEventView::Exchange(ActionView::Done(body))
                &&& head.status == 200
                &&& head.content_type == ContentType::Msgpack
            },
            ProxyActionView::ReplyError(e) => events[i] == ProxyEventView::WorkerDown(e)
                || events[i] == ProxyEventView::Exchange(ActionView::Fail(e)),
            ProxyActionView::ErrorChunk(e) => events[i] == ProxyEventView::Exchange(
                ActionView::Fail(e),
            ),
            ProxyActionView::Chunk(chunk) => events[i] == ProxyEventView::Exchange(
                ActionView::Deliver(chunk),
            ),
            ProxyActionView::EndBody => events[i] == ProxyEventView::Exchange(ActionView::End),
            _ => true,
        },
    decreases events.len(),
{
    let before = events.drop_last();
    if i < before.len() {
        replies_come_from_the_worker(state, before, i);
        assert(before[i] == events[i]);
    } else if before.len() > 0 {
        replies_come_from_the_worker(state, before, 0);
    } else {
        assert(after_events(state, before).1.len() == 0);
    }
}

/// A unary request whose worker answers with the frame of a payload within the
/// limit is replied to with that payload, byte for byte.
pub proof fn proxied_reply_is_the_payload(
    state: ProxyView,
    payload: Seq<u8>,
    rest: Seq<u8>,
    eof: RpcErrorView,
)
    requires
        state.stage == ProxyStage::Calling,
        state.body.len() <= state.limit < 0x1_0000_0000,
        payload.len() <= state.limit,
    ensures
        ({
            let run = exchange::whole_run(
                state.exchange(ExchangeKind::Unary),
                frame::be32(payload.len()) + payload + rest,
                eof,
            );
            state.next(ProxyEventView::Exchange(run.1.1)).1 matches ProxyActionView::Reply(
                head,
                body,
            ) && body == payload && head.status == 200 && head.content_type == ContentType::Msgpack
        }),
{
    exchange::unary_exchange_returns_the_payload(
        state.full_route,
        state.body,
        state.limit,
        payload,
        rest,
        eof,
    );
}

/// A streaming request whose worker sends the frames of payloads within the
/// limit gets a body of one chunk for each payload, its length and its bytes, in
/// order, and then the end.
pub proof fn proxied_body_holds_every_payload(
    state: ProxyView,
    payloads: Seq<Seq<u8>>,
    eof: RpcErrorView,
)
    requires
        state.stage == ProxyStage::Streaming,
        state.body.len() <= state.limit < 0x1_0000_0000,
        forall|i: int| 0 <= i < payloads.len() ==> (#[trigger] payloads[i]).len() <= state.limit,
    ensures
        ({
            let run = exchange::whole_run(
                state.exchange(ExchangeKind::ServerStream),
                frame::frames(payloads),
                eof,
            );
            let (after, actions) = after_events(state, exchange_events(run.1.0, run.1.1));
            &&& after.stage == ProxyStage::Finished
            &&& actions.len() == payloads.len() + 1
            &&& forall|i: int|
                0 <= i < payloads.len() ==> #[trigger] actions[i] == ProxyActionView::Chunk(
                    frame::be32(payloads[i].len()) + payloads[i],
                )
            &&& actions.last() is EndBody
        }),
{
    exchange::stream_exchange_delivers_every_payload(
        state.full_route,
        state.body,
        state.limit,
        payloads,
        eof,
    );
    let run = exchange::whole_run(
        state.exchange(ExchangeKind::ServerStream),
        frame::frames(payloads),
        eof,
    );
    let (chunks, last) = run.1;
    let events = exchange_events(chunks, last);
    lemma_chunks_pass(state, chunks, last, chunks.len() as int);
    assert(events.drop_last() =~= events.take(chunks.len() as int));
    assert(chunks.take(chunks.len() as int) =~= chunks);
}

} // verus!
