//! How the worker itself answers an HTTP request.

use crate::idle::WorkerSignal;
use crate::reply;
use crate::reply::{ContentType, Reply, ReplyHead};
use crate::routes;
use crate::routes::RouteTable;
use vstd::prelude::*;
use vstd::slice::slice_to_vec;

verus! {

/// Where a request stands.
#[derive(Debug, Clone, Copy, PartialEq, Eq, Structural)]
pub enum DirectStage {
    /// It has come in, and nothing has been done for it.
    Arrived,
    /// Its activity is being reported.
    Reporting,
    /// It is being carried out.
    Calling,
    /// It has been carried out, and the shutdown it asks for is being passed on.
    ShuttingDown,
    /// It has been replied to.
    Replied,
}

/// What has happened to a request.
#[derive(Debug, PartialEq, Eq)]
pub enum DirectEvent {
    /// It has come in.
    Arrived,
    /// A signal was sent to the main loop, which has or has not taken it.
    Signalled { delivered: bool },
    /// It was carried out, with this encoded result.
    Returned(Vec<u8>),
}

/// What to do next for a request.
#[derive(Debug, PartialEq, Eq)]
pub enum DirectAction {
    /// Nothing.
    Wait,
    /// Send a signal to the main loop.
    Signal(WorkerSignal),
    /// Dispatch the request to its route and wait for its encoded result.
    CallUnary,
    /// Reply as a whole.
    Reply(Reply),
    /// Dispatch the request to its route and reply, with this head, with the
    /// stream of its items, a chunk each.
    ReplyStream(ReplyHead),
}

/// The contents of a `DirectEvent`.
pub enum DirectEventView {
    Arrived,
    Signalled { delivered: bool },
    Returned(Seq<u8>),
}

impl View for DirectEvent {
    type V = DirectEventView;

    open spec fn view(&self) -> DirectEventView {
        match self {
            DirectEvent::Arrived => DirectEventView::Arrived,
            DirectEvent::Signalled { delivered } => DirectEventView::Signalled {
                delivered: *delivered,
            },
            DirectEvent::Returned(result) => DirectEventView::Returned(result@),
        }
    }
}

/// The contents of a `DirectAction`.
pub enum DirectActionView {
    Wait,
    Signal(WorkerSignal),
    CallUnary,
    Reply(ReplyHead, Seq<u8>),
    ReplyStream(ReplyHead),
}

impl View for DirectAction {
    type V = DirectActionView;

    open spec fn view(&self) -> DirectActionView {
        match self {
            DirectAction::Wait => DirectActionView::Wait,
            DirectAction::Signal(signal) => DirectActionView::Signal(*signal),
            DirectAction::CallUnary => DirectActionView::CallUnary,
            DirectAction::Reply(reply) => DirectActionView::Reply(reply.head, reply.body@),
            DirectAction::ReplyStream(head) => DirectActionView::ReplyStream(*head),
        }
    }
}

/// The state of a request.
pub struct DirectView {
    /// The full name of its route.
    pub full_route: Seq<char>,
    /// Whether its answer is a stream.
    pub streams: bool,
    /// Whether it asks the worker to exit.
    pub shuts_down: bool,
    pub stage: DirectStage,
    /// Its encoded result, while the shutdown is being passed on.
    pub result: Seq<u8>,
}

/// The reply to a unary request with this encoded result.
pub open spec fn unary_reply(result: Seq<u8>) -> DirectActionView {
    DirectActionView::Reply(reply::ok_head(ContentType::Msgpack), result)
}

impl DirectView {
    pub open spec fn at(self, stage: DirectStage) -> DirectView {
        DirectView { stage, ..self }
    }

    /// The step of a request. First of all its activity is reported. A shutdown
    /// that it asks for is passed on once it has been carried out. An event that
    /// does not belong to the stage changes nothing.
    pub open spec fn next(self, event: DirectEventView) -> (DirectView, DirectActionView) {
        match (self.stage, event) {
            (DirectStage::Arrived, DirectEventView::Arrived) => (
                self.at(DirectStage::Reporting),
                DirectActionView::Signal(WorkerSignal::Activity),
            ),
            (DirectStage::Reporting, DirectEventView::Signalled { .. }) => if self.streams {
                (
                    self.at(DirectStage::Replied),
                    DirectActionView::ReplyStream(reply::ok_head(ContentType::OctetStream)),
                )
            } else {
                (self.at(DirectStage::Calling), DirectActionView::CallUnary)
            },
            (DirectStage::Calling, DirectEventView::Returned(result)) => if self.shuts_down {
                (
                    DirectView { stage: DirectStage::ShuttingDown, result, ..self },
                    DirectActionView::Signal(WorkerSignal::Shutdown),
                )
            } else {
                (self.at(DirectStage::Replied), unary_reply(result))
            },
            (DirectStage::ShuttingDown, DirectEventView::Signalled { .. }) => (
                self.at(DirectStage::Replied),
                unary_reply(self.result),
            ),
            _ => (self, DirectActionView::Wait),
        }
    }
}

/// A request on `full`, a full name, that has just come in.
pub open spec fn arrived(table: routes::RouteTableView, full: Seq<char>) -> DirectView {
    DirectView {
        full_route: full,
        streams: table.streams(full),
        shuts_down: full == table.shutdown,
        stage: DirectStage::Arrived,
        result: Seq::empty(),
    }
}

/// A request that the worker answers itself.
pub struct DirectRequest {
    full_route: String,
    streams: bool,
    shuts_down: bool,
    stage: DirectStage,
    result: Vec<u8>,
}

impl View for DirectRequest {
    type V = DirectView;

    closed spec fn view(&self) -> DirectView {
        DirectView {
            full_route: self.full_route@,
            streams: self.streams,
            shuts_down: self.shuts_down,
            stage: self.stage,
            result: self.result@,
        }
    }
}

impl DirectRequest {
    /// A request with this path below `/v1/` comes in.
    pub fn new(table: &RouteTable, route: &str) -> (res: Self)
        ensures
            res@ == arrived(table@, routes::full_name(route@)),
            res@.full_route == "/v1/"@ + route@,
            res@.streams <==> res@.full_route == table.ensure_category@ || res@.full_route
                == table.download_stt@ || res@.full_route == table.model_download@,
            res@.shuts_down <==> res@.full_route == table.shutdown@,
            res@.stage == DirectStage::Arrived,
    {
        let full_route = routes::full_route(route);
        let streams = routes::is_stream_route(table, full_route.as_str());
        let shuts_down = str::eq(full_route.as_str(), table.shutdown.as_str());
        DirectRequest {
            full_route,
            streams,
            shuts_down,
            stage: DirectStage::Arrived,
            result: Vec::new(),
        }
    }

    /// The full name of the route to dispatch to.
    pub fn full_route(&self) -> (res: &str)
        ensures
            res@ == self@.full_route,
    {
        self.full_route.as_str()
    }

    /// Takes an event and says what to do next.
    pub fn handle_unary_or_stream(&mut self, event: DirectEvent) -> (res: DirectAction)
        ensures
            (final(self)@, res@) == old(self)@.next(event@),
    {
        match self.stage {
            DirectStage::Arrived => match event {
                DirectEvent::Arrived => {
                    self.stage = DirectStage::Reporting;
                    DirectAction::Signal(WorkerSignal::Activity)
                },
                _ => DirectAction::Wait,
            },
            DirectStage::Reporting => match event {
                DirectEvent::Signalled { .. } => if self.streams {
                    self.stage = DirectStage::Replied;
                    DirectAction::ReplyStream(reply::stream_head())
                } else {
                    self.stage = DirectStage::Calling;
                    DirectAction::CallUnary
                },
                _ => DirectAction::Wait,
            },
            DirectStage::Calling => match event {
                DirectEvent::Returned(result) => if self.shuts_down {
                    self.stage = DirectStage::ShuttingDown;
                    self.result = result;
                    DirectAction::Signal(WorkerSignal::Shutdown)
                } else {
                    self.stage = DirectStage::Replied;
                    DirectAction::Reply(reply::msgpack_response(result))
                },
                _ => DirectAction::Wait,
            },
            DirectStage::ShuttingDown => match event {
                DirectEvent::Signalled { .. } => {
                    self.stage = DirectStage::Replied;
                    DirectAction::Reply(
                        reply::msgpack_response(slice_to_vec(self.result.as_slice())),
                    )
                },
                _ => DirectAction::Wait,
            },
            DirectStage::Replied => DirectAction::Wait,
        }
    }
}

/// The state after `events`, first to last, and the actions they led to.
pub open spec fn after_events(state: DirectView, events: Seq<DirectEventView>) -> (
    DirectView,
    Seq<DirectActionView>,
)
    decreases events.len(),
{
    if events.len() == 0 {
        (state, Seq::empty())
    } else {
        let (before, actions) = after_events(state, events.drop_last());
        let (after, action) = before.next(events.last());
        (after, actions.push(action))
    }
}

/// What happens to a request that is carried out with `result`. The two flags
/// say whether the main loop takes the signals sent to it.
pub open spec fn course(
    state: DirectView,
    reported: bool,
    result: Seq<u8>,
    passed_on: bool,
) -> Seq<DirectEventView> {
    let report = DirectEventView::Signalled { delivered: reported };
    if state.streams {
        seq![DirectEventView::Arrived, report]
    } else if state.shuts_down {
        seq![
            DirectEventView::Arrived,
            report,
            DirectEventView::Returned(result),
            DirectEventView::Signalled { delivered: passed_on },
        ]
    } else {
        seq![DirectEventView::Arrived, report, DirectEventView::Returned(result)]
    }
}

/// What is done for a request on `full`, a full name, that is carried out with
/// `result`, in order.
pub open spec fn direct_actions(
    table: routes::RouteTableView,
    full: Seq<char>,
    result: Seq<u8>,
) -> Seq<DirectActionView> {
    let activity = DirectActionView::Signal(WorkerSignal::Activity);
    if table.streams(full) {
        seq![activity, DirectActionView::ReplyStream(reply::ok_head(ContentType::OctetStream))]
    } else if full == table.shutdown {
        seq![
            activity,
            DirectActionView::CallUnary,
            DirectActionView::Signal(WorkerSignal::Shutdown),
            unary_reply(result),
        ]
    } else {
        seq![activity, DirectActionView::CallUnary, unary_reply(result)]
    }
}

/// A request is reported as activity before anything else is done for it, and
/// replied to last. The reply to a unary request is its encoded result,
/// unchanged, with status 200. A request on the shutdown route is carried out
/// first, and then passed on. None of this depends on whether the main loop
/// takes the signals.
pub proof fn request_is_reported_and_answered(
    table: routes::RouteTableView,
    full: Seq<char>,
    reported: bool,
    result: Seq<u8>,
    passed_on: bool,
)
    ensures
        ({
            let start = arrived(table, full);
            let (state, actions) = after_events(start, course(start, reported, result, passed_on));
            &&& actions == direct_actions(table, full, result)
            &&& state.stage == DirectStage::Replied
        }),
{
    let start = arrived(table, full);
    let report = DirectEventView::Signalled { delivered: reported };
    let pass = DirectEventView::Signalled { delivered: passed_on };
    let one = seq![DirectEventView::Arrived];
    let two = one.push(report);
    let three = two.push(DirectEventView::Returned(result));
    let four = three.push(pass);
    assert(one.drop_last() =~= Seq::empty());
    assert(two.drop_last() =~= one);
    assert(three.drop_last() =~= two);
    assert(four.drop_last() =~= three);
    reveal_with_fuel(after_events, 5);
    let events = course(start, reported, result, passed_on);
    if start.streams {
        assert(events =~= two);
    } else if start.shuts_down {
        assert(events =~= four);
    } else {
        assert(events =~= three);
    }
}

/// The same event, or both the outcome of a signal.
pub open spec fn same_but_for_delivery(a: DirectEventView, b: DirectEventView) -> bool {
    a == b || (a is Signalled && b is Signalled)
}

/// A signal that the main loop does not take changes nothing: whatever else
/// happens, the state and every action are the same as if it had been taken.
pub proof fn failed_signals_change_nothing(
    state: DirectView,
    events: Seq<DirectEventView>,
    others: Seq<DirectEventView>,
)
    requires
        events.len() == others.len(),
        forall|i: int|
            0 <= i < events.len() ==> same_but_for_delivery(#[trigger] events[i], others[i]),
    ensures
        after_events(state, events) == after_events(state, others),
    decreases events.len(),
{
    if events.len() > 0 {
        let (before, before_others) = (events.drop_last(), others.drop_last());
        assert forall|i: int| 0 <= i < before.len() implies same_but_for_delivery(
            #[trigger] before[i],
            before_others[i],
        ) by {
            assert(before[i] == events[i]);
        }
        failed_signals_change_nothing(state, before, before_others);
        assert(same_but_for_delivery(events[events.len() - 1], others[events.len() - 1]));
    }
}

/// How many of `actions` are replies.
pub open spec fn replies_in(actions: Seq<DirectActionView>) -> nat
    decreases actions.len(),
{
    if actions.len() == 0 {
        0
    } else {
        replies_in(actions.drop_last()) + (if actions.last() is Reply
            || actions.last() is ReplyStream {
            1nat
        } else {
            0nat
        })
    }
}

/// Whatever happens, a request is replied to at most once, and what it asks for
/// does not change.
pub proof fn request_is_answered_once(
    table: routes::RouteTableView,
    full: Seq<char>,
    events: Seq<DirectEventView>,
)
    ensures
        ({
            let (state, actions) = after_events(arrived(table, full), events);
            &&& replies_in(actions) == (if state.stage == DirectStage::Replied {
                1nat
            } else {
                0nat
            })
            &&& state == DirectView {
                stage: state.stage,
                result: state.result,
                ..arrived(table, full)
            }
        }),
    decreases events.len(),
{
    if events.len() > 0 {
        request_is_answered_once(table, full, events.drop_last());
        let (before, actions) = after_events(arrived(table, full), events.drop_last());
        let (after, action) = before.next(events.last());
        assert(actions.push(action).drop_last() =~= actions);
    }
}

/// Whatever happens, the worker is asked to exit only by a request on the
/// shutdown route that has been carried out.
pub proof fn shutdown_follows_its_call(
    table: routes::RouteTableView,
    full: Seq<char>,
    events: Seq<DirectEventView>,
    event: DirectEventView,
)
    requires
        after_events(arrived(table, full), events).0.next(event).1 == DirectActionView::Signal(
            WorkerSignal::Shutdown,
        ),
    ensures
        full == table.shutdown,
        !table.streams(full),
        event is Returned,
{
    request_is_answered_once(table, full, events);
    lemma_streams_are_not_called(table, full, events);
}

proof fn lemma_streams_are_not_called(
    table: routes::RouteTableView,
    full: Seq<char>,
    events: Seq<DirectEventView>,
)
    ensures
        ({
            let stage = after_events(arrived(table, full), events).0.stage;
            stage == DirectStage::Calling || stage == DirectStage::ShuttingDown ==> !table.streams(
                full,
            )
        }),
    decreases events.len(),
{
    if events.len() > 0 {
        lemma_streams_are_not_called(table, full, events.drop_last());
        request_is_answered_once(table, full, events.drop_last());
    }
}

/// Views of what happens to a request and of what is to be done for it hold all
/// of it.
pub proof fn direct_views_are_faithful(
    delivered: bool,
    result: Vec<u8>,
    signal: WorkerSignal,
    reply: Reply,
    head: ReplyHead,
)
    ensures
        DirectEvent::Arrived@ == DirectEventView::Arrived,
        (DirectEvent::Signalled { delivered })@ == (DirectEventView::Signalled { delivered }),
        (DirectEvent::Returned(result))@ == DirectEventView::Returned(result@),
        DirectAction::Wait@ == DirectActionView::Wait,
        (DirectAction::Signal(signal))@ == DirectActionView::Signal(signal),
        DirectAction::CallUnary@ == DirectActionView::CallUnary,
        (DirectAction::Reply(reply))@ == DirectActionView::Reply(reply.head, reply.body@),
        (DirectAction::ReplyStream(head))@ == DirectActionView::ReplyStream(head),
{
}

/// A request that has come in is on its route. It streams on the three
/// streaming routes, and asks the worker to exit on the shutdown route.
pub proof fn arrived_request_is_as_sent(table: routes::RouteTableView, full: Seq<char>)
    ensures
        ({
            let state = arrived(table, full);
            &&& state.full_route == full
            &&& state.stage == DirectStage::Arrived
            &&& state.streams <==> full == table.ensure_category || full == table.download_stt
                || full == table.model_download
            &&& state.shuts_down <==> full == table.shutdown
        }),
{
}

/// Whatever happens, what a request asks for stays.
pub proof fn direct_request_keeps_what_it_asks(state: DirectView, event: DirectEventView)
    ensures
        state.next(event).0.full_route == state.full_route,
        state.next(event).0.streams == state.streams,
        state.next(event).0.shuts_down == state.shuts_down,
{
}

/// Activity is reported when the request has come in, and at no other time.
pub proof fn activity_is_reported_on_arrival(state: DirectView, event: DirectEventView)
    ensures
        state.next(event).1 == DirectActionView::Signal(WorkerSignal::Activity) <==> state.stage
            == DirectStage::Arrived && event is Arrived,
        state.next(event).1 == DirectActionView::Signal(WorkerSignal::Activity) ==> state.next(
            event,
        ).0.stage == DirectStage::Reporting,
{
}

/// A request is dispatched when its activity has been reported, and at no other
/// time: a streaming one under a reply with status 200, any other for its
/// result.
pub proof fn dispatch_follows_the_report(state: DirectView, event: DirectEventView)
    ensures
        state.next(event).1 is CallUnary <==> state.stage == DirectStage::Reporting && event
            is Signalled && !state.streams,
        state.next(event).1 is CallUnary ==> state.next(event).0.stage == DirectStage::Calling,
        state.next(event).1 is ReplyStream <==> state.stage == DirectStage::Reporting && event
            is Signalled && state.streams,
        state.next(event).1 matches DirectActionView::ReplyStream(head) ==> {
            &&& head.status == 200
            &&& head.content_type == ContentType::OctetStream
            &&& state.next(event).0.stage == DirectStage::Replied
        },
{
}

/// A shutdown is passed on when a request that asks for it has been carried out,
/// and at no other time. The result is kept meanwhile.
pub proof fn shutdown_is_passed_on_with_the_result(state: DirectView, event: DirectEventView)
    ensures
        state.next(event).1 == DirectActionView::Signal(WorkerSignal::Shutdown) <==> state.stage
            == DirectStage::Calling && event is Returned && state.shuts_down,
        state.next(event).1 == DirectActionView::Signal(WorkerSignal::Shutdown) ==> {
            &&& state.next(event).0.stage == DirectStage::ShuttingDown
            &&& event == DirectEventView::Returned(state.next(event).0.result)
        },
{
}

/// A request is replied to as a whole when it has been carried out and any
/// shutdown it asks for has been passed on, and at no other time. The body is
/// the whole result, the status is 200 and the content type is that of one
/// value.
pub proof fn reply_is_the_result(state: DirectView, event: DirectEventView)
    ensures
        state.next(event).1 matches DirectActionView::Reply(head, body) ==> {
            &&& (state.stage == DirectStage::Calling && event == DirectEventView::Returned(body)
                && !state.shuts_down) || (state.stage == DirectStage::ShuttingDown && event
                is Signalled && body == state.result)
            &&& head.status == 200
            &&& head.content_type == ContentType::Msgpack
            &&& state.next(event).0.stage == DirectStage::Replied
        },
        state.stage == DirectStage::Calling && event is Returned && !state.shuts_down
            ==> state.next(event).1 is Reply,
        state.stage == DirectStage::ShuttingDown && event is Signalled ==> state.next(event).1
            is Reply,
{
}

/// An event that leads to nothing leaves the request as it was.
pub proof fn waiting_changes_nothing(state: DirectView, event: DirectEventView)
    ensures
        state.next(event).1 is Wait ==> state.next(event).0 == state,
{
}

/// On every route that does not stream, for every result, the request is
/// reported, carried out, and replied to with that result, byte for byte. Only
/// on the shutdown route a shutdown comes between the last two.
pub proof fn unary_request_returns_its_result(
    table: routes::RouteTableView,
    full: Seq<char>,
    reported: bool,
    result: Seq<u8>,
    passed_on: bool,
)
    requires
        full != table.ensure_category,
        full != table.download_stt,
        full != table.model_download,
    ensures
        ({
            let carried_out = seq![
                DirectEventView::Arrived,
                DirectEventView::Signalled { delivered: reported },
                DirectEventView::Returned(result),
            ];
            let events = if full == table.shutdown {
                carried_out.push(DirectEventView::Signalled { delivered: passed_on })
            } else {
                carried_out
            };
            let actions = after_events(arrived(table, full), events).1;
            &&& actions.len() == events.len()
            &&& actions[0] == DirectActionView::Signal(WorkerSignal::Activity)
            &&& actions[1] is CallUnary
            &&& full == table.shutdown ==> actions[2] == DirectActionView::Signal(
                WorkerSignal::Shutdown,
            )
            &&& actions.last() matches DirectActionView::Reply(head, body) && body == result
                && head.status == 200 && head.content_type == ContentType::Msgpack
        }),
{
    let start = arrived(table, full);
    let report = DirectEventView::Signalled { delivered: reported };
    let one = seq![DirectEventView::Arrived];
    let two = one.push(report);
    let three = two.push(DirectEventView::Returned(result));
    let four = three.push(DirectEventView::Signalled { delivered: passed_on });
    assert(one.drop_last() =~= Seq::empty());
    assert(two.drop_last() =~= one);
    assert(three.drop_last() =~= two);
    assert(four.drop_last() =~= three);
    reveal_with_fuel(after_events, 5);
    assert(three =~= seq![
        DirectEventView::Arrived,
        report,
        DirectEventView::Returned(result),
    ]);
}

/// On each of the three streaming routes the request is reported and then
/// replied to with a stream, with status 200.
pub proof fn stream_request_replies_with_a_stream(
    table: routes::RouteTableView,
    full: Seq<char>,
    reported: bool,
)
    requires
        full == table.ensure_category || full == table.download_stt || full
            == table.model_download,
    ensures
        ({
            let actions = after_events(
                arrived(table, full),
                seq![DirectEventView::Arrived, DirectEventView::Signalled { delivered: reported }],
            ).1;
            &&& actions.len() == 2
            &&& actions[0] == DirectActionView::Signal(WorkerSignal::Activity)
            &&& actions[1] matches DirectActionView::ReplyStream(head) && head.status == 200
                && head.content_type == ContentType::OctetStream
        }),
{
    let report = DirectEventView::Signalled { delivered: reported };
    let one = seq![DirectEventView::Arrived];
    let two = one.push(report);
    assert(one.drop_last() =~= Seq::empty());
    assert(two.drop_last() =~= one);
    reveal_with_fuel(after_events, 3);
    assert(two =~= seq![DirectEventView::Arrived, report]);
}

/// Whatever happens, and in whatever order, the body of a reply is a result with
/// which the request was carried out.
pub proof fn replies_are_results(
    table: routes::RouteTableView,
    full: Seq<char>,
    events: Seq<DirectEventView>,
    event: DirectEventView,
)
    ensures
        after_events(arrived(table, full), events).0.next(event).1 matches DirectActionView::Reply(
            head,
            body,
        ) ==> events.push(event).contains(DirectEventView::Returned(body)) && head.status == 200
            && head.content_type == ContentType::Msgpack,
{
    let state = after_events(arrived(table, full), events).0;
    let all = events.push(event);
    lemma_kept_result_was_returned(table, full, events);
    assert(all[events.len() as int] == event);
    if state.stage == DirectStage::ShuttingDown {
        let i = choose|i: int|
            0 <= i < events.len() && events[i] == DirectEventView::Returned(state.result);
        assert(all[i] == events[i]);
    }
}

proof fn lemma_kept_result_was_returned(
    table: routes::RouteTableView,
    full: Seq<char>,
    events: Seq<DirectEventView>,
)
    ensures
        ({
            let state = after_events(arrived(table, full), events).0;
            state.stage == DirectStage::ShuttingDown ==> events.contains(
                DirectEventView::Returned(state.result),
            )
        }),
    decreases events.len(),
{
    if events.len() > 0 {
        let before = events.drop_last();
        lemma_kept_result_was_returned(table, full, before);
        let earlier = after_events(arrived(table, full), before).0;
        assert(events[events.len() - 1] == events.last());
        if earlier.stage == DirectStage::ShuttingDown {
            let i = choose|i: int|
                0 <= i < before.len() && before[i] == DirectEventView::Returned(earlier.result);
            assert(events[i] == before[i]);
        }
    }
}

} // verus!
