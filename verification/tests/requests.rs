use tokimo_media_intelligence::activity::ProxyActivity;
use tokimo_media_intelligence::direct::{DirectAction, DirectEvent, DirectRequest};
use tokimo_media_intelligence::exchange::{Exchange, ExchangeAction, ExchangeKind};
use tokimo_media_intelligence::idle::WorkerSignal;
use tokimo_media_intelligence::proxy::{ProxyAction, ProxyEvent, ProxyRequest};
use tokimo_media_intelligence::reply::{
    msgpack_error_response, msgpack_response, stream_head, ContentType, Reply, ReplyHead,
};
use tokimo_media_intelligence::routes::{full_route, is_stream_route, RouteTable};
use tokimo_media_intelligence::rpc::RpcError;

fn table() -> RouteTable {
    RouteTable {
        ensure_category: "/v1/ensure".to_string(),
        download_stt: "/v1/stt/download".to_string(),
        model_download: "/v1/models/download".to_string(),
        shutdown: "/v1/shutdown".to_string(),
    }
}

fn error() -> RpcError {
    RpcError::Transport("down".to_string())
}

const MSGPACK: ReplyHead = ReplyHead { status: 200, content_type: ContentType::Msgpack };
const OCTETS: ReplyHead = ReplyHead { status: 200, content_type: ContentType::OctetStream };

#[test]
fn route_names() {
    assert_eq!(full_route("stt/download"), "/v1/stt/download");
    assert_eq!(full_route(""), "/v1/");
    assert_ne!(full_route("a"), full_route("a/"));
}

#[test]
fn stream_routes() {
    let table = table();
    assert!(is_stream_route(&table, "/v1/ensure"));
    assert!(is_stream_route(&table, "/v1/stt/download"));
    assert!(is_stream_route(&table, "/v1/models/download"));
    assert!(!is_stream_route(&table, "/v1/shutdown"));
    assert!(!is_stream_route(&table, "ensure"));
    assert!(!is_stream_route(&table, "/v1/ensure/"));
}

#[test]
fn replies() {
    assert_eq!(ContentType::Msgpack.as_str(), "application/msgpack");
    assert_eq!(ContentType::OctetStream.as_str(), "application/octet-stream");
    assert_eq!(stream_head(), OCTETS);
    assert_eq!(msgpack_response(vec![1]), Reply { head: MSGPACK, body: vec![1] });
    assert_eq!(msgpack_error_response(Some(vec![2])), Reply { head: MSGPACK, body: vec![2] });
    assert_eq!(msgpack_error_response(None), Reply { head: MSGPACK, body: vec![] });
}

/// Answers a request whose result is `[4, 2]`; the main loop takes signals or
/// not.
fn answer(route: &str, delivered: bool) -> Vec<DirectAction> {
    let mut request = DirectRequest::new(&table(), route);
    let mut seen = Vec::new();
    let mut event = DirectEvent::Arrived;
    loop {
        let action = request.handle_unary_or_stream(event);
        event = match action {
            DirectAction::Signal(_) => DirectEvent::Signalled { delivered },
            DirectAction::CallUnary => DirectEvent::Returned(vec![4, 2]),
            DirectAction::Wait => return seen,
            DirectAction::Reply(_) | DirectAction::ReplyStream(_) => DirectEvent::Arrived,
        };
        seen.push(action);
    }
}

#[test]
fn direct_unary_request() {
    assert_eq!(DirectRequest::new(&table(), "ocr").full_route(), "/v1/ocr");
    assert_eq!(
        answer("ocr", true),
        vec![
            DirectAction::Signal(WorkerSignal::Activity),
            DirectAction::CallUnary,
            DirectAction::Reply(Reply { head: MSGPACK, body: vec![4, 2] }),
        ]
    );
}

#[test]
fn direct_stream_request() {
    for route in ["ensure", "stt/download", "models/download"] {
        assert_eq!(
            answer(route, true),
            vec![DirectAction::Signal(WorkerSignal::Activity), DirectAction::ReplyStream(OCTETS)]
        );
    }
}

#[test]
fn direct_shutdown_request() {
    assert_eq!(
        answer("shutdown", true),
        vec![
            DirectAction::Signal(WorkerSignal::Activity),
            DirectAction::CallUnary,
            DirectAction::Signal(WorkerSignal::Shutdown),
            DirectAction::Reply(Reply { head: MSGPACK, body: vec![4, 2] }),
        ]
    );
}

#[test]
fn failed_signals_do_not_show() {
    for route in ["ocr", "ensure", "shutdown"] {
        assert_eq!(answer(route, false), answer(route, true));
    }
}

#[test]
fn direct_events_out_of_turn() {
    let mut request = DirectRequest::new(&table(), "ocr");
    assert_eq!(request.handle_unary_or_stream(DirectEvent::Returned(vec![1])), DirectAction::Wait);
    assert_eq!(
        request.handle_unary_or_stream(DirectEvent::Arrived),
        DirectAction::Signal(WorkerSignal::Activity)
    );
    assert_eq!(request.handle_unary_or_stream(DirectEvent::Arrived), DirectAction::Wait);
}

fn proxied(route: &str) -> ProxyRequest {
    ProxyRequest::new(&table(), route, vec![6, 6], 100)
}

/// A request for which the worker is up and its use noted, and what that leads
/// to.
fn passed_on(route: &str) -> (ProxyRequest, ProxyAction) {
    let mut request = proxied(route);
    assert_eq!(request.handle_proxy_unary_or_stream(ProxyEvent::Arrived), ProxyAction::EnsureUp);
    assert_eq!(request.handle_proxy_unary_or_stream(ProxyEvent::Arrived), ProxyAction::Wait);
    assert_eq!(
        request.handle_proxy_unary_or_stream(ProxyEvent::WorkerUp),
        ProxyAction::NoteActivity
    );
    let action = request.handle_proxy_unary_or_stream(ProxyEvent::ActivityNoted);
    (request, action)
}

#[test]
fn proxied_unary_request() {
    let (mut request, action) = passed_on("ocr");
    assert_eq!(request.full_route(), "/v1/ocr");
    assert!(request.counts_as_active());
    let begun = Exchange::new(ExchangeKind::Unary, "/v1/ocr".to_string(), vec![6, 6], 100);
    assert_eq!(action, ProxyAction::BeginCall(begun));
    assert_eq!(
        request.handle_proxy_unary_or_stream(ProxyEvent::Exchange(ExchangeAction::Receive(4))),
        ProxyAction::Wait
    );
    assert!(request.counts_as_active());
    assert_eq!(
        request.handle_proxy_unary_or_stream(ProxyEvent::Exchange(ExchangeAction::Done(vec![3]))),
        ProxyAction::Reply(Reply { head: MSGPACK, body: vec![3] })
    );
    assert!(!request.counts_as_active());
    assert_eq!(request.handle_proxy_unary_or_stream(ProxyEvent::WorkerUp), ProxyAction::Wait);
}

#[test]
fn proxied_failures() {
    for route in ["ocr", "ensure"] {
        let mut request = proxied(route);
        request.handle_proxy_unary_or_stream(ProxyEvent::Arrived);
        assert!(request.counts_as_active());
        assert_eq!(
            request.handle_proxy_unary_or_stream(ProxyEvent::WorkerDown(error())),
            ProxyAction::ReplyError(error())
        );
        assert!(!request.counts_as_active());
    }

    let (mut request, _) = passed_on("ocr");
    assert_eq!(
        request.handle_proxy_unary_or_stream(ProxyEvent::Exchange(ExchangeAction::Fail(error()))),
        ProxyAction::ReplyError(error())
    );
}

#[test]
fn proxied_stream_request() {
    for (route, counted) in [("ensure", false), ("stt/download", true), ("models/download", true)] {
        assert!(proxied(route).counts_as_active());
        let (mut request, action) = passed_on(route);
        let full = request.full_route().to_string();
        let begun = Exchange::new(ExchangeKind::ServerStream, full, vec![6, 6], 100);
        assert_eq!(action, ProxyAction::BeginStream(OCTETS, begun));
        assert_eq!(request.counts_as_active(), counted);
        assert_eq!(
            request.handle_proxy_unary_or_stream(ProxyEvent::Exchange(ExchangeAction::Deliver(vec![8]))),
            ProxyAction::Chunk(vec![8])
        );
        assert_eq!(request.counts_as_active(), counted);
        assert_eq!(
            request.handle_proxy_unary_or_stream(ProxyEvent::Exchange(ExchangeAction::End)),
            ProxyAction::EndBody
        );
        assert!(!request.counts_as_active());
    }
}

#[test]
fn proxied_stream_failure() {
    let (mut request, _) = passed_on("stt/download");
    assert_eq!(
        request.handle_proxy_unary_or_stream(ProxyEvent::Exchange(ExchangeAction::Fail(error()))),
        ProxyAction::ErrorChunk(error())
    );
    assert_eq!(
        request.handle_proxy_unary_or_stream(ProxyEvent::Exchange(ExchangeAction::Deliver(vec![8]))),
        ProxyAction::Wait
    );
}

#[test]
fn interleaved_requests_leave_no_trace() {
    let mut activity = ProxyActivity::new(5, 0);
    let mut live: Vec<ProxyRequest> = Vec::new();
    for route in ["ocr", "ensure", "stt/download"] {
        activity.begin();
        live.push(passed_on(route).0);
    }
    // The second request has been released by the start of its reply.
    assert!(!live[1].counts_as_active());
    activity.finish(1);
    for (index, action) in
        [(2, ExchangeAction::End), (1, ExchangeAction::End), (0, ExchangeAction::Done(vec![]))]
    {
        let before = live[index].counts_as_active();
        live[index].handle_proxy_unary_or_stream(ProxyEvent::Exchange(action));
        if before && !live[index].counts_as_active() {
            activity.finish(2);
        }
    }
    let timer = {
        activity.begin();
        activity.finish(3).unwrap()
    };
    let report = activity.timer_ended(timer, 6_000_000_000).unwrap();
    assert_eq!(report.active_requests, 0);
}
