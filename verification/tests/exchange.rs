use tokimo_media_intelligence::exchange::{
    sockets_unsupported, Exchange, ExchangeAction, ExchangeKind, TransferOutcome,
};
use tokimo_media_intelligence::rpc::RpcError;

fn done() -> TransferOutcome {
    TransferOutcome::Completed(Vec::new())
}

fn error(message: &str) -> RpcError {
    RpcError::Transport(message.to_string())
}

/// Carries an exchange through to its end, with a worker that sends `wire` and
/// then closes the connection. Gives the bytes sent, the chunks delivered and
/// the last action.
fn run(
    kind: ExchangeKind,
    body: Vec<u8>,
    max: u32,
    wire: &[u8],
) -> (Vec<u8>, Vec<Vec<u8>>, ExchangeAction) {
    let mut exchange = Exchange::new(kind, "/v1/x".to_string(), body, max);
    let mut sent: Vec<u8> = Vec::new();
    let mut chunks: Vec<Vec<u8>> = Vec::new();
    let mut at: usize = 0;
    let mut action = exchange.step(done());
    assert_eq!(action, ExchangeAction::SendHeader(kind, "/v1/x".to_string()));
    loop {
        let outcome = match action {
            ExchangeAction::SendHeader(_, _) => done(),
            ExchangeAction::Send(bytes) => {
                sent.extend(bytes);
                done()
            }
            ExchangeAction::Receive(n) => {
                if at + n <= wire.len() {
                    at += n;
                    TransferOutcome::Completed(wire[at - n..at].to_vec())
                } else {
                    TransferOutcome::EndOfInput(error("eof"))
                }
            }
            ExchangeAction::Deliver(chunk) => {
                chunks.push(chunk);
                done()
            }
            last => return (sent, chunks, last),
        };
        action = exchange.step(outcome);
    }
}

#[test]
fn verbs() {
    assert_eq!(ExchangeKind::Unary.verb(), "CALL");
    assert_eq!(ExchangeKind::ServerStream.verb(), "SSTREAM");
}

#[test]
fn unary_exchange() {
    let (sent, chunks, last) = run(ExchangeKind::Unary, vec![1, 2], 8, &[0, 0, 0, 1, 9, 77]);
    assert_eq!(sent, vec![0, 0, 0, 2, 1, 2]);
    assert!(chunks.is_empty());
    assert_eq!(last, ExchangeAction::Done(vec![9]));
    let (_, _, last) = run(ExchangeKind::Unary, vec![], 8, &[0, 0, 0, 0]);
    assert_eq!(last, ExchangeAction::Done(vec![]));
}

#[test]
fn unary_exchange_cut_short() {
    for wire in [&[][..], &[0, 0][..], &[0, 0, 0, 2, 1][..]] {
        let (_, _, last) = run(ExchangeKind::Unary, vec![1], 8, wire);
        assert_eq!(last, ExchangeAction::Fail(error("eof")));
    }
    let (_, _, last) = run(ExchangeKind::Unary, vec![1], 8, &[0, 0, 0, 9]);
    assert_eq!(last, ExchangeAction::Fail(RpcError::BadRequest("frame too large: 9".to_string())));
}

#[test]
fn streaming_exchange() {
    let wire = [0, 0, 0, 1, 5, 0, 0, 0, 0, 0, 0, 0, 2, 6, 7];
    let (sent, chunks, last) = run(ExchangeKind::ServerStream, vec![], 8, &wire);
    assert_eq!(sent, vec![0, 0, 0, 0]);
    assert_eq!(chunks, vec![vec![0, 0, 0, 1, 5], vec![0, 0, 0, 0], vec![0, 0, 0, 2, 6, 7]]);
    assert_eq!(last, ExchangeAction::End);
    assert_eq!(chunks.concat(), wire);
}

#[test]
fn streaming_exchange_ends() {
    let (_, chunks, last) = run(ExchangeKind::ServerStream, vec![], 8, &[0, 0, 0, 1, 5, 0, 0]);
    assert_eq!((chunks.len(), last), (1, ExchangeAction::End));
    let (_, chunks, last) = run(ExchangeKind::ServerStream, vec![], 8, &[0, 0, 0, 1, 5, 0, 0, 0, 1]);
    assert_eq!((chunks.len(), last), (1, ExchangeAction::Fail(error("eof"))));
    let (_, chunks, last) = run(ExchangeKind::ServerStream, vec![], 8, &[0, 0, 1, 0, 5]);
    assert_eq!(chunks.len(), 0);
    assert_eq!(last, ExchangeAction::Fail(RpcError::BadRequest("frame too large: 256".to_string())));
}

#[test]
fn oversized_body_is_refused_after_the_header() {
    let (sent, _, last) = run(ExchangeKind::Unary, vec![0; 9], 8, &[]);
    assert!(sent.is_empty());
    assert_eq!(last, ExchangeAction::Fail(RpcError::BadRequest("frame too large: 9".to_string())));
}

#[test]
fn failed_transfers_close_the_exchange() {
    let mut exchange = Exchange::new(ExchangeKind::Unary, "/v1/x".to_string(), vec![], 8);
    assert_eq!(
        exchange.step(TransferOutcome::Failed(error("refused"))),
        ExchangeAction::Fail(error("refused"))
    );
    assert_eq!(exchange.step(done()), ExchangeAction::End);

    let mut exchange = Exchange::new(ExchangeKind::ServerStream, "/v1/x".to_string(), vec![], 8);
    exchange.step(done());
    assert_eq!(
        exchange.step(TransferOutcome::EndOfInput(error("closed"))),
        ExchangeAction::Fail(error("closed"))
    );

    let mut exchange = Exchange::new(ExchangeKind::ServerStream, "/v1/x".to_string(), vec![], 8);
    exchange.step(done());
    exchange.step(done());
    assert_eq!(exchange.step(done()), ExchangeAction::Receive(4));
    assert_eq!(
        exchange.step(TransferOutcome::Failed(error("reset"))),
        ExchangeAction::Fail(error("reset"))
    );
}

#[test]
fn stream_without_a_client_ends() {
    let mut exchange = Exchange::new(ExchangeKind::ServerStream, "/v1/x".to_string(), vec![], 8);
    exchange.step(done());
    exchange.step(done());
    exchange.step(done());
    let action = exchange.step(TransferOutcome::Completed(vec![0, 0, 0, 0]));
    assert_eq!(action, ExchangeAction::Deliver(vec![0, 0, 0, 0]));
    assert_eq!(exchange.step(TransferOutcome::Failed(error("gone"))), ExchangeAction::End);
    assert_eq!(exchange.step(done()), ExchangeAction::End);
}

#[test]
fn platform_without_sockets() {
    assert_eq!(
        sockets_unsupported(),
        RpcError::Transport("supervised HTTP proxy requires Unix sockets".to_string())
    );
}
