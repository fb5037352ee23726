//! Errors of the worker protocol.

use vstd::prelude::*;

verus! {

/// Why a request to the worker failed.
#[derive(Debug, PartialEq, Eq)]
pub enum RpcError {
    /// The request, or a frame of the exchange, is not acceptable.
    BadRequest(String),
    /// The connection to the worker failed.
    Transport(String),
}

/// The contents of an `RpcError`.
pub enum RpcErrorView {
    BadRequest(Seq<char>),
    Transport(Seq<char>),
}

impl View for RpcError {
    type V = RpcErrorView;

    open spec fn view(&self) -> RpcErrorView {
        match self {
            RpcError::BadRequest(message) => RpcErrorView::BadRequest(message@),
            RpcError::Transport(message) => RpcErrorView::Transport(message@),
        }
    }
}

/// The view of an error tells its kind and holds its whole message.
pub proof fn error_view_is_faithful(message: String)
    ensures
        (RpcError::BadRequest(message))@ == RpcErrorView::BadRequest(message@),
        (RpcError::Transport(message))@ == RpcErrorView::Transport(message@),
{
}

} // verus!
