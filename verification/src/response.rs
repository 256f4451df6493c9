//! What the server answers.

use vstd::prelude::*;

verus! {

/// Error code of a request line that does not decode.
pub const BAD_REQUEST: u64 = 400;

/// Error code of a switch to a topic that does not exist.
pub const NOT_FOUND: u64 = 404;

/// Error code of a request that the server does not carry out.
pub const SERVER_ERROR: u64 = 500;

/// One answer of the server. `State` carries the whole state as a text of
/// its own, encoded by whoever puts the answer on the wire.
#[derive(Debug)]
pub enum ResponseToClient {
    State { value: String },
    Success { details: String },
    Error { error_code: u64, msg: String },
    Bye {  },
    Terminating {  },
}

/// An answer as a mathematical value.
pub enum ResponseView {
    State { value: Seq<char> },
    Success { details: Seq<char> },
    Error { error_code: u64, msg: Seq<char> },
    Bye,
    Terminating,
}

impl View for ResponseToClient {
    type V = ResponseView;

    open spec fn view(&self) -> ResponseView {
        match *self {
            ResponseToClient::State { value } => ResponseView::State { value: value@ },
            ResponseToClient::Success { details } => ResponseView::Success { details: details@ },
            ResponseToClient::Error { error_code, msg } => ResponseView::Error {
                error_code,
                msg: msg@,
            },
            ResponseToClient::Bye {  } => ResponseView::Bye,
            ResponseToClient::Terminating {  } => ResponseView::Terminating,
        }
    }
}

} // verus!
