use vstd::prelude::*;

use crate::value::JsonV;
use crate::value::JsonValue;
use crate::value::WireV;
use crate::value::WireValue;

verus! {

/// Everything that can go wrong while talking to the endpoint.
///
/// `Transport` is a connection-level failure reported by the transport;
/// `Fault` is a structured `ErrorDescription` returned by the endpoint,
/// rendered as JSON; `MalformedResponse` is an envelope with neither a
/// `Value` nor an `ErrorDescription` member, carried whole; `TypeMismatch`
/// is a payload whose wire shape is not the one the caller demanded.
#[derive(Debug, PartialEq)]
pub enum RpcError {
    Transport(String),
    Fault(JsonValue),
    MalformedResponse(WireValue),
    TypeMismatch(WireValue),
}

/// Mathematical model of an `RpcError`.
#[verifier::ext_equal]
pub enum RpcErrV {
    Transport(Seq<char>),
    Fault(JsonV),
    MalformedResponse(WireV),
    TypeMismatch(WireV),
}

impl View for RpcError {
    type V = RpcErrV;

    open spec fn view(&self) -> RpcErrV {
        match *self {
            RpcError::Transport(ref m) => RpcErrV::Transport(m@),
            RpcError::Fault(ref j) => RpcErrV::Fault(j@),
            RpcError::MalformedResponse(ref w) => RpcErrV::MalformedResponse(w@),
            RpcError::TypeMismatch(ref w) => RpcErrV::TypeMismatch(w@),
        }
    }
}

} // verus!
