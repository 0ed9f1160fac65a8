//! The relayer's error taxonomy: encoding errors surface to the caller
//! and are never retried; transport errors are retried by the
//! dispatcher; chain-logic and store errors surface to the relay task.
use vstd::prelude::*;

verus! {

#[derive(Clone, Debug, PartialEq, Eq)]
pub enum Error {
    /// An `Any` envelope carried a `type_url` no client kind claims.
    UnknownHeaderType { type_url: Vec<u8> },
    /// A header envelope failed to decode.
    InvalidRawHeader,
    /// A diagnostic hex string held a non-digit or an odd length.
    BadHex,
    /// A `port/channel/sequence` key failed to parse.
    MalformedPacketId,
    /// A `channel:port` key failed to parse.
    MalformedPortChannelId,
    /// A persisted snapshot document failed to parse.
    MalformedJson,
    /// No snapshot is stored at the queried height.
    SnapshotNotFound,
    /// A chain query did not answer within its deadline.
    RpcTimeout,
    /// The whole batch was rejected by the chain.
    BatchFailed,
    /// Cooperative shutdown reached an in-flight submission.
    Cancelled,
}

/// The kinds of failure the engine distinguishes: they decide who
/// retries, and where.
#[derive(Clone, Copy, Debug, PartialEq, Eq, Structural)]
pub enum ErrorClass {
    /// Malformed input; surfaced to the caller, never retried.
    Encoding,
    /// Transient transport failure; retried by the dispatcher with
    /// bounded attempts.
    Transport,
    /// The chain rejected the work; reported to the relay task.
    ChainLogic,
    /// Cooperative shutdown; propagates silently.
    Cancellation,
    /// The snapshot store could not serve the request.
    Store,
}

pub open spec fn spec_classify(e: Error) -> ErrorClass {
    match e {
        Error::UnknownHeaderType { .. } => ErrorClass::Encoding,
        Error::InvalidRawHeader => ErrorClass::Encoding,
        Error::BadHex => ErrorClass::Encoding,
        Error::MalformedPacketId => ErrorClass::Encoding,
        Error::MalformedPortChannelId => ErrorClass::Encoding,
        Error::MalformedJson => ErrorClass::Encoding,
        Error::SnapshotNotFound => ErrorClass::Store,
        Error::RpcTimeout => ErrorClass::Transport,
        Error::BatchFailed => ErrorClass::ChainLogic,
        Error::Cancelled => ErrorClass::Cancellation,
    }
}

/// Sorts an error into the class that decides its handling.
pub fn classify(e: &Error) -> (r: ErrorClass)
    ensures
        r == spec_classify(*e),
{
    match e {
        Error::UnknownHeaderType { .. } => ErrorClass::Encoding,
        Error::InvalidRawHeader => ErrorClass::Encoding,
        Error::BadHex => ErrorClass::Encoding,
        Error::MalformedPacketId => ErrorClass::Encoding,
        Error::MalformedPortChannelId => ErrorClass::Encoding,
        Error::MalformedJson => ErrorClass::Encoding,
        Error::SnapshotNotFound => ErrorClass::Store,
        Error::RpcTimeout => ErrorClass::Transport,
        Error::BatchFailed => ErrorClass::ChainLogic,
        Error::Cancelled => ErrorClass::Cancellation,
    }
}

/// The dispatcher retries a failed batch exactly when the failure is
/// transient and attempts remain; everything else fails the batch.
pub fn should_retry_batch(e: &Error, attempts_left: u64) -> (r: bool)
    ensures
        r == (spec_classify(*e) == ErrorClass::Transport && attempts_left > 0),
{
    match classify(e) {
        ErrorClass::Transport => attempts_left > 0,
        _ => false,
    }
}

/// Same variant with the same content, byte fields compared by
/// content.
pub open spec fn error_view_eq(a: Error, b: Error) -> bool {
    match (a, b) {
        (
            Error::UnknownHeaderType { type_url: u1 },
            Error::UnknownHeaderType { type_url: u2 },
        ) => u1@ == u2@,
        (Error::InvalidRawHeader, Error::InvalidRawHeader) => true,
        (Error::BadHex, Error::BadHex) => true,
        (Error::MalformedPacketId, Error::MalformedPacketId) => true,
        (Error::MalformedPortChannelId, Error::MalformedPortChannelId) => true,
        (Error::MalformedJson, Error::MalformedJson) => true,
        (Error::SnapshotNotFound, Error::SnapshotNotFound) => true,
        (Error::RpcTimeout, Error::RpcTimeout) => true,
        (Error::BatchFailed, Error::BatchFailed) => true,
        (Error::Cancelled, Error::Cancelled) => true,
        _ => false,
    }
}

/// Copies an error, content and all.
pub fn clone_error(e: &Error) -> (r: Error)
    ensures
        error_view_eq(r, *e),
{
    match e {
        Error::UnknownHeaderType { type_url } => {
            let mut u: Vec<u8> = Vec::new();
            let n = type_url.len();
            let mut i: usize = 0;
            while i < n
                invariant
                    n == type_url@.len(),
                    i <= n,
                    u@ == type_url@.subrange(0, i as int),
                decreases n - i,
            {
                u.push(type_url[i]);
                proof {
                    assert(u@ =~= type_url@.subrange(0, i + 1));
                }
                i += 1;
            }
            proof {
                assert(type_url@.subrange(0, n as int) =~= type_url@);
            }
            Error::UnknownHeaderType { type_url: u }
        },
        Error::InvalidRawHeader => Error::InvalidRawHeader,
        Error::BadHex => Error::BadHex,
        Error::MalformedPacketId => Error::MalformedPacketId,
        Error::MalformedPortChannelId => Error::MalformedPortChannelId,
        Error::MalformedJson => Error::MalformedJson,
        Error::SnapshotNotFound => Error::SnapshotNotFound,
        Error::RpcTimeout => Error::RpcTimeout,
        Error::BatchFailed => Error::BatchFailed,
        Error::Cancelled => Error::Cancelled,
    }
}

} // verus!
