use vstd::prelude::*;

verus! {

/// Failures that are reported back to the requesting client.
#[derive(Clone, Copy, PartialEq, Eq, Structural, Debug)]
pub enum ClientError {
    /// The account's remaining quota cannot cover the charge.
    LowBalance,
    /// An account-creation request found an account already present.
    AccountExists,
    /// A put arrived for a client with no account.
    NoSuchAccount,
}

/// Protocol or consistency violations surfaced to the caller; no client
/// response is generated for these.
#[derive(Clone, Copy, PartialEq, Eq, Structural, Debug)]
pub enum InternalError {
    /// A client-level failure, also reported to the caller for logging.
    Client(ClientError),
    /// A completion notification arrived for a request identifier with no
    /// pending cached request.
    FailedToFindCachedRequest(u64),
    /// A downstream error payload could not be decoded.
    FailedSerialisation,
    /// A request kind that upstream demuxing should never hand to this
    /// persona reached it anyway.
    UnexpectedRequestKind,
}

} // verus!
