use vstd::prelude::*;

verus! {

/// The kinds of failure that the node's core reports.
#[derive(Clone, Copy, Debug, PartialEq, Eq, Structural)]
pub enum NodeErrorType {
    /// The recomputed digest disagrees with the claimed hash.
    IntegrityMismatch,
    /// Accepting the content would exceed the space budget.
    QuotaExceeded,
    /// The local store holds nothing under the hash.
    NotFoundLocally,
    /// No peer is known to provide the hash.
    NoProviders,
    /// A peer did not answer within the timeout window.
    PeerTimeout,
    /// A peer answered with an error or the exchange broke down.
    PeerTransferFailed,
    /// The origin registry refused the credentials.
    OriginUnauthorized,
    /// The origin registry does not have the artifact.
    OriginNotFound,
    /// A transport or disk failure.
    IoError,
    /// A blob identifier that does not decode to a digest.
    InvalidIdentifier,
    /// A response capability that was already used or has expired.
    ResponseChannelClosed,
    /// A reply of another kind than the command calls for.
    UnexpectedReply,
}

/// An error of the node, tagged with its kind.
#[derive(Clone, Copy, Debug, PartialEq, Eq, Structural)]
pub struct NodeError {
    pub error_type: NodeErrorType,
}

impl NodeError {
    pub open spec fn of(kind: NodeErrorType) -> NodeError {
        NodeError { error_type: kind }
    }

    pub fn new(kind: NodeErrorType) -> (r: NodeError)
        ensures
            r == NodeError::of(kind),
    {
        NodeError { error_type: kind }
    }
}

} // verus!
