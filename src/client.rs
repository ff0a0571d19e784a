use vstd::prelude::*;
use crate::bytes_seq::views;
use crate::error::{NodeError, NodeErrorType};
use crate::overlay::{Outcome, OutcomeView, PeerIdentity};
use crate::store::ArtifactStore;

verus! {

/// What a command that only succeeds or fails returns to its caller.
pub fn expect_done(outcome: Outcome) -> (r: Result<(), NodeError>)
    ensures
        match outcome@ {
            OutcomeView::Done => r == Ok::<(), NodeError>(()),
            OutcomeView::Failed(e) => r == Err::<(), NodeError>(e),
            _ => r == Err::<(), NodeError>(NodeError::of(NodeErrorType::UnexpectedReply)),
        },
{
    match outcome {
        Outcome::Done => Ok(()),
        Outcome::Failed(e) => Err(e),
        _ => Err(NodeError::new(NodeErrorType::UnexpectedReply)),
    }
}

/// What a command that lists peers returns to its caller.
pub fn expect_peers(outcome: Outcome) -> (r: Result<Vec<PeerIdentity>, NodeError>)
    ensures
        match outcome@ {
            OutcomeView::Peers(p) => r is Ok && r.unwrap()@.map_values(|q: PeerIdentity| q@) == p,
            OutcomeView::Failed(e) => r == Err::<Vec<PeerIdentity>, NodeError>(e),
            _ => r == Err::<Vec<PeerIdentity>, NodeError>(NodeError::of(NodeErrorType::UnexpectedReply)),
        },
{
    match outcome {
        Outcome::Peers(p) => {
            let mut out: Vec<PeerIdentity> = Vec::new();
            let mut i: usize = 0;
            while i < p.len()
                invariant
                    0 <= i <= p@.len(),
                    out@.map_values(|q: PeerIdentity| q@) == views(p@).take(i as int),
                decreases p@.len() - i,
            {
                let ghost before = out@;
                out.push(PeerIdentity { bytes: p[i].clone() });
                assert(out@.map_values(|q: PeerIdentity| q@) =~= before.map_values(|q: PeerIdentity| q@).push(
                    p@[i as int]@,
                ));
                assert(views(p@).take(i + 1) =~= views(p@).take(i as int).push(p@[i as int]@));
                i = i + 1;
            }
            assert(views(p@).take(p@.len() as int) =~= views(p@));
            Ok(out)
        },
        Outcome::Failed(e) => Err(e),
        _ => Err(NodeError::new(NodeErrorType::UnexpectedReply)),
    }
}

/// What a request for an artifact returns to its caller.
pub fn expect_artifact(outcome: Outcome) -> (r: Result<Vec<u8>, NodeError>)
    ensures
        match outcome@ {
            OutcomeView::Artifact(b) => r is Ok && r.unwrap()@ == b,
            OutcomeView::Failed(e) => r == Err::<Vec<u8>, NodeError>(e),
            _ => r == Err::<Vec<u8>, NodeError>(NodeError::of(NodeErrorType::UnexpectedReply)),
        },
{
    match outcome {
        Outcome::Artifact(b) => Ok(b),
        Outcome::Failed(e) => Err(e),
        _ => Err(NodeError::new(NodeErrorType::UnexpectedReply)),
    }
}

/// The node's status as reported upward.
#[derive(Clone, Copy, Debug, PartialEq, Eq, Structural)]
pub struct Status {
    pub artifact_count: usize,
    pub peers_count: usize,
    pub disk_allocated: u64,
    pub disk_usage: u64,
}

/// The status of a node with `store` and the peers `peers`.
pub fn status(store: &ArtifactStore, peers: &Vec<PeerIdentity>) -> (r: Status)
    requires
        store.wf(),
    ensures
        r.artifact_count == store@.contents.dom().len(),
        r.peers_count == peers@.len(),
        r.disk_allocated == store@.capacity,
        r.disk_usage == store@.used,
{
    Status {
        artifact_count: store.artifact_count(),
        peers_count: peers.len(),
        disk_allocated: store.capacity(),
        disk_usage: store.used_space(),
    }
}

} // verus!
