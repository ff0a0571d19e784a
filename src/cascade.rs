use vstd::prelude::*;
use crate::bytes_seq::views;
use crate::error::{NodeError, NodeErrorType};
use crate::hash::{blob_id_digest, sha256_of, ArtifactHash};
use crate::store::{ArtifactStore, StoreView};
use vstd::string::StringSliceAdditionalSpecFns;

verus! {

/// Where a resolution stands.
#[derive(Clone, Copy, Debug, PartialEq, Eq, Structural)]
pub enum CascadePhase {
    AwaitProviders,
    AwaitPeer,
    AwaitToken,
    AwaitOrigin,
    AwaitProvide,
    Done,
}

/// The work that a resolution asks its runtime for next.
#[derive(Debug)]
pub enum CascadeStep {
    /// Ask the network which peers provide the digest.
    ListProviders { digest: Vec<u8> },
    /// Request the artifact from one peer.
    RequestFromPeer { peer: Vec<u8>, digest: Vec<u8> },
    /// Obtain an access token for `name` from the origin registry.
    FetchToken { name: String },
    /// Fetch the blob from the origin registry with the token.
    FetchFromOrigin { name: String, blob_id: String, token: String },
    /// Advertise the digest, now held locally.
    Provide { digest: Vec<u8> },
    /// The resolution is over, with the artifact's bytes or the final error.
    Finished(Result<Vec<u8>, NodeError>),
    /// The event did not fit the resolution's phase and was not used.
    Ignored,
}

pub enum StepView {
    ListProviders { digest: Seq<u8> },
    RequestFromPeer { peer: Seq<u8>, digest: Seq<u8> },
    FetchToken { name: Seq<char> },
    FetchFromOrigin { name: Seq<char>, blob_id: Seq<char>, token: Seq<char> },
    Provide { digest: Seq<u8> },
    Finished(Result<Seq<u8>, NodeError>),
    Ignored,
}

pub open spec fn result_view(r: Result<Vec<u8>, NodeError>) -> Result<Seq<u8>, NodeError> {
    match r {
        Ok(b) => Ok(b@),
        Err(e) => Err(e),
    }
}

impl View for CascadeStep {
    type V = StepView;

    open spec fn view(&self) -> StepView {
        match self {
            CascadeStep::ListProviders { digest } => StepView::ListProviders { digest: digest@ },
            CascadeStep::RequestFromPeer { peer, digest } => StepView::RequestFromPeer {
                peer: peer@,
                digest: digest@,
            },
            CascadeStep::FetchToken { name } => StepView::FetchToken { name: name@ },
            CascadeStep::FetchFromOrigin { name, blob_id, token } => StepView::FetchFromOrigin {
                name: name@,
                blob_id: blob_id@,
                token: token@,
            },
            CascadeStep::Provide { digest } => StepView::Provide { digest: digest@ },
            CascadeStep::Finished(r) => StepView::Finished(result_view(*r)),
            CascadeStep::Ignored => StepView::Ignored,
        }
    }
}

/// What the runtime reports back after doing a step's work.
pub enum CascadeEvent {
    /// The peers that provide the digest.
    Providers(Vec<Vec<u8>>),
    /// A peer's answer.
    PeerReply(Result<Vec<u8>, NodeError>),
    /// The origin's token, or why there is none.
    Token(Result<String, NodeError>),
    /// The origin's answer.
    OriginReply(Result<Vec<u8>, NodeError>),
    /// The advertisement was made.
    Provided,
}

pub enum EventView {
    Providers(Seq<Seq<u8>>),
    PeerReply(Result<Seq<u8>, NodeError>),
    Token(Result<Seq<char>, NodeError>),
    OriginReply(Result<Seq<u8>, NodeError>),
    Provided,
}

impl View for CascadeEvent {
    type V = EventView;

    open spec fn view(&self) -> EventView {
        match self {
            CascadeEvent::Providers(p) => EventView::Providers(views(p@)),
            CascadeEvent::PeerReply(r) => EventView::PeerReply(result_view(*r)),
            CascadeEvent::Token(t) => EventView::Token(
                match t {
                    Ok(s) => Ok(s@),
                    Err(e) => Err(*e),
                },
            ),
            CascadeEvent::OriginReply(r) => EventView::OriginReply(result_view(*r)),
            CascadeEvent::Provided => EventView::Provided,
        }
    }
}

pub struct ResolutionView {
    pub name: Seq<char>,
    pub blob_id: Seq<char>,
    pub digest: Seq<u8>,
    pub phase: CascadePhase,
}

impl ResolutionView {
    pub open spec fn at(self, phase: CascadePhase) -> ResolutionView {
        ResolutionView { phase, ..self }
    }

    pub open spec fn ask_origin(self, s: StoreView) -> (ResolutionView, StoreView, StepView) {
        (self.at(CascadePhase::AwaitToken), s, StepView::FetchToken { name: self.name })
    }

    /// One transition of the cascade: the phase, store and step that follow
    /// `ev` in this phase.
    pub open spec fn next(self, s: StoreView, ev: EventView) -> (ResolutionView, StoreView, StepView) {
        match (self.phase, ev) {
            (CascadePhase::AwaitProviders, EventView::Providers(peers)) => {
                if peers.len() > 0 {
                    (
                        self.at(CascadePhase::AwaitPeer),
                        s,
                        StepView::RequestFromPeer { peer: peers[0], digest: self.digest },
                    )
                } else {
                    self.ask_origin(s)
                }
            },
            (CascadePhase::AwaitPeer, EventView::PeerReply(r)) => match r {
                Ok(b) => {
                    let (s2, put) = s.put(self.digest, b);
                    if put is Ok {
                        (self.at(CascadePhase::AwaitProvide), s2, StepView::Provide { digest: self.digest })
                    } else {
                        self.ask_origin(s2)
                    }
                },
                Err(_) => self.ask_origin(s),
            },
            (CascadePhase::AwaitToken, EventView::Token(t)) => match t {
                Ok(token) => (
                    self.at(CascadePhase::AwaitOrigin),
                    s,
                    StepView::FetchFromOrigin { name: self.name, blob_id: self.blob_id, token },
                ),
                Err(e) => (self.at(CascadePhase::Done), s, StepView::Finished(Err(e))),
            },
            (CascadePhase::AwaitOrigin, EventView::OriginReply(r)) => match r {
                Ok(b) => {
                    let (s2, put) = s.put(self.digest, b);
                    match put {
                        Ok(_) => (self.at(CascadePhase::AwaitProvide), s2, StepView::Provide { digest: self.digest }),
                        Err(e) => (self.at(CascadePhase::Done), s2, StepView::Finished(Err(e))),
                    }
                },
                Err(e) => (self.at(CascadePhase::Done), s, StepView::Finished(Err(e))),
            },
            (CascadePhase::AwaitProvide, EventView::Provided) => (
                self.at(CascadePhase::Done),
                s,
                StepView::Finished(s.get(self.digest)),
            ),
            _ => (self, s, StepView::Ignored),
        }
    }
}

/// Bytes from a peer that do not digest to the requested hash are not
/// stored: the resolution turns to the origin and the store is unchanged.
pub proof fn lemma_corrupt_peer_bytes_fall_back(r: ResolutionView, s: StoreView, bytes: Seq<u8>)
    requires
        r.phase == CascadePhase::AwaitPeer,
        sha256_of(bytes) != r.digest,
    ensures
        r.next(s, EventView::PeerReply(Ok(bytes))) == (
            r.at(CascadePhase::AwaitToken),
            s,
            StepView::FetchToken { name: r.name },
        ),
{
}

/// Bytes from the origin that verify and fit are stored under the hash, the
/// hash is advertised next, and then exactly those bytes are returned.
pub proof fn lemma_origin_bytes_stored_and_provided(r: ResolutionView, s: StoreView, bytes: Seq<u8>)
    requires
        r.phase == CascadePhase::AwaitOrigin,
        sha256_of(bytes) == r.digest,
        !s.contents.contains_key(r.digest),
        bytes.len() <= s.available(),
    ensures
        r.next(s, EventView::OriginReply(Ok(bytes))).2 == (StepView::Provide { digest: r.digest }),
        r.next(s, EventView::OriginReply(Ok(bytes))).1.get(r.digest) == Ok::<Seq<u8>, NodeError>(bytes),
        ({
            let (r2, s2, _) = r.next(s, EventView::OriginReply(Ok(bytes)));
            r2.next(s2, EventView::Provided) == (
                r.at(CascadePhase::Done),
                s2,
                StepView::Finished(Ok(bytes)),
            )
        }),
{
}

/// One request for an artifact making its way through the cascade.
pub struct Resolution {
    name: String,
    blob_id: String,
    hash: ArtifactHash,
    phase: CascadePhase,
}

impl View for Resolution {
    type V = ResolutionView;

    closed spec fn view(&self) -> ResolutionView {
        ResolutionView { name: self.name@, blob_id: self.blob_id@, digest: self.hash@, phase: self.phase }
    }
}

impl Resolution {
    /// Starts resolving the blob `blob_id` of the repository `name`. A blob
    /// held in the local store finishes at once with its bytes, and no
    /// network work is asked for; otherwise the providers are asked for.
    /// An identifier that does not decode finishes with `InvalidIdentifier`.
    pub fn start(store: &ArtifactStore, name: &str, blob_id: &str) -> (r: (Resolution, CascadeStep))
        requires
            store.wf(),
        ensures
            r.0@.name == name@,
            r.0@.blob_id == blob_id@,
            blob_id_digest(blob_id.spec_bytes()) is None ==> r.0@.phase == CascadePhase::Done
                && r.1@ == StepView::Finished(Err(NodeError::of(NodeErrorType::InvalidIdentifier))),
            blob_id_digest(blob_id.spec_bytes()) is Some ==> {
                let d = blob_id_digest(blob_id.spec_bytes()).unwrap();
                &&& r.0@.digest == d
                &&& store@.contents.contains_key(d) ==> r.0@.phase == CascadePhase::Done
                    && r.1@ == StepView::Finished(Ok(store@.contents[d]))
                &&& !store@.contents.contains_key(d) ==> r.0@.phase == CascadePhase::AwaitProviders
                    && r.1@ == StepView::ListProviders { digest: d }
            },
    {
        let name_s = name.to_owned();
        let id_s = blob_id.to_owned();
        match ArtifactHash::from_blob_id(blob_id) {
            None => {
                let res = Resolution {
                    name: name_s,
                    blob_id: id_s,
                    hash: ArtifactHash { algorithm: crate::hash::HashAlgorithm::SHA256, digest: Vec::new() },
                    phase: CascadePhase::Done,
                };
                (res, CascadeStep::Finished(Err(NodeError::new(NodeErrorType::InvalidIdentifier))))
            },
            Some(hash) => {
                let local = store.get(&hash);
                match local {
                    Ok(bytes) => {
                        let res = Resolution { name: name_s, blob_id: id_s, hash, phase: CascadePhase::Done };
                        (res, CascadeStep::Finished(Ok(bytes)))
                    },
                    Err(_) => {
                        let digest = hash.digest.clone();
                        let res = Resolution {
                            name: name_s,
                            blob_id: id_s,
                            hash,
                            phase: CascadePhase::AwaitProviders,
                        };
                        (res, CascadeStep::ListProviders { digest })
                    },
                }
            },
        }
    }

    /// The phase the resolution is in.
    pub fn phase(&self) -> (r: CascadePhase)
        ensures
            r == self@.phase,
    {
        self.phase
    }

    fn origin_step(&mut self) -> (step: CascadeStep)
        ensures
            final(self)@ == old(self)@.at(CascadePhase::AwaitToken),
            step@ == (StepView::FetchToken { name: old(self)@.name }),
    {
        self.phase = CascadePhase::AwaitToken;
        CascadeStep::FetchToken { name: self.name.clone() }
    }

    /// Takes the runtime's report of the last step's work and decides the
    /// next step: the first provider is tried; a peer that fails or whose
    /// bytes do not verify sends the resolution to the origin; fetched bytes
    /// are stored and advertised before the stored bytes are returned.
    pub fn advance(&mut self, store: &mut ArtifactStore, event: CascadeEvent) -> (step: CascadeStep)
        requires
            old(store).wf(),
        ensures
            final(store).wf(),
            (final(self)@, final(store)@, step@) == old(self)@.next(old(store)@, event@),
    {
        let ghost ev = event@;
        match (self.phase, event) {
            (CascadePhase::AwaitProviders, CascadeEvent::Providers(peers)) => {
                if peers.len() > 0 {
                    self.phase = CascadePhase::AwaitPeer;
                    let step = CascadeStep::RequestFromPeer { peer: peers[0].clone(), digest: self.hash.digest.clone() };
                    assert(views(peers@)[0] == peers@[0]@);
                    step
                } else {
                    self.origin_step()
                }
            },
            (CascadePhase::AwaitPeer, CascadeEvent::PeerReply(r)) => match r {
                Ok(bytes) => {
                    match store.put(&self.hash, bytes) {
                        Ok(_) => {
                            self.phase = CascadePhase::AwaitProvide;
                            CascadeStep::Provide { digest: self.hash.digest.clone() }
                        },
                        Err(_) => self.origin_step(),
                    }
                },
                Err(_) => self.origin_step(),
            },
            (CascadePhase::AwaitToken, CascadeEvent::Token(t)) => match t {
                Ok(token) => {
                    self.phase = CascadePhase::AwaitOrigin;
                    CascadeStep::FetchFromOrigin { name: self.name.clone(), blob_id: self.blob_id.clone(), token }
                },
                Err(e) => {
                    self.phase = CascadePhase::Done;
                    CascadeStep::Finished(Err(e))
                },
            },
            (CascadePhase::AwaitOrigin, CascadeEvent::OriginReply(r)) => match r {
                Ok(bytes) => {
                    match store.put(&self.hash, bytes) {
                        Ok(_) => {
                            self.phase = CascadePhase::AwaitProvide;
                            CascadeStep::Provide { digest: self.hash.digest.clone() }
                        },
                        Err(e) => {
                            self.phase = CascadePhase::Done;
                            CascadeStep::Finished(Err(e))
                        },
                    }
                },
                Err(e) => {
                    self.phase = CascadePhase::Done;
                    CascadeStep::Finished(Err(e))
                },
            },
            (CascadePhase::AwaitProvide, CascadeEvent::Provided) => {
                self.phase = CascadePhase::Done;
                CascadeStep::Finished(store.get(&self.hash))
            },
            _ => CascadeStep::Ignored,
        }
    }
}

} // verus!
