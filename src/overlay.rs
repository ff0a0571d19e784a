use vstd::prelude::*;
use crate::bytes_seq::{views, differs, with_key, without_bytes, insert_bytes, lemma_with_key_no_duplicates};
use crate::error::{NodeError, NodeErrorType};
use crate::hash::{bytes_equal, ArtifactHash};

verus! {

broadcast use vstd::seq_lib::group_seq_properties;

/// A node's stable identifier on the overlay, as its encoded bytes.
#[derive(Clone, Debug)]
pub struct PeerIdentity {
    pub bytes: Vec<u8>,
}

impl View for PeerIdentity {
    type V = Seq<u8>;

    open spec fn view(&self) -> Seq<u8> {
        self.bytes@
    }
}

/// What a caller's reply slot is completed with.
#[derive(Clone, Debug)]
pub enum Outcome {
    Done,
    Peers(Vec<Vec<u8>>),
    Artifact(Vec<u8>),
    Failed(NodeError),
}

/// What the engine asks its runtime to do after a decision.
#[derive(Debug)]
pub enum Action {
    /// Complete the caller's reply slot.
    Complete { slot: u64, outcome: Outcome },
    /// Start listening on an address and complete the slot with the result.
    ListenOn { slot: u64, address: String },
    /// Dial a peer and complete the slot with the result.
    DialPeer { slot: u64, peer: Vec<u8>, address: String },
    /// Advertise this node as a provider of a digest.
    Advertise { digest: Vec<u8> },
    /// Withdraw the advertisement of a digest.
    StopAdvertising { digest: Vec<u8> },
    /// Send an artifact request to a peer, tagged with a request identifier.
    SendRequest { request: u64, peer: Vec<u8>, digest: Vec<u8> },
    /// Answer an inbound request through its response capability, with the
    /// artifact's bytes or `None` for "not found".
    SendResponse { channel: u64, payload: Option<Vec<u8>> },
    /// Hand an inbound request to the application.
    Surface { channel: u64, digest: Vec<u8> },
}

pub enum OutcomeView {
    Done,
    Peers(Seq<Seq<u8>>),
    Artifact(Seq<u8>),
    Failed(NodeError),
}

impl View for Outcome {
    type V = OutcomeView;

    open spec fn view(&self) -> OutcomeView {
        match self {
            Outcome::Done => OutcomeView::Done,
            Outcome::Peers(p) => OutcomeView::Peers(views(p@)),
            Outcome::Artifact(b) => OutcomeView::Artifact(b@),
            Outcome::Failed(e) => OutcomeView::Failed(*e),
        }
    }
}

pub enum ActionView {
    Complete { slot: u64, outcome: OutcomeView },
    ListenOn { slot: u64, address: Seq<char> },
    DialPeer { slot: u64, peer: Seq<u8>, address: Seq<char> },
    Advertise { digest: Seq<u8> },
    StopAdvertising { digest: Seq<u8> },
    SendRequest { request: u64, peer: Seq<u8>, digest: Seq<u8> },
    SendResponse { channel: u64, payload: Option<Seq<u8>> },
    Surface { channel: u64, digest: Seq<u8> },
}

impl View for Action {
    type V = ActionView;

    open spec fn view(&self) -> ActionView {
        match self {
            Action::Complete { slot, outcome } => ActionView::Complete { slot: *slot, outcome: outcome@ },
            Action::ListenOn { slot, address } => ActionView::ListenOn { slot: *slot, address: address@ },
            Action::DialPeer { slot, peer, address } => ActionView::DialPeer {
                slot: *slot,
                peer: peer@,
                address: address@,
            },
            Action::Advertise { digest } => ActionView::Advertise { digest: digest@ },
            Action::StopAdvertising { digest } => ActionView::StopAdvertising { digest: digest@ },
            Action::SendRequest { request, peer, digest } => ActionView::SendRequest {
                request: *request,
                peer: peer@,
                digest: digest@,
            },
            Action::SendResponse { channel, payload } => ActionView::SendResponse {
                channel: *channel,
                payload: match payload {
                    Some(b) => Some(b@),
                    None => None,
                },
            },
            Action::Surface { channel, digest } => ActionView::Surface { channel: *channel, digest: digest@ },
        }
    }
}

pub open spec fn action_views(s: Seq<Action>) -> Seq<ActionView> {
    s.map_values(|a: Action| a@)
}

/// The completion of a timed-out request.
pub open spec fn timeout_action(p: PendingView) -> ActionView {
    ActionView::Complete {
        slot: p.slot,
        outcome: OutcomeView::Failed(NodeError::of(NodeErrorType::PeerTimeout)),
    }
}

/// A filtered sequence keeps no duplicates.
pub proof fn lemma_filter_no_duplicates<A>(s: Seq<A>, p: spec_fn(A) -> bool)
    requires
        s.no_duplicates(),
    ensures
        s.filter(p).no_duplicates(),
    decreases s.len(),
{
    reveal(Seq::filter);
    if s.len() > 0 {
        let rest = s.drop_last();
        assert(rest.no_duplicates());
        lemma_filter_no_duplicates(rest, p);
        if p(s.last()) {
            if rest.filter(p).contains(s.last()) {
                rest.lemma_filter_contains_rev(p, s.last());
            }
        }
    }
}

/// An operation submitted to the engine; the runtime pairs each with the
/// caller's reply slot.
#[derive(Debug)]
pub enum Command {
    Listen { address: String },
    Dial { peer: PeerIdentity, address: String },
    StartProviding { hash: ArtifactHash },
    StopProviding { hash: ArtifactHash },
    GetProviders { hash: ArtifactHash },
    RequestArtifact { peer: PeerIdentity, hash: ArtifactHash },
    RespondArtifact { channel: u64, payload: Option<Vec<u8>> },
    ListPeers,
}

/// Something that happened on the network, as the runtime reports it.
#[derive(Debug)]
pub enum NetworkEvent {
    /// The clock now reads `now`.
    Tick { now: u64 },
    PeerDiscovered { peer: PeerIdentity },
    /// Discovery's entry for `peer` expired; `still_announced` tells whether
    /// discovery still sees the peer.
    PeerExpired { peer: PeerIdentity, still_announced: bool },
    ProviderFound { hash: ArtifactHash, peer: PeerIdentity },
    InboundRequest { channel: u64, hash: ArtifactHash },
    ResponseReceived { request: u64, payload: Option<Vec<u8>> },
    RequestFailed { request: u64 },
}

pub open spec fn payload_view(p: Option<Vec<u8>>) -> Option<Seq<u8>> {
    match p {
        Some(b) => Some(b@),
        None => None,
    }
}

/// An outstanding request-response exchange.
pub struct PendingRequest {
    pub id: u64,
    pub peer: Vec<u8>,
    pub digest: Vec<u8>,
    pub slot: u64,
    pub deadline: u64,
}

pub struct PendingView {
    pub id: u64,
    pub peer: Seq<u8>,
    pub digest: Seq<u8>,
    pub slot: u64,
    pub deadline: u64,
}

impl PendingRequest {
    pub fn copied(&self) -> (r: PendingRequest)
        ensures
            r@ == self@,
    {
        PendingRequest {
            id: self.id,
            peer: self.peer.clone(),
            digest: self.digest.clone(),
            slot: self.slot,
            deadline: self.deadline,
        }
    }
}

impl View for PendingRequest {
    type V = PendingView;

    open spec fn view(&self) -> PendingView {
        PendingView {
            id: self.id,
            peer: self.peer@,
            digest: self.digest@,
            slot: self.slot,
            deadline: self.deadline,
        }
    }
}

pub open spec fn pending_views(s: Seq<PendingRequest>) -> Seq<PendingView> {
    s.map_values(|p: PendingRequest| p@)
}

pub open spec fn not_id(id: u64) -> spec_fn(PendingView) -> bool {
    |p: PendingView| p.id != id
}

pub open spec fn not_channel(channel: u64) -> spec_fn(u64) -> bool {
    |c: u64| c != channel
}

pub open spec fn alive_at(now: u64) -> spec_fn(PendingView) -> bool {
    |p: PendingView| p.deadline > now
}

pub open spec fn expired_at(now: u64) -> spec_fn(PendingView) -> bool {
    |p: PendingView| p.deadline <= now
}

/// Outstanding requests have distinct identifiers, all below `next`.
pub open spec fn pending_ok(s: Seq<PendingView>, next: u64) -> bool {
    &&& forall|i: int| 0 <= i < s.len() ==> #[trigger] s[i].id < next
    &&& forall|i: int, j: int| 0 <= i < j < s.len() ==> s[i].id != s[j].id
}

/// A filtered list of outstanding requests keeps their identifiers
/// distinct and below `next`.
pub proof fn lemma_filter_pending_ok(s: Seq<PendingView>, p: spec_fn(PendingView) -> bool, next: u64)
    requires
        pending_ok(s, next),
    ensures
        pending_ok(s.filter(p), next),
    decreases s.len(),
{
    reveal(Seq::filter);
    if s.len() > 0 {
        let rest = s.drop_last();
        lemma_filter_pending_ok(rest, p, next);
        let f = rest.filter(p);
        if p(s.last()) {
            assert forall|j: int| 0 <= j < f.len() implies f[j].id != s.last().id by {
                assert(f.contains(f[j]));
                rest.lemma_filter_contains_rev(p, f[j]);
                let m = choose|m: int| 0 <= m < rest.len() && rest[m] == f[j];
                assert(s[m] == rest[m]);
            }
            let g = f.push(s.last());
            assert forall|i: int, j: int| 0 <= i < j < g.len() implies g[i].id != g[j].id by {
                if j == g.len() - 1 {
                    assert(g[i] == f[i]);
                } else {
                    assert(g[i] == f[i] && g[j] == f[j]);
                }
            }
            assert forall|i: int| 0 <= i < g.len() implies #[trigger] g[i].id < next by {
                if i < f.len() {
                    assert(g[i] == f[i]);
                }
            }
        }
    }
}

/// A request that gets no response before its deadline completes its caller
/// with `PeerTimeout` at the first clock reading at or past the deadline, and
/// is no longer outstanding afterwards.
pub proof fn lemma_request_times_out(e: EngineView, peer: Seq<u8>, d: Seq<u8>, slot: u64, now: u64)
    requires
        pending_ok(e.pending, e.next_request),
        e.next_request < u64::MAX,
        now >= e.deadline_after(),
    ensures
        e.requested(peer, d, slot).ticked_actions(now).contains(
            ActionView::Complete { slot, outcome: OutcomeView::Failed(NodeError::of(NodeErrorType::PeerTimeout)) },
        ),
        !e.requested(peer, d, slot).ticked(now).has_pending(e.next_request),
{
    let e1 = e.requested(peer, d, slot);
    let t = if now > e1.now { now } else { e1.now };
    let p = e1.pending.last();
    assert(e1.pending.drop_last() =~= e.pending);
    e.pending.lemma_filter_push(p, expired_at(t));
    e.pending.lemma_filter_push(p, alive_at(t));
    let done = e.pending.filter(expired_at(t)).push(p);
    assert(done.map_values(|q: PendingView| timeout_action(q))[done.len() - 1] == timeout_action(p));
    let kept = e.pending.filter(alive_at(t));
    assert forall|i: int| 0 <= i < kept.len() implies kept[i].id != e.next_request by {
        assert(kept.contains(kept[i]));
        e.pending.lemma_filter_contains_rev(alive_at(t), kept[i]);
    }
}

/// Any outstanding request whose deadline has passed when the clock is read
/// completes its caller with `PeerTimeout` and is no longer outstanding.
pub proof fn lemma_outstanding_request_times_out(e: EngineView, i: int, now: u64)
    requires
        pending_ok(e.pending, e.next_request),
        0 <= i < e.pending.len(),
        now >= e.pending[i].deadline,
    ensures
        e.ticked_actions(now).contains(timeout_action(e.pending[i])),
        !e.ticked(now).has_pending(e.pending[i].id),
{
    let t = if now > e.now { now } else { e.now };
    let p = e.pending[i];
    reveal(Seq::filter);
    e.pending.lemma_filter_contains(expired_at(t), i);
    let done = e.pending.filter(expired_at(t));
    let j = choose|j: int| 0 <= j < done.len() && done[j] == p;
    assert(done.map_values(|q: PendingView| timeout_action(q))[j] == timeout_action(p));
    let kept = e.pending.filter(alive_at(t));
    assert forall|k: int| 0 <= k < kept.len() implies kept[k].id != p.id by {
        assert(kept.contains(kept[k]));
        e.pending.lemma_filter_contains_rev(alive_at(t), kept[k]);
        let m = choose|m: int| 0 <= m < e.pending.len() && e.pending[m] == kept[k];
        e.pending.lemma_filter_pred(alive_at(t), k);
        if m != i {
            assert(e.pending[m].id != e.pending[i].id);
        }
    }
}

/// An outstanding request stays outstanding, unchanged, through every
/// transition but its own response or failure and a clock reading at or past
/// its deadline.
pub proof fn lemma_request_stays_outstanding(e: EngineView, p: PendingView)
    requires
        e.pending.contains(p),
    ensures
        forall|peer: Seq<u8>, d: Seq<u8>, slot: u64| #[trigger] e.requested(peer, d, slot).pending.contains(p),
        forall|id: u64| id != p.id ==> #[trigger] e.without_request(id).pending.contains(p),
        forall|now: u64| now < p.deadline && e.now < p.deadline ==> #[trigger] e.ticked(now).pending.contains(p),
        forall|x: Seq<u8>| #[trigger] e.discovered(x).pending == e.pending,
        forall|x: Seq<u8>, still: bool| #[trigger] e.expired(x, still).pending == e.pending,
        forall|d: Seq<u8>| #[trigger] e.start_providing(d).pending == e.pending,
        forall|d: Seq<u8>| #[trigger] e.stop_providing(d).pending == e.pending,
        forall|d: Seq<u8>, x: Seq<u8>| #[trigger] e.provider_found(d, x).pending == e.pending,
        forall|c: u64| #[trigger] e.with_inbound(c).pending == e.pending,
        forall|c: u64| #[trigger] e.without_inbound(c).pending == e.pending,
{
    let i = choose|i: int| 0 <= i < e.pending.len() && e.pending[i] == p;
    assert forall|peer: Seq<u8>, d: Seq<u8>, slot: u64| #[trigger] e.requested(peer, d, slot).pending.contains(p) by {
        assert(e.requested(peer, d, slot).pending[i] == p);
    }
    assert forall|id: u64| id != p.id implies #[trigger] e.without_request(id).pending.contains(p) by {
        e.pending.lemma_filter_contains_rev(not_id(id), p);
        reveal(Seq::filter);
        e.pending.lemma_filter_contains(not_id(id), i);
    }
    assert forall|now: u64| now < p.deadline && e.now < p.deadline implies #[trigger] e.ticked(now).pending.contains(p) by {
        let t = if now > e.now { now } else { e.now };
        reveal(Seq::filter);
        e.pending.lemma_filter_contains(alive_at(t), i);
    }
}

/// Commands from different client handles may reach the engine in either
/// order: two digests advertised one after the other leave the same set of
/// advertised digests whichever came first, with no duplicates.
pub proof fn lemma_providing_order_independent(e: EngineView, a: Seq<u8>, b: Seq<u8>)
    requires
        e.providing.no_duplicates(),
    ensures
        e.start_providing(a).start_providing(b).providing.to_set() == e.start_providing(b).start_providing(
            a,
        ).providing.to_set(),
        e.start_providing(a).start_providing(b).providing.no_duplicates(),
        e.start_providing(b).start_providing(a).providing.no_duplicates(),
        e.start_providing(a).start_providing(b).providing.to_set() == e.providing.to_set().insert(a).insert(b),
{
    let ab = e.start_providing(a).start_providing(b).providing;
    let ba = e.start_providing(b).start_providing(a).providing;
    lemma_with_key_no_duplicates(e.providing, a);
    lemma_with_key_no_duplicates(with_key(e.providing, a), b);
    lemma_with_key_no_duplicates(e.providing, b);
    lemma_with_key_no_duplicates(with_key(e.providing, b), a);
    assert(ab.to_set() =~= e.providing.to_set().insert(a).insert(b));
    assert(ba.to_set() =~= e.providing.to_set().insert(a).insert(b));
}

/// A provider record: a peer known to hold a digest.
pub struct ProviderRecord {
    pub digest: Vec<u8>,
    pub peer: Vec<u8>,
}

pub open spec fn record_views(s: Seq<ProviderRecord>) -> Seq<(Seq<u8>, Seq<u8>)> {
    s.map_values(|r: ProviderRecord| (r.digest@, r.peer@))
}

pub open spec fn for_digest(d: Seq<u8>) -> spec_fn((Seq<u8>, Seq<u8>)) -> bool {
    |r: (Seq<u8>, Seq<u8>)| r.0 == d
}

/// The abstract state of the overlay engine.
pub struct EngineView {
    /// This node's identity.
    pub local: Seq<u8>,
    /// Peers in the broadcast partial view.
    pub peers: Seq<Seq<u8>>,
    /// Digests this node advertises.
    pub providing: Seq<Seq<u8>>,
    /// Known (digest, peer) provider records.
    pub records: Seq<(Seq<u8>, Seq<u8>)>,
    /// Outstanding requests, oldest first.
    pub pending: Seq<PendingView>,
    /// Open response capabilities of inbound requests.
    pub inbound: Seq<u64>,
    pub next_request: u64,
    pub now: u64,
    pub timeout: u64,
}

impl EngineView {
    /// The peers recorded as providers of `d`, in the order they were learnt.
    pub open spec fn providers_of(self, d: Seq<u8>) -> Seq<Seq<u8>> {
        self.records.filter(for_digest(d)).map_values(|r: (Seq<u8>, Seq<u8>)| r.1)
    }

    pub open spec fn deadline_after(self) -> u64 {
        if self.now as int + self.timeout as int <= u64::MAX as int {
            (self.now + self.timeout) as u64
        } else {
            u64::MAX
        }
    }

    /// A newly discovered peer joins the partial view.
    pub open spec fn discovered(self, peer: Seq<u8>) -> EngineView {
        EngineView { peers: with_key(self.peers, peer), ..self }
    }

    /// An expired discovery entry leaves the partial view, unless the peer
    /// is still announcing itself.
    pub open spec fn expired(self, peer: Seq<u8>, still_announced: bool) -> EngineView {
        if still_announced {
            self
        } else {
            EngineView { peers: self.peers.filter(differs(peer)), ..self }
        }
    }

    pub open spec fn start_providing(self, d: Seq<u8>) -> EngineView {
        EngineView { providing: with_key(self.providing, d), ..self }
    }

    pub open spec fn stop_providing(self, d: Seq<u8>) -> EngineView {
        EngineView { providing: self.providing.filter(differs(d)), ..self }
    }

    pub open spec fn provider_found(self, d: Seq<u8>, peer: Seq<u8>) -> EngineView {
        if self.records.contains((d, peer)) {
            self
        } else {
            EngineView { records: self.records.push((d, peer)), ..self }
        }
    }

    /// A new outstanding request to `peer` for `d`, answered through `slot`.
    pub open spec fn requested(self, peer: Seq<u8>, d: Seq<u8>, slot: u64) -> EngineView {
        EngineView {
            pending: self.pending.push(
                PendingView {
                    id: self.next_request,
                    peer,
                    digest: d,
                    slot,
                    deadline: self.deadline_after(),
                },
            ),
            next_request: (self.next_request + 1) as u64,
            ..self
        }
    }

    pub open spec fn without_request(self, id: u64) -> EngineView {
        EngineView { pending: self.pending.filter(not_id(id)), ..self }
    }

    /// The clock advanced to `now` (it never goes back), and every request
    /// whose deadline has passed is dropped.
    pub open spec fn ticked(self, now: u64) -> EngineView {
        let t = if now > self.now { now } else { self.now };
        EngineView { now: t, pending: self.pending.filter(alive_at(t)), ..self }
    }

    pub open spec fn ticked_actions(self, now: u64) -> Seq<ActionView> {
        let t = if now > self.now { now } else { self.now };
        self.pending.filter(expired_at(t)).map_values(|p: PendingView| timeout_action(p))
    }

    pub open spec fn with_inbound(self, channel: u64) -> EngineView {
        EngineView {
            inbound: if self.inbound.contains(channel) {
                self.inbound
            } else {
                self.inbound.push(channel)
            },
            ..self
        }
    }

    pub open spec fn without_inbound(self, channel: u64) -> EngineView {
        EngineView { inbound: self.inbound.filter(not_channel(channel)), ..self }
    }

    pub open spec fn has_pending(self, id: u64) -> bool {
        exists|i: int| 0 <= i < self.pending.len() && self.pending[i].id == id
    }
}

/// The single owner of the overlay's state: it decides what each command
/// and network event does and returns the actions for its runtime to
/// perform.
pub struct OverlayEngine {
    local_peer: PeerIdentity,
    peers: Vec<Vec<u8>>,
    providing: Vec<Vec<u8>>,
    records: Vec<ProviderRecord>,
    pending: Vec<PendingRequest>,
    inbound: Vec<u64>,
    next_request: u64,
    now: u64,
    timeout: u64,
}

impl View for OverlayEngine {
    type V = EngineView;

    closed spec fn view(&self) -> EngineView {
        EngineView {
            local: self.local_peer@,
            peers: views(self.peers@),
            providing: views(self.providing@),
            records: record_views(self.records@),
            pending: pending_views(self.pending@),
            inbound: self.inbound@,
            next_request: self.next_request,
            now: self.now,
            timeout: self.timeout,
        }
    }
}

impl OverlayEngine {
    /// The engine's invariant: no duplicates in its lists, and every
    /// outstanding request has an identifier below the next one handed out,
    /// all of them distinct.
    pub closed spec fn wf(&self) -> bool {
        &&& self@.peers.no_duplicates()
        &&& self@.providing.no_duplicates()
        &&& self@.records.no_duplicates()
        &&& self@.inbound.no_duplicates()
        &&& pending_ok(self@.pending, self@.next_request)
    }

    /// A fresh engine for `local_peer`, whose requests time out after
    /// `timeout` time units.
    pub fn new(local_peer: PeerIdentity, timeout: u64) -> (r: OverlayEngine)
        ensures
            r.wf(),
            r@ == (EngineView {
                local: local_peer@,
                peers: Seq::empty(),
                providing: Seq::empty(),
                records: Seq::empty(),
                pending: Seq::empty(),
                inbound: Seq::empty(),
                next_request: 0,
                now: 0,
                timeout,
            }),
    {
        let r = OverlayEngine {
            local_peer,
            peers: Vec::new(),
            providing: Vec::new(),
            records: Vec::new(),
            pending: Vec::new(),
            inbound: Vec::new(),
            next_request: 0,
            now: 0,
            timeout,
        };
        assert(r@.peers =~= Seq::empty());
        assert(r@.providing =~= Seq::empty());
        assert(r@.records =~= Seq::empty());
        assert(r@.pending =~= Seq::empty());
        r
    }

    /// Discovery saw `peer`: it joins the broadcast partial view.
    pub fn peer_discovered(&mut self, peer: &PeerIdentity)
        requires
            old(self).wf(),
        ensures
            final(self).wf(),
            final(self)@ == old(self)@.discovered(peer@),
    {
        insert_bytes(&mut self.peers, &peer.bytes);
    }

    /// Discovery's entry for `peer` expired; `still_announced` tells whether
    /// discovery still sees the peer through another announcement, in which
    /// case it stays.
    pub fn peer_expired(&mut self, peer: &PeerIdentity, still_announced: bool)
        requires
            old(self).wf(),
        ensures
            final(self).wf(),
            final(self)@ == old(self)@.expired(peer@, still_announced),
    {
        if !still_announced {
            let v = without_bytes(&self.peers, &peer.bytes);
            self.peers = v;
            proof {
                lemma_filter_no_duplicates(old(self)@.peers, differs(peer@));
            }
        }
    }

    /// Records that `peer` provides `hash`, as learnt from the network.
    pub fn provider_found(&mut self, hash: &ArtifactHash, peer: &PeerIdentity)
        requires
            old(self).wf(),
        ensures
            final(self).wf(),
            final(self)@ == old(self)@.provider_found(hash@, peer@),
    {
        let mut i: usize = 0;
        while i < self.records.len()
            invariant
                0 <= i <= self.records@.len(),
                *self == *old(self),
                self.wf(),
                forall|j: int| 0 <= j < i ==> record_views(self.records@)[j] != (hash@, peer@),
            decreases self.records@.len() - i,
        {
            if bytes_equal(&self.records[i].digest, &hash.digest) && bytes_equal(&self.records[i].peer, &peer.bytes) {
                assert(record_views(self.records@)[i as int] == (hash@, peer@));
                return;
            }
            i = i + 1;
        }
        let ghost before = self.records@;
        self.records.push(ProviderRecord { digest: hash.digest.clone(), peer: peer.bytes.clone() });
        proof {
            assert(record_views(self.records@) =~= record_views(before).push((hash@, peer@)));
            assert(!record_views(before).contains((hash@, peer@)));
        }
    }

    /// Completes `slot` with the peers known to provide `hash`.
    pub fn get_providers(&self, slot: u64, hash: &ArtifactHash) -> (acts: Vec<Action>)
        requires
            self.wf(),
        ensures
            action_views(acts@) == seq![
                ActionView::Complete { slot, outcome: OutcomeView::Peers(self@.providers_of(hash@)) },
            ],
    {
        let mut found: Vec<Vec<u8>> = Vec::new();
        let ghost rv = record_views(self.records@);
        let ghost second = |r: (Seq<u8>, Seq<u8>)| r.1;
        let mut i: usize = 0;
        while i < self.records.len()
            invariant
                0 <= i <= self.records@.len(),
                rv == record_views(self.records@),
                second == (|r: (Seq<u8>, Seq<u8>)| r.1),
                views(found@) == rv.take(i as int).filter(for_digest(hash@)).map_values(second),
            decreases self.records@.len() - i,
        {
            let ghost before = found@;
            proof {
                assert(rv.take(i + 1) =~= rv.take(i as int).push(rv[i as int]));
                rv.take(i as int).lemma_filter_push(rv[i as int], for_digest(hash@));
            }
            if bytes_equal(&self.records[i].digest, &hash.digest) {
                found.push(self.records[i].peer.clone());
                assert(views(found@) =~= views(before).push(rv[i as int].1));
                assert(rv.take(i as int).filter(for_digest(hash@)).push(rv[i as int]).map_values(second)
                    =~= rv.take(i as int).filter(for_digest(hash@)).map_values(second).push(rv[i as int].1));
            }
            i = i + 1;
        }
        assert(rv.take(self.records@.len() as int) =~= rv);
        let acts = vec![Action::Complete { slot, outcome: Outcome::Peers(found) }];
        assert(action_views(acts@) =~= seq![
            ActionView::Complete { slot, outcome: OutcomeView::Peers(self@.providers_of(hash@)) },
        ]);
        acts
    }

    /// Completes `slot` with the peers of the broadcast partial view.
    pub fn list_peers(&self, slot: u64) -> (acts: Vec<Action>)
        requires
            self.wf(),
        ensures
            action_views(acts@) == seq![ActionView::Complete { slot, outcome: OutcomeView::Peers(self@.peers) }],
    {
        let mut out: Vec<Vec<u8>> = Vec::new();
        let mut i: usize = 0;
        while i < self.peers.len()
            invariant
                0 <= i <= self.peers@.len(),
                views(out@) == views(self.peers@).take(i as int),
            decreases self.peers@.len() - i,
        {
            let ghost before = out@;
            out.push(self.peers[i].clone());
            assert(views(out@) =~= views(before).push(self.peers@[i as int]@));
            assert(views(out@) =~= views(self.peers@).take(i + 1));
            i = i + 1;
        }
        assert(views(self.peers@).take(self.peers@.len() as int) =~= views(self.peers@));
        let acts = vec![Action::Complete { slot, outcome: Outcome::Peers(out) }];
        assert(action_views(acts@) =~= seq![
            ActionView::Complete { slot, outcome: OutcomeView::Peers(self@.peers) },
        ]);
        acts
    }

    /// Opens a request to `peer` for `hash`, answered through `slot`: it is
    /// recorded as outstanding until its response or its deadline.
    pub fn request_artifact(&mut self, slot: u64, peer: &PeerIdentity, hash: &ArtifactHash) -> (acts: Vec<Action>)
        requires
            old(self).wf(),
            old(self)@.next_request < u64::MAX,
        ensures
            final(self).wf(),
            final(self)@ == old(self)@.requested(peer@, hash@, slot),
            action_views(acts@) == seq![
                ActionView::SendRequest { request: old(self)@.next_request, peer: peer@, digest: hash@ },
            ],
    {
        let id = self.next_request;
        let deadline = if self.timeout <= u64::MAX - self.now {
            self.now + self.timeout
        } else {
            u64::MAX
        };
        let ghost before = self.pending@;
        self.pending.push(
            PendingRequest { id, peer: peer.bytes.clone(), digest: hash.digest.clone(), slot, deadline },
        );
        self.next_request = id + 1;
        proof {
            assert(pending_views(self.pending@) =~= pending_views(before).push(
                PendingView { id, peer: peer@, digest: hash@, slot, deadline },
            ));
            let s = pending_views(self.pending@);
            assert forall|i: int, j: int| 0 <= i < j < s.len() implies s[i].id != s[j].id by {
                if j < s.len() - 1 {
                    assert(s[i] == pending_views(before)[i] && s[j] == pending_views(before)[j]);
                } else {
                    assert(s[i] == pending_views(before)[i]);
                }
            }
            assert forall|i: int| 0 <= i < s.len() implies #[trigger] s[i].id < self.next_request by {
                if i < s.len() - 1 {
                    assert(s[i] == pending_views(before)[i]);
                }
            }
        }
        let acts = vec![Action::SendRequest { request: id, peer: peer.bytes.clone(), digest: hash.digest.clone() }];
        assert(action_views(acts@) =~= seq![
            ActionView::SendRequest { request: id, peer: peer@, digest: hash@ },
        ]);
        acts
    }

    /// Removes the outstanding request `id`, handing it back if there was one.
    fn take_pending(&mut self, id: u64) -> (r: Option<PendingRequest>)
        requires
            old(self).wf(),
        ensures
            final(self).wf(),
            final(self)@ == old(self)@.without_request(id),
            r.is_some() == old(self)@.has_pending(id),
            r.is_some() ==> exists|i: int|
                0 <= i < old(self)@.pending.len() && old(self)@.pending[i] == r.unwrap()@,
            r.is_some() ==> r.unwrap()@.id == id,
    {
        let ghost pv = pending_views(self.pending@);
        let mut kept: Vec<PendingRequest> = Vec::new();
        let mut found: Option<PendingRequest> = None;
        let mut i: usize = 0;
        while i < self.pending.len()
            invariant
                0 <= i <= self.pending@.len(),
                pv == pending_views(self.pending@),
                pending_views(kept@) == pv.take(i as int).filter(not_id(id)),
                found.is_some() == (exists|j: int| 0 <= j < i && pv[j].id == id),
                found.is_some() ==> exists|j: int| 0 <= j < i && pv[j] == found.unwrap()@,
                found.is_some() ==> found.unwrap()@.id == id,
            decreases self.pending@.len() - i,
        {
            let ghost before = kept@;
            proof {
                assert(pv.take(i + 1) =~= pv.take(i as int).push(pv[i as int]));
                pv.take(i as int).lemma_filter_push(pv[i as int], not_id(id));
            }
            if self.pending[i].id == id {
                found = Some(self.pending[i].copied());
            } else {
                kept.push(self.pending[i].copied());
                assert(pending_views(kept@) =~= pending_views(before).push(pv[i as int]));
            }
            i = i + 1;
        }
        assert(pv.take(self.pending@.len() as int) =~= pv);
        proof {
            lemma_filter_pending_ok(pv, not_id(id), self.next_request);
        }
        self.pending = kept;
        found
    }

    /// A response to request `request` arrived: the request is released and
    /// its caller completed with the bytes, or with `PeerTransferFailed` when
    /// the peer answered "not found". A response that matches no outstanding
    /// request is dropped.
    pub fn response_received(&mut self, request: u64, payload: Option<Vec<u8>>) -> (acts: Vec<Action>)
        requires
            old(self).wf(),
        ensures
            final(self).wf(),
            final(self)@ == old(self)@.without_request(request),
            !old(self)@.has_pending(request) ==> acts@.len() == 0,
            old(self)@.has_pending(request) ==> exists|i: int|
                0 <= i < old(self)@.pending.len() && old(self)@.pending[i].id == request
                && action_views(acts@) == seq![
                    ActionView::Complete {
                        slot: old(self)@.pending[i].slot,
                        outcome: match payload {
                            Some(b) => OutcomeView::Artifact(b@),
                            None => OutcomeView::Failed(NodeError::of(NodeErrorType::PeerTransferFailed)),
                        },
                    },
                ],
    {
        match self.take_pending(request) {
            Some(p) => {
                let outcome = match payload {
                    Some(b) => Outcome::Artifact(b),
                    None => Outcome::Failed(NodeError::new(NodeErrorType::PeerTransferFailed)),
                };
                let acts = vec![Action::Complete { slot: p.slot, outcome }];
                assert(action_views(acts@) =~= seq![acts@[0]@]);
                acts
            },
            None => Vec::new(),
        }
    }

    /// The exchange for request `request` broke down: the request is released
    /// and its caller completed with `PeerTransferFailed`.
    pub fn request_failed(&mut self, request: u64) -> (acts: Vec<Action>)
        requires
            old(self).wf(),
        ensures
            final(self).wf(),
            final(self)@ == old(self)@.without_request(request),
            !old(self)@.has_pending(request) ==> acts@.len() == 0,
            old(self)@.has_pending(request) ==> exists|i: int|
                0 <= i < old(self)@.pending.len() && old(self)@.pending[i].id == request
                && action_views(acts@) == seq![
                    ActionView::Complete {
                        slot: old(self)@.pending[i].slot,
                        outcome: OutcomeView::Failed(NodeError::of(NodeErrorType::PeerTransferFailed)),
                    },
                ],
    {
        self.response_received(request, None)
    }

    /// The clock reads `now`: every outstanding request whose deadline has
    /// passed is released and its caller completed with `PeerTimeout`, in the
    /// order the requests were made.
    pub fn tick(&mut self, now: u64) -> (acts: Vec<Action>)
        requires
            old(self).wf(),
        ensures
            final(self).wf(),
            final(self)@ == old(self)@.ticked(now),
            action_views(acts@) == old(self)@.ticked_actions(now),
    {
        if now > self.now {
            self.now = now;
        }
        let t = self.now;
        let ghost pv = pending_views(self.pending@);
        let ghost to_action = |p: PendingView| timeout_action(p);
        let mut kept: Vec<PendingRequest> = Vec::new();
        let mut acts: Vec<Action> = Vec::new();
        let mut i: usize = 0;
        while i < self.pending.len()
            invariant
                0 <= i <= self.pending@.len(),
                pv == pending_views(self.pending@),
                to_action == (|p: PendingView| timeout_action(p)),
                pending_views(kept@) == pv.take(i as int).filter(alive_at(t)),
                action_views(acts@) == pv.take(i as int).filter(expired_at(t)).map_values(to_action),
            decreases self.pending@.len() - i,
        {
            let ghost before = kept@;
            let ghost acts_before = acts@;
            proof {
                assert(pv.take(i + 1) =~= pv.take(i as int).push(pv[i as int]));
                pv.take(i as int).lemma_filter_push(pv[i as int], alive_at(t));
                pv.take(i as int).lemma_filter_push(pv[i as int], expired_at(t));
            }
            if self.pending[i].deadline > t {
                kept.push(self.pending[i].copied());
                assert(pending_views(kept@) =~= pending_views(before).push(pv[i as int]));
            } else {
                acts.push(Action::Complete {
                    slot: self.pending[i].slot,
                    outcome: Outcome::Failed(NodeError::new(NodeErrorType::PeerTimeout)),
                });
                assert(action_views(acts@) =~= action_views(acts_before).push(timeout_action(pv[i as int])));
                assert(pv.take(i as int).filter(expired_at(t)).push(pv[i as int]).map_values(to_action)
                    =~= pv.take(i as int).filter(expired_at(t)).map_values(to_action).push(timeout_action(pv[i as int])));
            }
            i = i + 1;
        }
        assert(pv.take(self.pending@.len() as int) =~= pv);
        proof {
            lemma_filter_pending_ok(pv, alive_at(t), self.next_request);
        }
        self.pending = kept;
        acts
    }

    /// A remote peer asks for `hash`; `channel` is the capability to answer
    /// it through. The request is handed to the application.
    pub fn inbound_request(&mut self, channel: u64, hash: &ArtifactHash) -> (acts: Vec<Action>)
        requires
            old(self).wf(),
        ensures
            final(self).wf(),
            final(self)@ == old(self)@.with_inbound(channel),
            action_views(acts@) == seq![ActionView::Surface { channel, digest: hash@ }],
    {
        let mut i: usize = 0;
        let mut open = false;
        while i < self.inbound.len()
            invariant
                0 <= i <= self.inbound@.len(),
                open == self.inbound@.take(i as int).contains(channel),
            decreases self.inbound@.len() - i,
        {
            assert(self.inbound@.take(i + 1) =~= self.inbound@.take(i as int).push(self.inbound@[i as int]));
            if self.inbound[i] == channel {
                open = true;
            }
            i = i + 1;
        }
        assert(self.inbound@.take(self.inbound@.len() as int) =~= self.inbound@);
        if !open {
            self.inbound.push(channel);
        }
        let acts = vec![Action::Surface { channel, digest: hash.digest.clone() }];
        assert(action_views(acts@) =~= seq![ActionView::Surface { channel, digest: hash@ }]);
        acts
    }

    /// The application answers the inbound request of `channel` with
    /// `payload` and completes `slot`. A capability that is not open (already
    /// used, or unknown) is a caller error: `ResponseChannelClosed`.
    pub fn respond_artifact(&mut self, slot: u64, channel: u64, payload: Option<Vec<u8>>) -> (acts: Vec<Action>)
        requires
            old(self).wf(),
        ensures
            final(self).wf(),
            final(self)@ == old(self)@.without_inbound(channel),
            old(self)@.inbound.contains(channel) ==> action_views(acts@) == seq![
                ActionView::SendResponse {
                    channel,
                    payload: match payload {
                        Some(b) => Some(b@),
                        None => None,
                    },
                },
                ActionView::Complete { slot, outcome: OutcomeView::Done },
            ],
            !old(self)@.inbound.contains(channel) ==> action_views(acts@) == seq![
                ActionView::Complete {
                    slot,
                    outcome: OutcomeView::Failed(NodeError::of(NodeErrorType::ResponseChannelClosed)),
                },
            ],
    {
        let ghost s = self.inbound@;
        let ghost keep = not_channel(channel);
        let mut kept: Vec<u64> = Vec::new();
        let mut open = false;
        let mut i: usize = 0;
        while i < self.inbound.len()
            invariant
                0 <= i <= self.inbound@.len(),
                s == self.inbound@,
                keep == not_channel(channel),
                open == s.take(i as int).contains(channel),
                kept@ == s.take(i as int).filter(keep),
            decreases self.inbound@.len() - i,
        {
            proof {
                assert(s.take(i + 1) =~= s.take(i as int).push(s[i as int]));
                s.take(i as int).lemma_filter_push(s[i as int], keep);
            }
            if self.inbound[i] == channel {
                open = true;
            } else {
                kept.push(self.inbound[i]);
            }
            i = i + 1;
        }
        assert(s.take(s.len() as int) =~= s);
        proof {
            lemma_filter_no_duplicates(s, keep);
        }
        self.inbound = kept;
        if open {
            let acts = vec![
                Action::SendResponse { channel, payload },
                Action::Complete { slot, outcome: Outcome::Done },
            ];
            assert(action_views(acts@) =~= seq![acts@[0]@, acts@[1]@]);
            acts
        } else {
            let acts = vec![
                Action::Complete {
                    slot,
                    outcome: Outcome::Failed(NodeError::new(NodeErrorType::ResponseChannelClosed)),
                },
            ];
            assert(action_views(acts@) =~= seq![acts@[0]@]);
            acts
        }
    }

    /// Starts advertising `hash` and completes `slot`.
    pub fn start_providing(&mut self, slot: u64, hash: &ArtifactHash) -> (acts: Vec<Action>)
        requires
            old(self).wf(),
        ensures
            final(self).wf(),
            final(self)@ == old(self)@.start_providing(hash@),
            action_views(acts@) == seq![
                ActionView::Advertise { digest: hash@ },
                ActionView::Complete { slot, outcome: OutcomeView::Done },
            ],
    {
        insert_bytes(&mut self.providing, &hash.digest);
        let acts = vec![
            Action::Advertise { digest: hash.digest.clone() },
            Action::Complete { slot, outcome: Outcome::Done },
        ];
        assert(action_views(acts@) =~= seq![
            ActionView::Advertise { digest: hash@ },
            ActionView::Complete { slot, outcome: OutcomeView::Done },
        ]);
        acts
    }

    /// Stops advertising `hash` and completes `slot`.
    pub fn stop_providing(&mut self, slot: u64, hash: &ArtifactHash) -> (acts: Vec<Action>)
        requires
            old(self).wf(),
        ensures
            final(self).wf(),
            final(self)@ == old(self)@.stop_providing(hash@),
            action_views(acts@) == seq![
                ActionView::StopAdvertising { digest: hash@ },
                ActionView::Complete { slot, outcome: OutcomeView::Done },
            ],
    {
        let v = without_bytes(&self.providing, &hash.digest);
        self.providing = v;
        proof {
            lemma_filter_no_duplicates(old(self)@.providing, differs(hash@));
        }
        let acts = vec![
            Action::StopAdvertising { digest: hash.digest.clone() },
            Action::Complete { slot, outcome: Outcome::Done },
        ];
        assert(action_views(acts@) =~= seq![
            ActionView::StopAdvertising { digest: hash@ },
            ActionView::Complete { slot, outcome: OutcomeView::Done },
        ]);
        acts
    }

    /// Whether a new request identifier can still be handed out.
    pub fn can_request(&self) -> (r: bool)
        ensures
            r == (self@.next_request < u64::MAX),
    {
        self.next_request < u64::MAX
    }

    /// Carries out `cmd` for the caller whose reply slot is `slot`.
    pub fn handle_command(&mut self, slot: u64, cmd: Command) -> (acts: Vec<Action>)
        requires
            old(self).wf(),
            cmd is RequestArtifact ==> old(self)@.next_request < u64::MAX,
        ensures
            final(self).wf(),
            match cmd {
                Command::Listen { address } => final(self)@ == old(self)@ && action_views(acts@) == seq![
                    ActionView::ListenOn { slot, address: address@ },
                ],
                Command::Dial { peer, address } => final(self)@ == old(self)@ && action_views(acts@) == seq![
                    ActionView::DialPeer { slot, peer: peer@, address: address@ },
                ],
                Command::StartProviding { hash } => final(self)@ == old(self)@.start_providing(hash@)
                    && action_views(acts@) == seq![
                    ActionView::Advertise { digest: hash@ },
                    ActionView::Complete { slot, outcome: OutcomeView::Done },
                ],
                Command::StopProviding { hash } => final(self)@ == old(self)@.stop_providing(hash@)
                    && action_views(acts@) == seq![
                    ActionView::StopAdvertising { digest: hash@ },
                    ActionView::Complete { slot, outcome: OutcomeView::Done },
                ],
                Command::GetProviders { hash } => final(self)@ == old(self)@ && action_views(acts@) == seq![
                    ActionView::Complete { slot, outcome: OutcomeView::Peers(old(self)@.providers_of(hash@)) },
                ],
                Command::RequestArtifact { peer, hash } => final(self)@ == old(self)@.requested(peer@, hash@, slot)
                    && action_views(acts@) == seq![
                    ActionView::SendRequest { request: old(self)@.next_request, peer: peer@, digest: hash@ },
                ],
                Command::RespondArtifact { channel, payload } => final(self)@ == old(self)@.without_inbound(channel)
                    && action_views(acts@) == if old(self)@.inbound.contains(channel) {
                    seq![
                        ActionView::SendResponse { channel, payload: payload_view(payload) },
                        ActionView::Complete { slot, outcome: OutcomeView::Done },
                    ]
                } else {
                    seq![
                        ActionView::Complete {
                            slot,
                            outcome: OutcomeView::Failed(NodeError::of(NodeErrorType::ResponseChannelClosed)),
                        },
                    ]
                },
                Command::ListPeers => final(self)@ == old(self)@ && action_views(acts@) == seq![
                    ActionView::Complete { slot, outcome: OutcomeView::Peers(old(self)@.peers) },
                ],
            },
    {
        match cmd {
            Command::Listen { address } => {
                let acts = vec![Action::ListenOn { slot, address }];
                assert(action_views(acts@) =~= seq![acts@[0]@]);
                acts
            },
            Command::Dial { peer, address } => {
                let acts = vec![Action::DialPeer { slot, peer: peer.bytes, address }];
                assert(action_views(acts@) =~= seq![acts@[0]@]);
                acts
            },
            Command::StartProviding { hash } => self.start_providing(slot, &hash),
            Command::StopProviding { hash } => self.stop_providing(slot, &hash),
            Command::GetProviders { hash } => self.get_providers(slot, &hash),
            Command::RequestArtifact { peer, hash } => self.request_artifact(slot, &peer, &hash),
            Command::RespondArtifact { channel, payload } => self.respond_artifact(slot, channel, payload),
            Command::ListPeers => self.list_peers(slot),
        }
    }

    /// Takes in what happened on the network.
    pub fn handle_event(&mut self, event: NetworkEvent) -> (acts: Vec<Action>)
        requires
            old(self).wf(),
        ensures
            final(self).wf(),
            match event {
                NetworkEvent::Tick { now } => final(self)@ == old(self)@.ticked(now)
                    && action_views(acts@) == old(self)@.ticked_actions(now),
                NetworkEvent::PeerDiscovered { peer } => final(self)@ == old(self)@.discovered(peer@)
                    && acts@.len() == 0,
                NetworkEvent::PeerExpired { peer, still_announced } => final(self)@ == old(self)@.expired(
                    peer@,
                    still_announced,
                ) && acts@.len() == 0,
                NetworkEvent::ProviderFound { hash, peer } => final(self)@ == old(self)@.provider_found(
                    hash@,
                    peer@,
                ) && acts@.len() == 0,
                NetworkEvent::InboundRequest { channel, hash } => final(self)@ == old(self)@.with_inbound(channel)
                    && action_views(acts@) == seq![ActionView::Surface { channel, digest: hash@ }],
                NetworkEvent::ResponseReceived { request, payload } => final(self)@ == old(self)@.without_request(
                    request,
                ) && (!old(self)@.has_pending(request) ==> acts@.len() == 0) && (old(self)@.has_pending(request)
                    ==> exists|i: int|
                    0 <= i < old(self)@.pending.len() && old(self)@.pending[i].id == request
                        && action_views(acts@) == seq![
                        ActionView::Complete {
                            slot: old(self)@.pending[i].slot,
                            outcome: match payload {
                                Some(b) => OutcomeView::Artifact(b@),
                                None => OutcomeView::Failed(NodeError::of(NodeErrorType::PeerTransferFailed)),
                            },
                        },
                    ]),
                NetworkEvent::RequestFailed { request } => final(self)@ == old(self)@.without_request(request) && (
                !old(self)@.has_pending(request) ==> acts@.len() == 0) && (old(self)@.has_pending(request)
                    ==> exists|i: int|
                    0 <= i < old(self)@.pending.len() && old(self)@.pending[i].id == request
                        && action_views(acts@) == seq![
                        ActionView::Complete {
                            slot: old(self)@.pending[i].slot,
                            outcome: OutcomeView::Failed(NodeError::of(NodeErrorType::PeerTransferFailed)),
                        },
                    ]),
            },
    {
        match event {
            NetworkEvent::Tick { now } => self.tick(now),
            NetworkEvent::PeerDiscovered { peer } => {
                self.peer_discovered(&peer);
                Vec::new()
            },
            NetworkEvent::PeerExpired { peer, still_announced } => {
                self.peer_expired(&peer, still_announced);
                Vec::new()
            },
            NetworkEvent::ProviderFound { hash, peer } => {
                self.provider_found(&hash, &peer);
                Vec::new()
            },
            NetworkEvent::InboundRequest { channel, hash } => self.inbound_request(channel, &hash),
            NetworkEvent::ResponseReceived { request, payload } => self.response_received(request, payload),
            NetworkEvent::RequestFailed { request } => self.request_failed(request),
        }
    }
}

} // verus!
