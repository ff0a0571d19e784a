use pyrsia::client::{expect_artifact, expect_done, expect_peers, status};
use pyrsia::error::{NodeError, NodeErrorType};
use pyrsia::hash::ArtifactHash;
use pyrsia::overlay::{Action, Command, NetworkEvent, Outcome, OverlayEngine, PeerIdentity};
use pyrsia::store::ArtifactStore;

fn hash(b: u8) -> ArtifactHash {
    ArtifactHash::of_content(&vec![b])
}

fn peer(b: u8) -> PeerIdentity {
    PeerIdentity { bytes: vec![b, b] }
}

fn completion(acts: &[Action]) -> (u64, &Outcome) {
    for a in acts {
        if let Action::Complete { slot, outcome } = a {
            return (*slot, outcome);
        }
    }
    panic!("no completion in {:?}", acts)
}

#[test]
fn unanswered_request_times_out() {
    let mut engine = OverlayEngine::new(peer(1), 10);
    engine.handle_event(NetworkEvent::Tick { now: 100 });
    let acts = engine.handle_command(7, Command::RequestArtifact { peer: peer(2), hash: hash(1) });
    let request = match &acts[0] {
        Action::SendRequest { request, peer: p, digest } => {
            assert_eq!(p, &peer(2).bytes);
            assert_eq!(digest, &hash(1).digest);
            *request
        }
        other => panic!("unexpected action {:?}", other),
    };
    assert!(engine.handle_event(NetworkEvent::Tick { now: 109 }).is_empty());
    let acts = engine.handle_event(NetworkEvent::Tick { now: 110 });
    assert_eq!(acts.len(), 1);
    let (slot, outcome) = completion(&acts);
    assert_eq!(slot, 7);
    match outcome {
        Outcome::Failed(e) => assert_eq!(e.error_type, NodeErrorType::PeerTimeout),
        other => panic!("unexpected outcome {:?}", other),
    }
    let late = engine.handle_event(NetworkEvent::ResponseReceived { request, payload: Some(vec![1]) });
    assert!(late.is_empty());
}

#[test]
fn matching_response_completes_request() {
    let mut engine = OverlayEngine::new(peer(1), 10);
    let a = engine.handle_command(1, Command::RequestArtifact { peer: peer(2), hash: hash(1) });
    let b = engine.handle_command(2, Command::RequestArtifact { peer: peer(3), hash: hash(2) });
    let id_b = match &b[0] {
        Action::SendRequest { request, .. } => *request,
        other => panic!("unexpected action {:?}", other),
    };
    let id_a = match &a[0] {
        Action::SendRequest { request, .. } => *request,
        other => panic!("unexpected action {:?}", other),
    };
    assert_ne!(id_a, id_b);
    let acts = engine.handle_event(NetworkEvent::ResponseReceived { request: id_b, payload: Some(vec![4, 2]) });
    let (slot, outcome) = completion(&acts);
    assert_eq!(slot, 2);
    match outcome {
        Outcome::Artifact(bytes) => assert_eq!(bytes, &vec![4, 2]),
        other => panic!("unexpected outcome {:?}", other),
    }
    let acts = engine.handle_event(NetworkEvent::RequestFailed { request: id_a });
    let (slot, outcome) = completion(&acts);
    assert_eq!(slot, 1);
    match outcome {
        Outcome::Failed(e) => assert_eq!(e.error_type, NodeErrorType::PeerTransferFailed),
        other => panic!("unexpected outcome {:?}", other),
    }
    assert!(engine.handle_event(NetworkEvent::Tick { now: 1000 }).is_empty());
}

#[test]
fn interleaved_providing_commands() {
    let mut engine = OverlayEngine::new(peer(1), 10);
    engine.handle_command(1, Command::StartProviding { hash: hash(1) });
    engine.handle_command(2, Command::StartProviding { hash: hash(2) });
    engine.handle_command(3, Command::StartProviding { hash: hash(1) });
    engine.handle_command(4, Command::StopProviding { hash: hash(2) });
    let acts = engine.handle_command(5, Command::StartProviding { hash: hash(3) });
    assert_eq!(expect_done(Outcome::Done), Ok(()));
    let (slot, _) = completion(&acts);
    assert_eq!(slot, 5);
}

#[test]
fn discovery_and_providers() {
    let mut engine = OverlayEngine::new(peer(1), 10);
    engine.handle_event(NetworkEvent::PeerDiscovered { peer: peer(2) });
    engine.handle_event(NetworkEvent::PeerDiscovered { peer: peer(3) });
    engine.handle_event(NetworkEvent::PeerDiscovered { peer: peer(2) });
    engine.handle_event(NetworkEvent::PeerExpired { peer: peer(3), still_announced: true });
    let acts = engine.handle_command(1, Command::ListPeers);
    let (_, outcome) = completion(&acts);
    let peers = expect_peers(outcome.clone()).unwrap();
    assert_eq!(peers.len(), 2);
    engine.handle_event(NetworkEvent::PeerExpired { peer: peer(3), still_announced: false });
    let acts = engine.handle_command(2, Command::ListPeers);
    let peers = expect_peers(completion(&acts).1.clone()).unwrap();
    assert_eq!(peers.len(), 1);
    assert_eq!(peers[0].bytes, peer(2).bytes);

    engine.handle_event(NetworkEvent::ProviderFound { hash: hash(7), peer: peer(4) });
    engine.handle_event(NetworkEvent::ProviderFound { hash: hash(8), peer: peer(5) });
    engine.handle_event(NetworkEvent::ProviderFound { hash: hash(7), peer: peer(6) });
    engine.handle_event(NetworkEvent::ProviderFound { hash: hash(7), peer: peer(4) });
    let acts = engine.handle_command(3, Command::GetProviders { hash: hash(7) });
    let providers = expect_peers(completion(&acts).1.clone()).unwrap();
    let got: Vec<Vec<u8>> = providers.into_iter().map(|p| p.bytes).collect();
    assert_eq!(got, vec![peer(4).bytes, peer(6).bytes]);
    let acts = engine.handle_command(4, Command::GetProviders { hash: hash(9) });
    assert!(expect_peers(completion(&acts).1.clone()).unwrap().is_empty());
}

#[test]
fn inbound_request_answered_once() {
    let mut engine = OverlayEngine::new(peer(1), 10);
    let acts = engine.handle_event(NetworkEvent::InboundRequest { channel: 42, hash: hash(1) });
    match &acts[0] {
        Action::Surface { channel, digest } => {
            assert_eq!(*channel, 42);
            assert_eq!(digest, &hash(1).digest);
        }
        other => panic!("unexpected action {:?}", other),
    }
    let acts = engine.handle_command(8, Command::RespondArtifact { channel: 42, payload: Some(vec![1]) });
    assert_eq!(acts.len(), 2);
    match &acts[0] {
        Action::SendResponse { channel, payload } => {
            assert_eq!(*channel, 42);
            assert_eq!(payload, &Some(vec![1]));
        }
        other => panic!("unexpected action {:?}", other),
    }
    let acts = engine.handle_command(9, Command::RespondArtifact { channel: 42, payload: None });
    let (slot, outcome) = completion(&acts);
    assert_eq!(slot, 9);
    assert_eq!(
        expect_done(outcome.clone()).unwrap_err().error_type,
        NodeErrorType::ResponseChannelClosed
    );
}

#[test]
fn listen_and_dial_are_handed_to_runtime() {
    let mut engine = OverlayEngine::new(peer(1), 10);
    match &engine.handle_command(1, Command::Listen { address: "/ip4/0.0.0.0/tcp/0".to_string() })[0] {
        Action::ListenOn { slot, address } => {
            assert_eq!(*slot, 1);
            assert_eq!(address, "/ip4/0.0.0.0/tcp/0");
        }
        other => panic!("unexpected action {:?}", other),
    }
    match &engine.handle_command(2, Command::Dial { peer: peer(2), address: "a".to_string() })[0] {
        Action::DialPeer { slot, peer: p, .. } => {
            assert_eq!(*slot, 2);
            assert_eq!(p, &peer(2).bytes);
        }
        other => panic!("unexpected action {:?}", other),
    }
}

#[test]
fn reply_decoding() {
    let e = NodeError::new(NodeErrorType::PeerTimeout);
    assert_eq!(expect_artifact(Outcome::Artifact(vec![3])), Ok(vec![3]));
    assert_eq!(expect_artifact(Outcome::Failed(e)), Err(e));
    assert_eq!(
        expect_artifact(Outcome::Done).unwrap_err().error_type,
        NodeErrorType::UnexpectedReply
    );
    assert_eq!(expect_done(Outcome::Peers(vec![])).unwrap_err().error_type, NodeErrorType::UnexpectedReply);
}

#[test]
fn status_counts() {
    let mut store = ArtifactStore::new(100);
    let c = vec![1u8; 30];
    store.put(&ArtifactHash::of_content(&c), c).unwrap();
    let s = status(&store, &vec![peer(1), peer(2)]);
    assert_eq!(s.artifact_count, 1);
    assert_eq!(s.peers_count, 2);
    assert_eq!(s.disk_allocated, 100);
    assert_eq!(s.disk_usage, 30);
}
