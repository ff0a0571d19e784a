use pyrsia::cascade::{CascadeEvent, CascadePhase, CascadeStep, Resolution};
use pyrsia::error::{NodeError, NodeErrorType};
use pyrsia::hash::ArtifactHash;
use pyrsia::overlay::{Action, Command, OverlayEngine, PeerIdentity};
use pyrsia::store::ArtifactStore;

fn blob_id_of(content: &[u8]) -> (String, ArtifactHash) {
    let h = ArtifactHash::of_content(&content.to_vec());
    let hex: String = h.digest.iter().map(|b| format!("{:02x}", b)).collect();
    (format!("sha256:{}", hex), h)
}

#[test]
fn cascade_falls_back_to_origin_and_provides() {
    let bytes = b"alpine layer".to_vec();
    let (id, h) = blob_id_of(&bytes);
    let mut store = ArtifactStore::new(1 << 20);
    let (mut res, step) = Resolution::start(&store, "alpine", &id);
    match step {
        CascadeStep::ListProviders { digest } => assert_eq!(digest, h.digest),
        other => panic!("unexpected step {:?}", other),
    }
    match res.advance(&mut store, CascadeEvent::Providers(vec![])) {
        CascadeStep::FetchToken { name } => assert_eq!(name, "alpine"),
        other => panic!("unexpected step {:?}", other),
    }
    match res.advance(&mut store, CascadeEvent::Token(Ok("tok".to_string()))) {
        CascadeStep::FetchFromOrigin { name, blob_id, token } => {
            assert_eq!(name, "alpine");
            assert_eq!(blob_id, id);
            assert_eq!(token, "tok");
        }
        other => panic!("unexpected step {:?}", other),
    }
    match res.advance(&mut store, CascadeEvent::OriginReply(Ok(bytes.clone()))) {
        CascadeStep::Provide { digest } => assert_eq!(digest, h.digest),
        other => panic!("unexpected step {:?}", other),
    }
    assert_eq!(store.get(&h), Ok(bytes.clone()));

    let mut engine = OverlayEngine::new(PeerIdentity { bytes: vec![1] }, 30);
    let acts = engine.handle_command(5, Command::StartProviding { hash: h.clone() });
    match &acts[0] {
        Action::Advertise { digest } => assert_eq!(digest, &h.digest),
        other => panic!("unexpected action {:?}", other),
    }

    match res.advance(&mut store, CascadeEvent::Provided) {
        CascadeStep::Finished(r) => assert_eq!(r, Ok(bytes)),
        other => panic!("unexpected step {:?}", other),
    }
    assert_eq!(res.phase(), CascadePhase::Done);
}

#[test]
fn cascade_local_hit_needs_no_network() {
    let bytes = b"cached".to_vec();
    let (id, h) = blob_id_of(&bytes);
    let mut store = ArtifactStore::new(1000);
    assert_eq!(store.put(&h, bytes.clone()), Ok(true));
    let (res, step) = Resolution::start(&store, "alpine", &id);
    match step {
        CascadeStep::Finished(r) => assert_eq!(r, Ok(bytes)),
        other => panic!("unexpected step {:?}", other),
    }
    assert_eq!(res.phase(), CascadePhase::Done);
}

#[test]
fn cascade_rejects_corrupt_peer_bytes() {
    let bytes = b"genuine".to_vec();
    let (id, h) = blob_id_of(&bytes);
    let mut store = ArtifactStore::new(1000);
    let (mut res, _) = Resolution::start(&store, "alpine", &id);
    let peer = vec![9u8, 9];
    match res.advance(&mut store, CascadeEvent::Providers(vec![peer.clone(), vec![3]])) {
        CascadeStep::RequestFromPeer { peer: p, digest } => {
            assert_eq!(p, peer);
            assert_eq!(digest, h.digest);
        }
        other => panic!("unexpected step {:?}", other),
    }
    match res.advance(&mut store, CascadeEvent::PeerReply(Ok(b"forged".to_vec()))) {
        CascadeStep::FetchToken { name } => assert_eq!(name, "alpine"),
        other => panic!("unexpected step {:?}", other),
    }
    assert!(!store.contains(&h));
    assert_eq!(res.phase(), CascadePhase::AwaitToken);
}

#[test]
fn cascade_peer_success_is_stored() {
    let bytes = b"from a peer".to_vec();
    let (id, h) = blob_id_of(&bytes);
    let mut store = ArtifactStore::new(1000);
    let (mut res, _) = Resolution::start(&store, "busybox", &id);
    res.advance(&mut store, CascadeEvent::Providers(vec![vec![4]]));
    match res.advance(&mut store, CascadeEvent::PeerReply(Ok(bytes.clone()))) {
        CascadeStep::Provide { digest } => assert_eq!(digest, h.digest),
        other => panic!("unexpected step {:?}", other),
    }
    assert_eq!(store.get(&h), Ok(bytes));
}

#[test]
fn cascade_peer_timeout_goes_to_origin() {
    let (id, _) = blob_id_of(b"x");
    let mut store = ArtifactStore::new(1000);
    let (mut res, _) = Resolution::start(&store, "alpine", &id);
    res.advance(&mut store, CascadeEvent::Providers(vec![vec![4]]));
    let err = NodeError::new(NodeErrorType::PeerTimeout);
    match res.advance(&mut store, CascadeEvent::PeerReply(Err(err))) {
        CascadeStep::FetchToken { .. } => {}
        other => panic!("unexpected step {:?}", other),
    }
}

#[test]
fn cascade_origin_failure_is_final() {
    let (id, _) = blob_id_of(b"missing");
    let mut store = ArtifactStore::new(1000);
    let (mut res, _) = Resolution::start(&store, "alpine", &id);
    res.advance(&mut store, CascadeEvent::Providers(vec![]));
    res.advance(&mut store, CascadeEvent::Token(Ok("t".to_string())));
    let err = NodeError::new(NodeErrorType::OriginNotFound);
    match res.advance(&mut store, CascadeEvent::OriginReply(Err(err))) {
        CascadeStep::Finished(r) => assert_eq!(r, Err(err)),
        other => panic!("unexpected step {:?}", other),
    }
    let unauthorized = NodeError::new(NodeErrorType::OriginUnauthorized);
    let (mut res2, _) = Resolution::start(&store, "alpine", &id);
    res2.advance(&mut store, CascadeEvent::Providers(vec![]));
    match res2.advance(&mut store, CascadeEvent::Token(Err(unauthorized))) {
        CascadeStep::Finished(r) => assert_eq!(r, Err(unauthorized)),
        other => panic!("unexpected step {:?}", other),
    }
}

#[test]
fn cascade_origin_bytes_over_quota() {
    let bytes = vec![5u8; 50];
    let (id, _) = blob_id_of(&bytes);
    let mut store = ArtifactStore::new(10);
    let (mut res, _) = Resolution::start(&store, "alpine", &id);
    res.advance(&mut store, CascadeEvent::Providers(vec![]));
    res.advance(&mut store, CascadeEvent::Token(Ok("t".to_string())));
    match res.advance(&mut store, CascadeEvent::OriginReply(Ok(bytes))) {
        CascadeStep::Finished(r) => assert_eq!(r.unwrap_err().error_type, NodeErrorType::QuotaExceeded),
        other => panic!("unexpected step {:?}", other),
    }
}

#[test]
fn cascade_invalid_identifier_and_stray_event() {
    let mut store = ArtifactStore::new(10);
    let (mut res, step) = Resolution::start(&store, "alpine", "sha256:xyz");
    match step {
        CascadeStep::Finished(r) => assert_eq!(r.unwrap_err().error_type, NodeErrorType::InvalidIdentifier),
        other => panic!("unexpected step {:?}", other),
    }
    match res.advance(&mut store, CascadeEvent::Provided) {
        CascadeStep::Ignored => {}
        other => panic!("unexpected step {:?}", other),
    }
}
