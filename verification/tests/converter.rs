use converter::converter::context::EtsiToSkipContext;
use converter::converter::rpc::SaeId;
use converter::converter::{handle_etsi_request, peer_provider_id, status_reply, DecKeyAction, Dispatch, EncKeyAction};
use converter::etsi014::models::{EncKeyRequest, GetKeyWithId, GetKeysWithId};
use converter::etsi014::{E014ConverterRequest, E014ConverterRequestInner};
use converter::skip::models::{Capabilities, Key as SkipKey};

fn s(x: &str) -> String {
    x.to_string()
}

fn ctx_with_peer() -> EtsiToSkipContext<()> {
    let mut ctx = EtsiToSkipContext::new(vec![s("a1")], s("kp-a"));
    ctx.register_peer(s("kp-b"), (), vec![SaeId { id: s("b1") }]);
    ctx
}

fn skip_key(id: &str, key: &str) -> Result<SkipKey, u16> {
    Ok(SkipKey { keyId: s(id), key: s(key) })
}

fn caps(local: &str) -> Capabilities {
    Capabilities { entropy: true, key: true, algorithm: s("qkd"), localSystemID: s(local), remoteSystemID: vec![s("kp-b")] }
}

#[test]
fn unknown_remote_sae_is_not_found() {
    let ctx = ctx_with_peer();
    let req = E014ConverterRequest::new(E014ConverterRequestInner::<u8, u8>::Status(1), s("a1"), s("zz"));
    assert!(matches!(
        handle_etsi_request(&ctx, req),
        Dispatch::UnknownPeer { request: E014ConverterRequestInner::Status(1), status: 404 }
    ));
}

#[test]
fn status_request_reports_defaults() {
    let mut ctx = ctx_with_peer();
    ctx.new_keys(&(s("a1"), s("b1")), vec![s("k1"), s("k2")]);
    let req = E014ConverterRequest::new(E014ConverterRequestInner::<u8, u8>::Status(5), s("a1"), s("b1"));
    match handle_etsi_request(&ctx, req) {
        Dispatch::Status { reply, provider, sae_id, remote_sae_id } => {
            assert_eq!(reply, 5);
            assert_eq!(provider, "kp-b");
            let status = status_reply(&ctx, provider, sae_id, remote_sae_id, Ok(caps("kp-a"))).ok().unwrap();
            assert_eq!(status.source_KME_ID, "kp-a");
            assert_eq!(status.target_KME_ID, "kp-b");
            assert_eq!(status.master_SAE_ID, "a1");
            assert_eq!(status.slave_SAE_ID, "b1");
            assert_eq!(status.key_size, 256);
            assert_eq!(status.stored_key_count, 2);
            assert_eq!(status.max_key_count, 8);
            assert_eq!(status.max_key_per_request, 8);
            assert_eq!(status.max_key_size, 1024);
            assert_eq!(status.min_key_size, 256);
            assert_eq!(status.max_SAE_ID_count, 0);
        }
        _ => panic!("expected a status dispatch"),
    }
}

#[test]
fn status_reply_passes_key_provider_errors() {
    let ctx = ctx_with_peer();
    assert_eq!(status_reply(&ctx, s("kp-b"), s("a1"), s("b1"), Err(500)).err(), Some(500));
}

#[test]
fn enc_key_request_draws_each_key_then_announces() {
    let ctx = ctx_with_peer();
    let req = E014ConverterRequest::new(
        E014ConverterRequestInner::<u8, u8>::EncKey(2, EncKeyRequest { number: 2, size: Some(256) }),
        s("a1"),
        s("b1"),
    );
    let (mut job, action) = match handle_etsi_request(&ctx, req) {
        Dispatch::EncKey { job, action } => (job, action),
        _ => panic!("expected an enc-key dispatch"),
    };
    match action {
        EncKeyAction::FetchKey { remote_system_id, size } => {
            assert_eq!(remote_system_id, "kp-b");
            assert_eq!(size, Some(256));
        }
        _ => panic!("expected a fetch"),
    }
    assert!(matches!(job.on_key(skip_key("k1", "AAA")), EncKeyAction::FetchKey { .. }));
    assert!(job.awaiting_key());
    match job.on_key(skip_key("k2", "BBB")) {
        EncKeyAction::Completed { reply, provider, sae_pair, new_keys, container } => {
            assert_eq!(reply, 2);
            assert_eq!(provider, "kp-b");
            assert_eq!(sae_pair, (s("a1"), s("b1")));
            let ids: Vec<String> = new_keys.into_iter().map(|k| k.id).collect();
            assert_eq!(ids, vec![s("k1"), s("k2")]);
            let keys: Vec<(String, String)> = container.keys.into_iter().map(|k| (k.key_ID, k.key)).collect();
            assert_eq!(keys, vec![(s("k1"), s("AAA")), (s("k2"), s("BBB"))]);
        }
        _ => panic!("expected completion"),
    }
    assert!(!job.awaiting_key());
}

#[test]
fn enc_key_request_for_no_keys_completes_at_once() {
    let ctx = ctx_with_peer();
    let req = E014ConverterRequest::new(
        E014ConverterRequestInner::<u8, u8>::EncKey(2, EncKeyRequest { number: 0, size: None }),
        s("a1"),
        s("b1"),
    );
    match handle_etsi_request(&ctx, req) {
        Dispatch::EncKey { action: EncKeyAction::Completed { reply, new_keys, container, .. }, .. } => {
            assert_eq!(reply, 2);
            assert!(new_keys.is_empty());
            assert!(container.keys.is_empty());
        }
        _ => panic!("expected an immediate completion"),
    }
}

#[test]
fn enc_key_request_stops_on_provider_error() {
    let ctx = ctx_with_peer();
    let req = E014ConverterRequest::new(
        E014ConverterRequestInner::<u8, u8>::EncKey(2, EncKeyRequest { number: 3, size: None }),
        s("a1"),
        s("b1"),
    );
    let mut job = match handle_etsi_request(&ctx, req) {
        Dispatch::EncKey { job, .. } => job,
        _ => panic!("expected an enc-key dispatch"),
    };
    assert!(job.awaiting_key());
    assert!(matches!(job.on_key(Err(500)), EncKeyAction::Failed { reply: 2, status: 500 }));
    assert!(!job.awaiting_key());
}

fn dec_request(keys: &[&str]) -> E014ConverterRequest<u8, u8> {
    let body = GetKeysWithId { key_IDs: keys.iter().map(|k| GetKeyWithId { key_ID: s(k) }).collect() };
    E014ConverterRequest::new(E014ConverterRequestInner::DecKey(4, body), s("a1"), s("b1"))
}

#[test]
fn dec_key_request_hands_out_announced_keys_once() {
    let mut ctx = ctx_with_peer();
    ctx.new_keys(&(s("b1"), s("a1")), vec![s("k1"), s("k2")]);
    let (mut job, action) = match handle_etsi_request(&ctx, dec_request(&["k2", "k1"])) {
        Dispatch::DecKey { job, action } => (job, action),
        _ => panic!("expected a dec-key dispatch"),
    };
    match action {
        DecKeyAction::FetchPeerKey { remote_system_id, key_id } => {
            assert_eq!(remote_system_id, "kp-b");
            assert_eq!(key_id, "k2");
        }
        _ => panic!("expected a fetch"),
    }
    match job.on_peer_key(&mut ctx, skip_key("k2", "BBB")) {
        DecKeyAction::FetchPeerKey { key_id, .. } => assert_eq!(key_id, "k1"),
        _ => panic!("expected a second fetch"),
    }
    match job.on_peer_key(&mut ctx, skip_key("k1", "AAA")) {
        DecKeyAction::Completed { reply, container } => {
            assert_eq!(reply, 4);
            let keys: Vec<(String, String)> = container.keys.into_iter().map(|k| (k.key_ID, k.key)).collect();
            assert_eq!(keys, vec![(s("k2"), s("BBB")), (s("k1"), s("AAA"))]);
        }
        _ => panic!("expected completion"),
    }
    assert_eq!(ctx.stored_key_count(&(s("b1"), s("a1"))), 0);
    match handle_etsi_request(&ctx, dec_request(&["k1"])) {
        Dispatch::DecKey { action: DecKeyAction::Unauthorized { reply, status, reason }, .. } => {
            assert_eq!(reply, 4);
            assert_eq!(status, 401);
            assert_eq!(reason, "a1 requested an invalid key id: k1");
        }
        _ => panic!("expected a refusal"),
    }
}

#[test]
fn dec_key_request_without_announced_keys_is_refused() {
    let ctx = ctx_with_peer();
    match handle_etsi_request(&ctx, dec_request(&["k1"])) {
        Dispatch::DecKey { action: DecKeyAction::Unauthorized { reply, status, reason }, .. } => {
            assert_eq!(reply, 4);
            assert_eq!(status, 401);
            assert_eq!(reason, "No keys stored for SAE pair (b1, a1)");
        }
        _ => panic!("expected a refusal"),
    }
}

#[test]
fn dec_key_request_stops_on_provider_error() {
    let mut ctx = ctx_with_peer();
    ctx.new_keys(&(s("b1"), s("a1")), vec![s("k1")]);
    let mut job = match handle_etsi_request(&ctx, dec_request(&["k1"])) {
        Dispatch::DecKey { job, .. } => job,
        _ => panic!("expected a dec-key dispatch"),
    };
    assert!(matches!(job.on_peer_key(&mut ctx, Err(500)), DecKeyAction::Failed { reply: 4, status: 500 }));
    assert!(!job.awaiting_key());
    assert_eq!(ctx.stored_key_count(&(s("b1"), s("a1"))), 1);
}

#[test]
fn peer_provider_is_first_remote_system_or_address() {
    assert_eq!(peer_provider_id(&vec![s("kp-b"), s("kp-c")], s("10.0.0.2:50051")), "kp-b");
    assert_eq!(peer_provider_id(&vec![], s("10.0.0.2:50051")), "10.0.0.2:50051");
}

#[test]
fn law_request_ends_once_example() {
    let ctx = ctx_with_peer();
    let req = E014ConverterRequest::new(
        E014ConverterRequestInner::<u8, u8>::EncKey(9, EncKeyRequest { number: 3, size: None }),
        s("a1"),
        s("b1"),
    );
    let (mut job, mut action) = match handle_etsi_request(&ctx, req) {
        Dispatch::EncKey { job, action } => (job, action),
        _ => panic!("expected an enc-key dispatch"),
    };
    let mut replies = 0;
    let mut steps = 0;
    loop {
        match action {
            EncKeyAction::FetchKey { .. } => {
                steps += 1;
                action = job.on_key(skip_key(&format!("k{steps}"), "K"));
            }
            EncKeyAction::Completed { reply, .. } | EncKeyAction::Failed { reply, .. } => {
                assert_eq!(reply, 9);
                replies += 1;
                break;
            }
        }
    }
    assert_eq!(steps, 3);
    assert_eq!(replies, 1);
    assert!(!job.awaiting_key());
}
