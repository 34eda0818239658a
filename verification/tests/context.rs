use converter::converter::context::EtsiToSkipContext;
use converter::converter::rpc::SaeId;
use converter::etsi014::models::{GetKeyWithId, GetKeysWithId};

fn s(x: &str) -> String {
    x.to_string()
}

fn ids(v: &[&str]) -> GetKeysWithId {
    GetKeysWithId { key_IDs: v.iter().map(|k| GetKeyWithId { key_ID: s(k) }).collect() }
}

#[test]
fn new_context_serves_configured_saes() {
    let ctx: EtsiToSkipContext<u32> = EtsiToSkipContext::new(vec![s("a1"), s("a2"), s("a1")], s("kp-a"));
    assert_eq!(ctx.provider_id(), "kp-a");
    let mut served: Vec<String> = ctx.connected_sae().into_iter().map(|x| x.id).collect();
    served.sort();
    assert_eq!(served, vec![s("a1"), s("a2")]);
    assert!(!ctx.has_peer(&s("kp-b")));
    assert_eq!(ctx.remote_sae_provider(&s("b1")), None);
}

#[test]
fn registered_peer_resolves_its_saes() {
    let mut ctx: EtsiToSkipContext<u32> = EtsiToSkipContext::new(vec![], s("kp-a"));
    ctx.register_peer(s("kp-b"), 7, vec![SaeId { id: s("b1") }, SaeId { id: s("b2") }]);
    assert!(ctx.has_peer(&s("kp-b")));
    assert_eq!(ctx.remote_sae_provider(&s("b1")), Some(s("kp-b")));
    assert_eq!(ctx.remote_sae_provider(&s("b2")), Some(s("kp-b")));
    assert_eq!(ctx.peer_client(&s("kp-b")), Some(&7));
    ctx.register_peer(s("kp-c"), 9, vec![SaeId { id: s("b2") }]);
    assert_eq!(ctx.remote_sae_provider(&s("b2")), Some(s("kp-c")));
    assert_eq!(ctx.remote_sae_provider(&s("b1")), Some(s("kp-b")));
    assert_eq!(ctx.peer_client(&s("kp-c")), Some(&9));
    assert_eq!(ctx.peer_client(&s("kp-d")), None);
}

#[test]
fn announced_keys_are_counted_per_pair() {
    let mut ctx: EtsiToSkipContext<u32> = EtsiToSkipContext::new(vec![], s("kp-a"));
    let pair = (s("m"), s("sl"));
    assert_eq!(ctx.stored_key_count(&pair), 0);
    ctx.new_keys(&pair, vec![s("k1"), s("k2"), s("k1")]);
    assert_eq!(ctx.stored_key_count(&pair), 2);
    ctx.new_keys(&pair, vec![s("k3")]);
    assert_eq!(ctx.stored_key_count(&pair), 3);
    assert_eq!(ctx.stored_key_count(&(s("sl"), s("m"))), 0);
}

#[test]
fn check_keys_messages() {
    let mut ctx: EtsiToSkipContext<u32> = EtsiToSkipContext::new(vec![], s("kp-a"));
    let pair = (s("m"), s("sl"));
    assert_eq!(ctx.check_keys(&pair, &ids(&["k1"])), Err(s("No keys stored for SAE pair (m, sl)")));
    ctx.new_keys(&pair, vec![s("k1"), s("k2")]);
    assert_eq!(ctx.check_keys(&pair, &ids(&["k2", "k1"])), Ok(()));
    assert_eq!(ctx.check_keys(&pair, &ids(&[])), Ok(()));
    assert_eq!(ctx.check_keys(&pair, &ids(&["k1", "zz", "yy"])), Err(s("sl requested an invalid key id: zz")));
}

#[test]
fn removed_key_is_gone() {
    let mut ctx: EtsiToSkipContext<u32> = EtsiToSkipContext::new(vec![], s("kp-a"));
    let pair = (s("m"), s("sl"));
    assert!(!ctx.remove_key(&pair, &s("k1")));
    ctx.new_keys(&pair, vec![s("k1"), s("k2")]);
    assert!(ctx.remove_key(&pair, &s("k1")));
    assert!(!ctx.remove_key(&pair, &s("k1")));
    assert_eq!(ctx.stored_key_count(&pair), 1);
    assert_eq!(ctx.check_keys(&pair, &ids(&["k1"])), Err(s("sl requested an invalid key id: k1")));
}
