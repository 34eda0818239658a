use converter::converter::context::EtsiToSkipContext;
use converter::converter::rpc::SaeId;
use converter::etsi014::models::{GetKeyWithId, GetKeysWithId};

fn s(x: &str) -> String {
    x.to_string()
}

fn request(v: &[&str]) -> GetKeysWithId {
    GetKeysWithId { key_IDs: v.iter().map(|k| GetKeyWithId { key_ID: s(k) }).collect() }
}

#[test]
fn law_announced_keys_are_accepted_example() {
    let mut ctx: EtsiToSkipContext<()> = EtsiToSkipContext::new(vec![], s("kp"));
    let pair = (s("m"), s("sl"));
    ctx.new_keys(&pair, vec![s("k1")]);
    ctx.new_keys(&pair, vec![s("k2"), s("k3")]);
    assert_eq!(ctx.check_keys(&pair, &request(&["k3", "k1", "k2"])), Ok(()));
}

#[test]
fn law_handed_out_key_is_refused_example() {
    let mut ctx: EtsiToSkipContext<()> = EtsiToSkipContext::new(vec![], s("kp"));
    let pair = (s("m"), s("sl"));
    ctx.new_keys(&pair, vec![s("k1"), s("k2")]);
    assert!(ctx.remove_key(&pair, &s("k2")));
    assert!(ctx.check_keys(&pair, &request(&["k1", "k2"])).is_err());
    assert!(!ctx.remove_key(&pair, &s("k2")));
}

#[test]
fn law_announce_raises_count_example() {
    let mut ctx: EtsiToSkipContext<()> = EtsiToSkipContext::new(vec![], s("kp"));
    let pair = (s("m"), s("sl"));
    ctx.new_keys(&pair, vec![s("a")]);
    let before = ctx.stored_key_count(&pair);
    ctx.new_keys(&pair, vec![s("b"), s("c"), s("d")]);
    assert_eq!(ctx.stored_key_count(&pair), before + 3);
}

#[test]
fn law_registered_saes_resolve_example() {
    let mut ctx: EtsiToSkipContext<()> = EtsiToSkipContext::new(vec![], s("kp"));
    ctx.register_peer(s("kp-x"), (), vec![SaeId { id: s("x1") }, SaeId { id: s("x2") }]);
    ctx.register_peer(s("kp-y"), (), vec![SaeId { id: s("y1") }]);
    assert_eq!(ctx.remote_sae_provider(&s("x2")), Some(s("kp-x")));
    assert_eq!(ctx.remote_sae_provider(&s("y1")), Some(s("kp-y")));
    assert_eq!(ctx.remote_sae_provider(&s("z1")), None);
}

#[test]
fn law_every_known_provider_has_a_client_example() {
    let mut ctx: EtsiToSkipContext<u8> = EtsiToSkipContext::new(vec![], s("kp"));
    ctx.register_peer(s("kp-x"), 1, vec![SaeId { id: s("x1") }]);
    let provider = ctx.remote_sae_provider(&s("x1")).unwrap();
    assert!(ctx.has_peer(&provider));
    assert_eq!(ctx.peer_client(&provider), Some(&1));
}
