use converter::collections::StringSet;
use converter::etsi014::models::{EncKeyRequest, GetKey, GetKeyWithId, GetKeysWithId, KeyRequest};
use converter::etsi014::{authorize_sae, extract_sae_id, select_sae_name, E014ConverterRequest, E014ConverterRequestInner, SaeName, SanName};

fn hex(s: &str) -> Vec<u8> {
    (0..s.len()).step_by(2).map(|i| u8::from_str_radix(&s[i..i + 2], 16).unwrap()).collect()
}

const DNS_THEN_IP: &str = "3082019030820137a00302010202144c296dfffe2f9f942b957f02471d6d8b2d88bf4e300a06082a8648ce3d040302300e310c300a06035504030c03736165301e170d3236313131373131313935355a170d3336313131343131313935355a300e310c300a06035504030c037361653059301306072a8648ce3d020106082a8648ce3d0301070342000484be9af51e43209739933056336ffdd54b514192db1c68e5fb72d004a86ada6bf12f166a18f8242c2dacc981100813e653cbb1c449fca59a447db8f7f3164e65a3733071301d0603551d0e041604145a6c6f134f5bb6922790edddd32348b95f5e5f22301f0603551d230418301680145a6c6f134f5bb6922790edddd32348b95f5e5f22300f0603551d130101ff040530030101ff301e0603551d1104173015820d7361652d312e6578616d706c6587040a000007300a06082a8648ce3d040302034700304402207159af2792bb422b0ea43df3f7de079ee1d657fbf120925b1ef8a9f022426d7e022001a36f512259ac460cd914edaf07a564b95b3612cc4a3827b747b8a4c88151b1";
const IP_THEN_DNS: &str = "3082019230820137a003020102021442f5dcf8247e01a8f37d6f7951e58374c3bf5e47300a06082a8648ce3d040302300e310c300a06035504030c03736165301e170d3236313131373131313935355a170d3336313131343131313935355a300e310c300a06035504030c037361653059301306072a8648ce3d020106082a8648ce3d03010703420004699ecbb537d06281f6592482e6328130ae558a4858723c563e416ba41b045701710f9bfb15df590e8a3a31bbae948eab41151e601e1c5ead382b10eec4f2d6cda3733071301d0603551d0e041604149fe71fe164c98024c6c3a8f9bf39dbd6a5189d7f301f0603551d230418301680149fe71fe164c98024c6c3a8f9bf39dbd6a5189d7f300f0603551d130101ff040530030101ff301e0603551d110417301587040a000007820d7361652d312e6578616d706c65300a06082a8648ce3d0403020349003046022100b1db694787faf1efccda5f816f0441f89bbc1f3aa75a2b27c0b08a90f1543276022100bd80d7df1f01e4f781bbd4f5c763a8131454e9ff39368e0b9b50b62fa22b8f19";
const IPV6: &str = "3082018f30820134a003020102021413e50a28e3e0a3e1484f48c0ba247e2c1cceb17f300a06082a8648ce3d040302300e310c300a06035504030c03736165301e170d3236313131373131313935355a170d3336313131343131313935355a300e310c300a06035504030c037361653059301306072a8648ce3d020106082a8648ce3d03010703420004e21f32869efc9e85598e32ad273f192a1555e89de9e9b193ffa55740e9f85f6437dac5155acdb1cfeb57261c24443e5f6a85b2d99e27242744f8e17ac5a21283a370306e301d0603551d0e04160414bae64f7407b6f6e4a853ef121cae40b4abba23c8301f0603551d23041830168014bae64f7407b6f6e4a853ef121cae40b4abba23c8300f0603551d130101ff040530030101ff301b0603551d1104143012871020010db8000000000000000000000001300a06082a8648ce3d0403020349003046022100bfa060b49075db61baa0c3ceddc79ceb8727fa248c9b614cf26059da2b4ca1d6022100b63f5d76de4f54822bbebb32588a550c93c3470a993cd5876f32355ea7f833f4";
const EMAIL: &str = "3082019030820135a0030201020214429938e14408e7d47e514939940328adcf987fdd300a06082a8648ce3d040302300e310c300a06035504030c03736165301e170d3236313131373131313935355a170d3336313131343131313935355a300e310c300a06035504030c037361653059301306072a8648ce3d020106082a8648ce3d030107034200046562c0cfc5a8d517fe3755e9634e4f7dad36ee3a89b1727e278a505041317fc66b1da1c260a17a3159efd98ce10a1ed71ff5d713939104940387495b5ebab31fa371306f301d0603551d0e041604141d4c34cd2abe8381195d3a24627ea3c794d35369301f0603551d230418301680141d4c34cd2abe8381195d3a24627ea3c794d35369300f0603551d130101ff040530030101ff301c0603551d11041530138111616c696365406578616d706c652e6f7267300a06082a8648ce3d0403020349003046022100d43707527301dc038f8932d918879531da12c65b4e51ecdf077096afa263b44a022100d00f844597e92b4b7e3be116d573c55853d81205bdad5b372d3fd7385a9e8ee2";
const NO_SAN: &str = "3082017030820117a0030201020214786374f7fe6fa67c77c3bc5fb7235a393e585a2f300a06082a8648ce3d040302300e310c300a06035504030c03736165301e170d3236313131373131313935355a170d3336313131343131313935355a300e310c300a06035504030c037361653059301306072a8648ce3d020106082a8648ce3d030107034200049274e9341bf307af7e9dec0c15d52121f52827a8c0f671a44753733b2164e629fc79f4eb49ce07e99e9c0bfaa7fb00808ce9f254ee7e183e2a7549db7540e0bda3533051301d0603551d0e04160414211fa1086b7ab36a5fb72678ddf1b068ea3974e1301f0603551d23041830168014211fa1086b7ab36a5fb72678ddf1b068ea3974e1300f0603551d130101ff040530030101ff300a06082a8648ce3d040302034700304402200f94885ba11a030a0082a973437094eed2f15c4628fe42d96d700a599369bc3a02200e7378425eb5ae99bd99394915b5528a8e2d627fafe6b980b30765e99b3bf911";

fn text(name: Option<SaeName>) -> Option<String> {
    match name {
        Some(SaeName::Text(s)) => Some(s),
        _ => None,
    }
}

#[test]
fn certificate_dns_name_comes_first() {
    assert_eq!(text(extract_sae_id(&hex(DNS_THEN_IP))), Some("sae-1.example".to_string()));
}

#[test]
fn certificate_ipv4_name_is_dotted_decimal() {
    assert_eq!(text(extract_sae_id(&hex(IP_THEN_DNS))), Some("10.0.0.7".to_string()));
}

#[test]
fn certificate_ipv6_name_keeps_octets() {
    match extract_sae_id(&hex(IPV6)) {
        Some(SaeName::Ipv6(octets)) => {
            assert_eq!(octets, vec![0x20, 0x01, 0x0d, 0xb8, 0, 0, 0, 0, 0, 0, 0, 0, 0, 0, 0, 1]);
        }
        _ => panic!("expected an IPv6 name"),
    }
}

#[test]
fn certificate_email_name() {
    assert_eq!(text(extract_sae_id(&hex(EMAIL))), Some("alice@example.org".to_string()));
}

#[test]
fn certificate_without_names_or_unparsable() {
    assert!(extract_sae_id(&hex(NO_SAN)).is_none());
    assert!(extract_sae_id(&[0x30, 0x03, 0x02, 0x01]).is_none());
    assert!(extract_sae_id(&[]).is_none());
}

#[test]
fn selection_skips_unusable_names() {
    let exts = vec![
        None,
        Some(vec![SanName::Other, SanName::IpAddress(vec![1, 2, 3])]),
        Some(vec![SanName::Uri("urn:sae:7".to_string()), SanName::Dns("later".to_string())]),
    ];
    assert_eq!(text(select_sae_name(&exts)), Some("urn:sae:7".to_string()));
    let none: Vec<Option<Vec<SanName>>> = vec![None, Some(vec![SanName::Other])];
    assert!(select_sae_name(&none).is_none());
}

#[test]
fn only_served_saes_are_admitted() {
    let valid = StringSet::from_vec(vec!["sae-1".to_string(), "sae-2".to_string()]);
    assert_eq!(authorize_sae(&valid, Some("sae-2".to_string())).ok(), Some("sae-2".to_string()));
    assert!(authorize_sae(&valid, Some("sae-3".to_string())).is_err());
    assert!(authorize_sae(&valid, None).is_err());
}

#[test]
fn enc_key_request_defaults_to_one_key() {
    let r = EncKeyRequest::from(GetKey { number: None, size: Some(256) });
    assert_eq!(r.number, 1);
    assert_eq!(r.size, Some(256));
    let r: EncKeyRequest = GetKey { number: Some(4), size: None }.into();
    assert_eq!(r.number, 4);
    assert_eq!(r.size, None);
}

#[test]
fn full_key_request_converts_alike() {
    let body = KeyRequest {
        number: None,
        size: Some(128),
        additional_slave_SAE_IDs: Some(vec!["x".to_string()]),
        extension_mandatory: Some(serde_json::Value::Bool(true)),
        extension_optional: None,
    };
    let r = EncKeyRequest::from(body);
    assert_eq!(r.number, 1);
    assert_eq!(r.size, Some(128));
}

#[test]
fn single_key_id_request() {
    let r = GetKeysWithId::single(GetKeyWithId { key_ID: "k1".to_string() });
    assert_eq!(r.key_IDs.len(), 1);
    assert_eq!(r.key_IDs[0].key_ID, "k1");
}

#[test]
fn converter_request_holds_its_parts() {
    let r: E014ConverterRequest<u8, u8> = E014ConverterRequest::new(E014ConverterRequestInner::Status(3), "a".to_string(), "b".to_string());
    assert_eq!(r.sae_id, "a");
    assert_eq!(r.remote_sae_id, "b");
    assert!(matches!(r.req, E014ConverterRequestInner::Status(3)));
}
