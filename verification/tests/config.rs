use converter::config::Psk;

#[test]
fn psk_credentials_fill_buffers() {
    let psk = Psk { id: b"client".to_vec(), key: vec![1, 2, 3] };
    let mut identity = [0xffu8; 10];
    let mut key = [0xeeu8; 5];
    let n = psk.write_client_credentials(&mut identity, &mut key);
    assert_eq!(n, 3);
    assert_eq!(&identity[..7], b"client\0");
    assert_eq!(&identity[7..], &[0xff, 0xff, 0xff]);
    assert_eq!(key, [1, 2, 3, 0xee, 0xee]);
}

#[test]
fn psk_credentials_exact_fit() {
    let psk = Psk { id: b"id".to_vec(), key: vec![9, 9] };
    let mut identity = [7u8; 3];
    let mut key = [0u8; 2];
    assert_eq!(psk.write_client_credentials(&mut identity, &mut key), 2);
    assert_eq!(identity, [b'i', b'd', 0]);
    assert_eq!(key, [9, 9]);
}
