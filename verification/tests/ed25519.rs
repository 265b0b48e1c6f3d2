use ringsig::trs::{ed25519_sign_rust, ed25519_verify_rust, trs_generate_keypair};

// A signature produced over a message opens under the matching public key
// and under no other message.
#[test]
fn ed25519_sign_verify_roundtrip() {
    let mut sk = [0u8; 32];
    let mut pk = [0u8; 32];
    trs_generate_keypair(&mut sk, &mut pk);

    let msg = b"the quick brown fox";
    let mut signature = [0u8; 64];
    ed25519_sign_rust(&mut sk, msg, &mut signature);
    assert_ne!(signature, [0u8; 64]);
    assert!(ed25519_verify_rust(&pk, msg, &signature));
    assert!(!ed25519_verify_rust(&pk, b"the quick brown fix", &signature));
}

// A signature does not open under an unrelated public key.
#[test]
fn ed25519_wrong_key_rejected() {
    let mut sk = [0u8; 32];
    let mut pk = [0u8; 32];
    trs_generate_keypair(&mut sk, &mut pk);
    let mut sk2 = [0u8; 32];
    let mut pk2 = [0u8; 32];
    trs_generate_keypair(&mut sk2, &mut pk2);

    let msg = b"payload";
    let mut signature = [0u8; 64];
    ed25519_sign_rust(&mut sk, msg, &mut signature);
    assert!(!ed25519_verify_rust(&pk2, msg, &signature));
}

// A non-canonical private scalar writes nothing; malformed signatures are
// rejected rather than a panic.
#[test]
fn ed25519_malformed_inputs() {
    let mut bad_sk = [0xffu8; 32];
    let mut signature = [7u8; 64];
    ed25519_sign_rust(&mut bad_sk, b"m", &mut signature);
    assert_eq!(signature, [7u8; 64]);

    let mut sk = [0u8; 32];
    let mut pk = [0u8; 32];
    trs_generate_keypair(&mut sk, &mut pk);
    let mut good = [0u8; 64];
    ed25519_sign_rust(&mut sk, b"m", &mut good);
    // corrupt the nonce point into an undecodable encoding
    let mut bad_sig = good;
    for b in bad_sig[..32].iter_mut() {
        *b = 0xff;
    }
    assert!(!ed25519_verify_rust(&pk, b"m", &bad_sig));
    // corrupt the response scalar into a non-canonical encoding
    let mut bad_sig2 = good;
    for b in bad_sig2[32..].iter_mut() {
        *b = 0xff;
    }
    assert!(!ed25519_verify_rust(&pk, b"m", &bad_sig2));
}
