use curve25519_dalek::constants::RISTRETTO_BASEPOINT_POINT;
use curve25519_dalek::ristretto::{CompressedRistretto, RistrettoPoint};
use curve25519_dalek::scalar::Scalar;
use ringsig::trs::{
    generate_keys_and_message, generation_time, is_valid_scalar, proof_time, sign, trace,
    trace_time, trs_generate_keypair, trs_keypair_from_hash, trs_keypair_from_seed,
    try_proof_time, verification_time, verify, PrivateKey, PublicKey, Signature, Tag,
};

/// The private-key bytes the scheme expects: scalar followed by the
/// compressed public key.
fn privkey_bytes(sk: &[u8; 32], pk: &[u8; 32]) -> Vec<u8> {
    [&sk[..], &pk[..]].concat()
}

fn ring_of(n: usize) -> (Vec<[u8; 32]>, Vec<[u8; 32]>, Tag) {
    let mut set_publickey = vec![[0u8; 32]; n];
    let mut set_secretkey = vec![[0u8; 32]; n];
    for i in 0..n {
        let public_key = &mut set_publickey[i];
        let secret_key = &mut set_secretkey[i];
        trs_generate_keypair(secret_key, public_key);
    }
    let issue = vec![0u8; 32];
    let mut pubkeys = Vec::new();
    for i in 0..n {
        pubkeys.push(PublicKey::from_bytes(&set_publickey[i]).unwrap());
    }
    let tag = Tag { issue, pubkeys };
    (set_publickey, set_secretkey, tag)
}

#[test]
fn test_minimal_keygen_roundtrip() {
    // 1. Generate a random scalar (private key)
    let mut rng = rand::thread_rng();
    let s = Scalar::random(&mut rng);

    // 2. Compute the public key as a RistrettoPoint
    let point: RistrettoPoint = &s * &RISTRETTO_BASEPOINT_POINT;

    // 3. Compress to bytes
    let compressed: CompressedRistretto = point.compress();
    let bytes: [u8; 32] = compressed.to_bytes();
    let pubkey = PublicKey::from_bytes(&bytes).unwrap();
    let pubkey_bytes = pubkey.as_bytes();
    assert_eq!(bytes.to_vec(), pubkey_bytes);

    println!("Compressed public key bytes: {:?}", bytes);

    // 4. Decompress back into a RistrettoPoint
    let decompressed: Option<RistrettoPoint> = CompressedRistretto(bytes).decompress();

    match decompressed {
        Some(p) => {
            println!("Successfully decompressed!");
            assert_eq!(point, p);
        }
        None => {
            println!("Decompression failed");
        }
    }
}

#[test]
fn test_keygen() {
    // 1. Generate a public and private key with the library function
    let mut pubkey_bytes = [0u8; 32];
    let mut privkey_bytes = [0u8; 32];
    trs_generate_keypair(&mut privkey_bytes, &mut pubkey_bytes);

    // 2. Check that extraction works
    let pubkey = PublicKey::from_bytes(&pubkey_bytes);
    assert!(pubkey.is_some());
}

#[test]
fn strawman() {
    // a bunch of users sign the same message
    let ring_size = 20;
    let (set_publickey, set_secretkey, tag) = ring_of(ring_size);
    let msg = vec![1u8; 32];

    for i in 0..ring_size {
        let secretkey = privkey_bytes(&set_secretkey[i], &set_publickey[i]);
        sign(&msg, &tag, &PrivateKey::from_bytes(&secretkey).unwrap());
    }
}

#[test]
fn sum_to_n() {
    // a bunch of users sign the same message
    let ring_size = 20;
    let (set_publickey, set_secretkey, tag) = ring_of(ring_size);
    let msg = vec![1u8; 32];

    for i in 0..ring_size {
        let secretkey = privkey_bytes(&set_secretkey[i], &set_publickey[i]);
        sign(&msg, &tag, &PrivateKey::from_bytes(&secretkey).unwrap());
    }
}

// The timing drivers run on a small generated ring: one signature is
// produced and verifies, and tracing it against itself reports linked.
#[test]
fn timing_drivers_small_ring() {
    let n = 4;
    let (set_publickey, set_secretkey, tag, msg) = generate_keys_and_message(n);
    let sigs = proof_time(
        n,
        set_publickey.clone(),
        set_secretkey.clone(),
        tag.clone(),
        msg.clone(),
    );
    assert_eq!(sigs.len(), 1);
    assert!(verify(&msg, &tag, &sigs[0]));
    assert_eq!(trace(&tag, &msg, &msg, &sigs[0], &sigs[0]), -1);
    verification_time(msg.clone(), tag.clone(), sigs.clone(), n);
    trace_time(msg.clone(), msg.clone(), tag.clone(), sigs[0].clone(), sigs[0].clone());
    generation_time(2);

    // the checked driver accepts ready key material and refuses a ring
    // that does not hold the first public key
    let some = try_proof_time(n, set_publickey.clone(), set_secretkey.clone(), tag, msg.clone());
    assert!(some.is_some());
    let (_, _, other_tag, _) = generate_keys_and_message(2);
    let none = try_proof_time(n, set_publickey, set_secretkey, other_tag, msg);
    assert!(none.is_none());
}

// Every well-formed signature verifies, for a few ring sizes and signer
// positions.
#[test]
fn sign_verify_roundtrip() {
    for (n, signer) in [(1usize, 0usize), (2, 1), (5, 3), (8, 0)] {
        let (set_publickey, set_secretkey, tag) = ring_of(n);
        let msg = vec![7u8; 16];
        let sk = privkey_bytes(&set_secretkey[signer], &set_publickey[signer]);
        let sig = sign(&msg, &tag, &PrivateKey::from_bytes(&sk).unwrap());
        assert!(verify(&msg, &tag, &sig));
        // a different message must not verify
        assert!(!verify(&[9u8; 16], &tag, &sig));
        // nor must the same message under a tag with a different issue
        let other_tag = Tag { pubkeys: tag.pubkeys.clone(), issue: vec![9u8; 32] };
        assert!(!verify(&msg, &other_tag, &sig));
    }
}

// Scenario: key 3 of a twenty-key ring signs two different messages under
// the same tag; tracing returns the signer's index.
#[test]
fn scenario_trace_index() {
    let n = 20;
    let (set_publickey, set_secretkey, tag) = ring_of(n);
    let m1 = [1u8; 32];
    let m2 = [2u8; 32];
    let sk = privkey_bytes(&set_secretkey[3], &set_publickey[3]);
    let key = PrivateKey::from_bytes(&sk).unwrap();
    let sig1 = sign(&m1, &tag, &key);
    let sig2 = sign(&m2, &tag, &key);
    assert!(verify(&m1, &tag, &sig1));
    assert!(verify(&m2, &tag, &sig2));
    assert_eq!(trace(&tag, &m1, &m2, &sig1, &sig2), 3);
}

// Scenario: key 3 signs the same message twice with fresh randomness;
// tracing reports the signatures as linked.
#[test]
fn scenario_trace_linked() {
    let n = 20;
    let (set_publickey, set_secretkey, tag) = ring_of(n);
    let m1 = [1u8; 32];
    let sk = privkey_bytes(&set_secretkey[3], &set_publickey[3]);
    let key = PrivateKey::from_bytes(&sk).unwrap();
    let sig1 = sign(&m1, &tag, &key);
    let sig2 = sign(&m1, &tag, &key);
    assert_eq!(trace(&tag, &m1, &m1, &sig1, &sig2), -1);
}

// Scenario: keys 3 and 7 each sign the same message; tracing reports the
// signatures as independent.
#[test]
fn scenario_trace_independent() {
    let n = 20;
    let (set_publickey, set_secretkey, tag) = ring_of(n);
    let m1 = [1u8; 32];
    let sk3 = privkey_bytes(&set_secretkey[3], &set_publickey[3]);
    let sk7 = privkey_bytes(&set_secretkey[7], &set_publickey[7]);
    let sig1 = sign(&m1, &tag, &PrivateKey::from_bytes(&sk3).unwrap());
    let sig2 = sign(&m1, &tag, &PrivateKey::from_bytes(&sk7).unwrap());
    assert_eq!(trace(&tag, &m1, &m1, &sig1, &sig2), -2);
}

// The checked signer hands out only signatures the verifier accepts.
#[test]
fn trs_checked_sign_accepts() {
    let (set_publickey, set_secretkey, tag) = ring_of(6);
    let msg = [4u8; 32];
    let sk = privkey_bytes(&set_secretkey[5], &set_publickey[5]);
    let sig = ringsig::trs::checked_sign(&msg, &tag, &PrivateKey::from_bytes(&sk).unwrap())
        .unwrap();
    assert!(verify(&msg, &tag, &sig));
    assert!(!verify(&[5u8; 32], &tag, &sig));
}

// Key-material round trips: deserializing a key's own serialization gives
// the key back.
#[test]
fn key_material_roundtrip() {
    let mut sk = [0u8; 32];
    let mut pk = [0u8; 32];
    trs_generate_keypair(&mut sk, &mut pk);

    let pubkey = PublicKey::from_bytes(&pk).unwrap();
    assert_eq!(PublicKey::from_bytes(&pubkey.as_bytes()), Some(pubkey.clone()));

    let privkey = PrivateKey::from_bytes(&privkey_bytes(&sk, &pk)).unwrap();
    assert_eq!(PrivateKey::from_bytes(&privkey.as_bytes()), Some(privkey.clone()));

    // wrong lengths are rejected
    assert_eq!(PublicKey::from_bytes(&pk[..31]), None);
    assert_eq!(PrivateKey::from_bytes(&pk[..]), None);
}

// Scalar canonicalization: the group order itself and anything above it is
// rejected; values below it are accepted.
#[test]
fn scalar_canonical_bound() {
    // the group order, little-endian
    let mut order: [u8; 32] = [
        0xed, 0xd3, 0xf5, 0x5c, 0x1a, 0x63, 0x12, 0x58, 0xd6, 0x9c, 0xf7, 0xa2, 0xde, 0xf9, 0xde,
        0x14, 0x00, 0x00, 0x00, 0x00, 0x00, 0x00, 0x00, 0x00, 0x00, 0x00, 0x00, 0x00, 0x00, 0x00,
        0x00, 0x10,
    ];
    assert!(!is_valid_scalar(&mut order));

    let mut order_minus_one = order;
    order_minus_one[0] = 0xec;
    assert!(is_valid_scalar(&mut order_minus_one));

    let mut all_ones = [0xffu8; 32];
    assert!(!is_valid_scalar(&mut all_ones));

    let mut small = [0u8; 32];
    small[0] = 42;
    assert!(is_valid_scalar(&mut small));
}

// Deriving a keypair from a hash is deterministic in the seed, and the
// derived key is not the seed itself.
#[test]
fn keypair_from_hash_deterministic() {
    let mut seed = [5u8; 32];
    let mut sk1 = [0u8; 32];
    let mut pk1 = [0u8; 32];
    trs_keypair_from_hash(&mut seed, &mut sk1, &mut pk1);
    let mut sk2 = [0u8; 32];
    let mut pk2 = [0u8; 32];
    trs_keypair_from_hash(&mut seed, &mut sk2, &mut pk2);
    assert_eq!(sk1, sk2);
    assert_eq!(pk1, pk2);
    assert_ne!(sk1, seed);
    assert_ne!(pk1, sk1);

    let mut other_seed = [6u8; 32];
    let mut sk3 = [0u8; 32];
    let mut pk3 = [0u8; 32];
    trs_keypair_from_hash(&mut other_seed, &mut sk3, &mut pk3);
    assert_ne!(sk1, sk3);
}

// Re-deriving the public key from a stored seed scalar matches the key
// that generation produced.
#[test]
fn keypair_from_seed_matches() {
    let mut sk = [0u8; 32];
    let mut pk = [0u8; 32];
    trs_generate_keypair(&mut sk, &mut pk);
    let mut derived_pk = [0u8; 32];
    trs_keypair_from_seed(&mut sk, &mut derived_pk);
    assert_eq!(pk, derived_pk);
    assert_ne!(pk, sk);
}

// A signature reassembled from its raw parts verifies like the original;
// an undecodable first point is rejected.
#[test]
fn signature_from_parts() {
    let n = 4;
    let (set_publickey, set_secretkey, tag) = ring_of(n);
    let msg = [3u8; 32];
    let sk = privkey_bytes(&set_secretkey[2], &set_publickey[2]);
    let sig = sign(&msg, &tag, &PrivateKey::from_bytes(&sk).unwrap());

    let rebuilt = Signature::from_parts(sig.aa1_bytes(), sig.cs_vec(), sig.zs_vec()).unwrap();
    assert_eq!(rebuilt, sig);
    assert!(verify(&msg, &tag, &rebuilt));

    assert!(Signature::from_parts([0xff; 32], sig.cs_vec(), sig.zs_vec()).is_none());
}
