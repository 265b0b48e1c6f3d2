use rand::seq::SliceRandom;
use rand::thread_rng;
use ringsig::clsag::{sign, Error};
use ringsig::trs::trs_generate_keypair;

/// A fresh random compressed ristretto point (a random key's public half).
fn generate_rand_compressed_point() -> [u8; 32] {
    let mut sk = [0u8; 32];
    let mut pk = [0u8; 32];
    trs_generate_keypair(&mut sk, &mut pk);
    pk
}

fn generate_rand_compressed_points(num_keys: usize) -> Vec<[u8; 32]> {
    (0..num_keys).map(|_| generate_rand_compressed_point()).collect()
}

/// A ring of `num_decoys + 1` rows of `num_keys` compressed points each,
/// with a signer row (whose secret scalars are returned) at `signer_index`.
fn make_ring(
    num_decoys: usize,
    num_keys: usize,
    signer_index: usize,
) -> (Vec<Vec<[u8; 32]>>, Vec<[u8; 32]>) {
    let n = num_decoys + 1;
    let mut matrix: Vec<Vec<[u8; 32]>> = Vec::new();
    for _ in 0..n {
        matrix.push(generate_rand_compressed_points(num_keys));
    }
    let mut secrets: Vec<[u8; 32]> = Vec::new();
    let mut signer_row: Vec<[u8; 32]> = Vec::new();
    for _ in 0..num_keys {
        let mut sk = [0u8; 32];
        let mut pk = [0u8; 32];
        trs_generate_keypair(&mut sk, &mut pk);
        secrets.push(sk);
        signer_row.push(pk);
    }
    matrix[signer_index] = signer_row;
    (matrix, secrets)
}

#[test]
fn test_verify() {
    let num_keys = 1;
    let num_decoys = 1;
    let msg = b"hello world";

    let signer_index = num_decoys;
    let (mut pub_keys, secrets) = make_ring(num_decoys, num_keys, signer_index);
    let sig = sign(signer_index, &secrets, &pub_keys, msg).unwrap();

    let expected_pubkey_bytes: Vec<u8> = pub_keys
        .iter()
        .flat_map(|row| row.iter().flat_map(|cell| cell.iter().copied()))
        .collect();
    let have_pubkey_bytes = sig.pubkeys_to_bytes(&pub_keys);

    assert_eq!(expected_pubkey_bytes, have_pubkey_bytes);
    assert!(sig.optimised_verify(&mut pub_keys, msg).is_ok());
}

#[test]
fn test_verify_fail_shuffle_keys() {
    let num_keys = 2;
    let num_decoys = 11;
    let msg = b"hello world";

    let signer_index = num_decoys;
    let (mut pub_keys, secrets) = make_ring(num_decoys, num_keys, signer_index);
    let sig = sign(signer_index, &secrets, &pub_keys, msg).unwrap();

    // shuffle public key ordering
    pub_keys.shuffle(&mut thread_rng());
    assert!(sig.optimised_verify(&mut pub_keys, msg).is_err());
}

#[test]
fn test_verify_fail_incorrect_num_keys() {
    let num_keys = 2;
    let num_decoys = 11;
    let msg = b"hello world";

    let signer_index = num_decoys;
    let (mut pub_keys, secrets) = make_ring(num_decoys, num_keys, signer_index);
    let sig = sign(signer_index, &secrets, &pub_keys, msg).unwrap();

    // Add extra key
    let extra_key = generate_rand_compressed_points(num_keys);
    pub_keys.push(extra_key);
    assert!(sig.optimised_verify(&mut pub_keys, msg).is_err());

    // remove the extra key and test should pass
    pub_keys.remove(pub_keys.len() - 1);
    assert!(sig.optimised_verify(&mut pub_keys, msg).is_ok());

    // remove another key and tests should fail
    pub_keys.remove(pub_keys.len() - 1);
    assert!(sig.optimised_verify(&mut pub_keys, msg).is_err());
}

// The smallest complete run: a two-row ring with one key per row, the
// signer in row zero.
#[test]
fn scenario_smallest_ring() {
    let msg = b"hello world";
    let (mut pub_keys, secrets) = make_ring(1, 1, 0);
    let sig = sign(0, &secrets, &pub_keys, msg).unwrap();
    assert_eq!(sig.responses.len(), 2);
    assert_eq!(sig.key_images.len(), 1);
    assert!(sig.verify(&mut pub_keys, msg).is_ok());
    assert!(sig.optimised_verify(&mut pub_keys, msg).is_ok());
}

// Permuting the rows of the public matrix after signing invalidates the
// signature with a challenge mismatch.
#[test]
fn scenario_shuffled_rows_mismatch() {
    let msg = b"hello world";
    let (mut pub_keys, secrets) = make_ring(11, 2, 3);
    let sig = sign(3, &secrets, &pub_keys, msg).unwrap();
    // rotate the rows so the permutation surely is not the identity
    let first = pub_keys.remove(0);
    pub_keys.push(first);
    assert!(matches!(
        sig.optimised_verify(&mut pub_keys, msg),
        Err(Error::ChallengeMismatch)
    ));
    assert!(matches!(sig.verify(&mut pub_keys, msg), Err(Error::ChallengeMismatch)));
}

// Appending a row makes the row count disagree with the response count;
// removing it restores acceptance; removing a legitimate row fails again.
#[test]
fn scenario_extra_row() {
    let msg = b"hello world";
    let (mut pub_keys, secrets) = make_ring(11, 2, 5);
    let sig = sign(5, &secrets, &pub_keys, msg).unwrap();

    pub_keys.push(generate_rand_compressed_points(2));
    assert!(matches!(
        sig.optimised_verify(&mut pub_keys, msg),
        Err(Error::IncorrectNumOfPubKeys)
    ));

    pub_keys.remove(pub_keys.len() - 1);
    assert!(sig.optimised_verify(&mut pub_keys, msg).is_ok());

    pub_keys.remove(pub_keys.len() - 1);
    assert!(matches!(
        sig.optimised_verify(&mut pub_keys, msg),
        Err(Error::IncorrectNumOfPubKeys)
    ));
}

// Both verification paths accept a fresh signature and agree after any
// tampering, for a few ring shapes.
#[test]
fn verifiers_agree() {
    for (decoys, keys) in [(1usize, 1usize), (3, 2), (7, 3)] {
        let msg = b"hello world";
        let signer = decoys / 2;
        let (mut pub_keys, secrets) = make_ring(decoys, keys, signer);
        let sig = sign(signer, &secrets, &pub_keys, msg).unwrap();
        assert!(sig.verify(&mut pub_keys, msg).is_ok());
        assert!(sig.optimised_verify(&mut pub_keys, msg).is_ok());
        // a different message must be rejected by both paths alike
        let r1 = sig.verify(&mut pub_keys, b"another message").is_ok();
        let r2 = sig.optimised_verify(&mut pub_keys, b"another message").is_ok();
        assert!(!r1);
        assert_eq!(r1, r2);
    }
}

// Every emitted signature holds one response per ring row and one key
// image per key row.
#[test]
fn signature_sizes_invariant() {
    for (decoys, keys) in [(1usize, 1usize), (3, 2), (11, 3)] {
        let (pub_keys, secrets) = make_ring(decoys, keys, 0);
        let sig = sign(0, &secrets, &pub_keys, b"hello world").unwrap();
        assert_eq!(sig.responses.len(), decoys + 1);
        assert_eq!(sig.key_images.len(), keys);
    }
}

// A matrix cell that is no canonical point encoding is reported as a bad
// point by both paths.
#[test]
fn bad_point_reported() {
    let msg = b"hello world";
    let (mut pub_keys, secrets) = make_ring(3, 2, 1);
    let sig = sign(1, &secrets, &pub_keys, msg).unwrap();
    pub_keys[2][1] = [0xff; 32];
    assert!(matches!(sig.verify(&mut pub_keys, msg), Err(Error::BadPoint)));
    assert!(matches!(sig.optimised_verify(&mut pub_keys, msg), Err(Error::BadPoint)));
}

// Signing over a matrix with an undecodable cell fails with a bad point.
#[test]
fn sign_rejects_bad_matrix() {
    let (mut pub_keys, secrets) = make_ring(3, 1, 0);
    pub_keys[2][0] = [0xff; 32];
    assert!(matches!(
        sign(0, &secrets, &pub_keys, b"hello world"),
        Err(Error::BadPoint)
    ));
}

// The checked signer hands out only signatures that both verification
// paths accept.
#[test]
fn clsag_checked_sign_accepts() {
    let msg = b"hello world";
    let (mut pub_keys, secrets) = make_ring(3, 2, 2);
    let sig = ringsig::clsag::checked_sign(2, &secrets, &mut pub_keys, msg).unwrap();
    assert!(sig.verify(&mut pub_keys, msg).is_ok());
    assert!(sig.optimised_verify(&mut pub_keys, msg).is_ok());
    assert_eq!(sig.responses.len(), 4);
    assert_eq!(sig.key_images.len(), 2);
}

// The in-memory size accounts 32 bytes per response and per key image.
#[test]
fn signature_size_formula() {
    let (pub_keys, secrets) = make_ring(2, 2, 0);
    let sig = sign(0, &secrets, &pub_keys, b"hello world").unwrap();
    let base = std::mem::size_of::<ringsig::clsag::Signature>();
    assert_eq!(sig.signature_size(), base + 3 * 32 + 2 * 32);
}
