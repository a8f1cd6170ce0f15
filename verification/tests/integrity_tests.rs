use secure_transfer::session::MyServer;
use secure_transfer::upload::{plan_upload, Purpose, UploadError};
use sha2::{Digest, Sha256};

const KEY: &[u8] = b"secret";

fn hex_to_bytes(hex: &str) -> Vec<u8> {
    (0..hex.len())
        .step_by(2)
        .map(|i| u8::from_str_radix(&hex[i..i + 2], 16).unwrap())
        .collect()
}

#[test]
fn chunk_digest_matches_known_sha256_vector() {
    // SHA-256("abc") from the published test vectors; would fail if the
    // digest boundary returned anything but real SHA-256.
    let plan = plan_upload(
        Purpose::Training,
        &b"abc.csv".to_vec(),
        &b"abc".to_vec(),
        &KEY.to_vec(),
    )
    .expect("extension fits");
    assert_eq!(plan.chunks.len(), 1);
    assert_eq!(
        plan.chunks[0].digest,
        hex_to_bytes("ba7816bf8f01cfea414140de5dae2223b00361a396177a9cb410ff61f20015ad")
    );
}

#[test]
fn transfer_mac_matches_known_hmac_vector() {
    // HMAC-SHA-256 test case from RFC 4231 (key "Jefe"); would fail if
    // the MAC boundary returned anything but real HMAC-SHA-256.
    let plan = plan_upload(
        Purpose::Training,
        &b"q.csv".to_vec(),
        &b"what do ya want for nothing?".to_vec(),
        &b"Jefe".to_vec(),
    )
    .expect("extension fits");
    assert_eq!(
        plan.mac,
        hex_to_bytes("5bdcc146bf60754e6a042426089575c75a003f089d2739839dec58b964ec3843")
    );
}

#[test]
fn digest_is_deterministic_and_sensitive() {
    let payload = b"some payload bytes".to_vec();
    let a = plan_upload(Purpose::Training, &b"a.csv".to_vec(), &payload, &KEY.to_vec()).unwrap();
    let b = plan_upload(Purpose::Training, &b"a.csv".to_vec(), &payload, &KEY.to_vec()).unwrap();
    // Determinism: the same bytes digest to the same value, twice.
    assert_eq!(a.chunks[0].digest, b.chunks[0].digest);
    // Sensitivity: one flipped byte changes the digest.
    let mut tampered = payload.clone();
    tampered[0] ^= 0x01;
    let c = plan_upload(
        Purpose::Training,
        &b"a.csv".to_vec(),
        &tampered,
        &KEY.to_vec(),
    )
    .unwrap();
    assert_ne!(a.chunks[0].digest, c.chunks[0].digest);
}

#[test]
fn server_accepts_independently_computed_digest() {
    // The digest the server recomputes agrees with SHA-256 from a
    // second implementation: a chunk tagged that way is accepted.
    let content = b"cross-checked chunk".to_vec();
    let digest = Sha256::digest(&content).as_slice().to_vec();
    let mut server = MyServer::new();
    server
        .send_file(content, &digest)
        .expect("a correct SHA-256 digest must be accepted");
}

#[test]
fn mac_depends_on_the_key() {
    let payload = b"identical payload".to_vec();
    let a = plan_upload(Purpose::Training, &b"a.csv".to_vec(), &payload, &KEY.to_vec()).unwrap();
    let b = plan_upload(
        Purpose::Training,
        &b"a.csv".to_vec(),
        &payload,
        &b"another".to_vec(),
    )
    .unwrap();
    assert_ne!(a.mac, b.mac);
}

#[test]
fn upload_plan_chunks_cover_payload_in_order() {
    let payload: Vec<u8> = (0..2500u32).map(|i| (i % 256) as u8).collect();
    let plan = plan_upload(Purpose::Training, &b"big.csv".to_vec(), &payload, &KEY.to_vec())
        .unwrap();
    assert_eq!(plan.chunks.len(), 3);
    let rebuilt: Vec<u8> = plan
        .chunks
        .iter()
        .flat_map(|m| m.content.iter().copied())
        .collect();
    assert_eq!(rebuilt, payload);
    assert_eq!(plan.chunks[0].content.len(), 1024);
    assert_eq!(plan.chunks[1].content.len(), 1024);
    assert_eq!(plan.chunks[2].content.len(), 452);
}

#[test]
fn priming_wrong_extension_is_rejected_before_any_bytes() {
    // A file that is neither .csv nor .txt never reaches the chunk phase.
    let err = plan_upload(
        Purpose::Training,
        &b"model.dat".to_vec(),
        &b"payload".to_vec(),
        &KEY.to_vec(),
    )
    .expect_err("training data must be .csv");
    assert_eq!(err, UploadError::ExpectedCsv);

    let err = plan_upload(
        Purpose::Coefficients,
        &b"model.dat".to_vec(),
        &b"payload".to_vec(),
        &KEY.to_vec(),
    )
    .expect_err("coefficients must be .txt");
    assert_eq!(err, UploadError::ExpectedTxt);
}

#[test]
fn prediction_data_needs_csv_extension() {
    let err = plan_upload(
        Purpose::Prediction,
        &b"points.txt".to_vec(),
        &b"payload".to_vec(),
        &KEY.to_vec(),
    )
    .expect_err("prediction data must be .csv");
    assert_eq!(err, UploadError::ExpectedCsv);
}

#[test]
fn upload_flags_follow_purpose_and_name() {
    let plan = plan_upload(
        Purpose::Training,
        &b"train.csv".to_vec(),
        &b"x".to_vec(),
        &KEY.to_vec(),
    )
    .unwrap();
    assert!(plan.train_flag);
    assert!(!plan.coefs_flag);

    let plan = plan_upload(
        Purpose::Prediction,
        &b"pred.csv".to_vec(),
        &b"x".to_vec(),
        &KEY.to_vec(),
    )
    .unwrap();
    assert!(!plan.train_flag);
    assert!(!plan.coefs_flag);

    let plan = plan_upload(
        Purpose::Coefficients,
        &b"model.txt".to_vec(),
        &b"x".to_vec(),
        &KEY.to_vec(),
    )
    .unwrap();
    assert!(!plan.train_flag);
    assert!(plan.coefs_flag);
}
