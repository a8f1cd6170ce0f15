use secure_transfer::codec::{
    decode_records, decode_vector, encode_record, encode_records, encode_vector, RECORD_BYTES,
};
use secure_transfer::record::Record;

fn sample_record(seed: u32) -> Record {
    Record {
        male: seed % 2,
        age: 40 + seed,
        currentSmoker: (seed + 1) % 2,
        cigsPerDay: (9.5f64 + seed as f64).to_bits(),
        BPMeds: 0.0f64.to_bits(),
        prevalentStroke: 0,
        prevalentHyp: seed % 2,
        diabetes: 0,
        totChol: (195.0f64 + seed as f64).to_bits(),
        sysBP: (106.0f64 + seed as f64).to_bits(),
        diaBP: (70.0f64 + seed as f64).to_bits(),
        BMI: (26.97f64 + seed as f64).to_bits(),
        heartRate: (80.0f64 + seed as f64).to_bits(),
        glucose: (77.0f64 + seed as f64).to_bits(),
        TenYearCHD: seed % 2,
    }
}

#[test]
fn record_encoding_is_fixed_size() {
    let encoded = encode_record(&sample_record(0));
    assert_eq!(encoded.len(), RECORD_BYTES);
}

#[test]
fn records_round_trip() {
    let records = vec![sample_record(0), sample_record(1), sample_record(2)];
    let encoded = encode_records(&records);
    assert_eq!(encoded.len(), 8 + 3 * RECORD_BYTES);
    let decoded = decode_records(&encoded).expect("well-formed payload must decode");
    assert_eq!(decoded, records);
}

#[test]
fn empty_records_round_trip() {
    let records: Vec<Record> = Vec::new();
    let encoded = encode_records(&records);
    assert_eq!(encoded.len(), 8);
    let decoded = decode_records(&encoded).expect("empty payload must decode");
    assert_eq!(decoded, records);
}

#[test]
fn truncated_records_payload_is_refused() {
    let records = vec![sample_record(0)];
    let mut encoded = encode_records(&records);
    encoded.pop();
    assert!(decode_records(&encoded).is_none());
}

#[test]
fn short_header_is_refused() {
    assert!(decode_records(&[0u8, 1, 2]).is_none());
}

#[test]
fn mismatched_count_is_refused() {
    let records = vec![sample_record(0), sample_record(1)];
    let mut encoded = encode_records(&records);
    // Claim three records while the body holds two.
    encoded[0] = 3;
    assert!(decode_records(&encoded).is_none());
}

#[test]
fn vector_round_trip() {
    let vals: Vec<u64> = vec![
        0.25f64.to_bits(),
        (-1.5f64).to_bits(),
        0.0f64.to_bits(),
        123.456f64.to_bits(),
    ];
    let encoded = encode_vector(&vals);
    assert_eq!(encoded.len(), 8 + 4 * 8);
    let decoded = decode_vector(&encoded).expect("well-formed payload must decode");
    assert_eq!(decoded, vals);
}

#[test]
fn empty_vector_round_trip() {
    let vals: Vec<u64> = Vec::new();
    let encoded = encode_vector(&vals);
    let decoded = decode_vector(&encoded).expect("empty payload must decode");
    assert_eq!(decoded, vals);
}

#[test]
fn truncated_vector_payload_is_refused() {
    let vals: Vec<u64> = vec![1, 2, 3];
    let mut encoded = encode_vector(&vals);
    encoded.truncate(encoded.len() - 4);
    assert!(decode_vector(&encoded).is_none());
}

#[test]
fn record_field_order_is_kept() {
    // The first feature field lands first in the encoding, the label last.
    let mut r = sample_record(0);
    r.male = 7;
    r.TenYearCHD = 1;
    let encoded = encode_record(&r);
    assert_eq!(&encoded[0..4], 7u32.to_le_bytes().as_slice());
    assert_eq!(
        &encoded[RECORD_BYTES - 4..RECORD_BYTES],
        1u32.to_le_bytes().as_slice()
    );
}
