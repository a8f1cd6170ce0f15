use vstd::prelude::*;
use vstd::bytes::{
    lemma_auto_spec_u32_to_from_le_bytes, lemma_auto_spec_u64_to_from_le_bytes,
    spec_u32_to_le_bytes, spec_u64_from_le_bytes, spec_u64_to_le_bytes, u32_from_le_bytes,
    u32_to_le_bytes, u64_from_le_bytes, u64_to_le_bytes,
};
use vstd::slice::slice_subrange;
use crate::record::Record;

verus! {

/// Number of bytes one encoded record occupies: seven 4-byte fields and
/// eight 8-byte fields.
pub const RECORD_BYTES: usize = 92;

/// The byte encoding of one record: every field in declaration order,
/// little-endian, `u32` fields as 4 bytes and `u64` fields as 8 bytes.
pub open spec fn spec_encode_record(r: Record) -> Seq<u8> {
    spec_u32_to_le_bytes(r.male) + spec_u32_to_le_bytes(r.age)
        + spec_u32_to_le_bytes(r.currentSmoker) + spec_u64_to_le_bytes(r.cigsPerDay)
        + spec_u64_to_le_bytes(r.BPMeds) + spec_u32_to_le_bytes(r.prevalentStroke)
        + spec_u32_to_le_bytes(r.prevalentHyp) + spec_u32_to_le_bytes(r.diabetes)
        + spec_u64_to_le_bytes(r.totChol) + spec_u64_to_le_bytes(r.sysBP)
        + spec_u64_to_le_bytes(r.diaBP) + spec_u64_to_le_bytes(r.BMI)
        + spec_u64_to_le_bytes(r.heartRate) + spec_u64_to_le_bytes(r.glucose)
        + spec_u32_to_le_bytes(r.TenYearCHD)
}

pub proof fn lemma_encode_record_len(r: Record)
    ensures
        spec_encode_record(r).len() == RECORD_BYTES,
{
    lemma_auto_spec_u32_to_from_le_bytes();
    lemma_auto_spec_u64_to_from_le_bytes();
}

/// Encoding one record determines the record: equal encodings mean
/// equal records.
pub proof fn lemma_encode_record_injective(a: Record, b: Record)
    requires
        spec_encode_record(a) == spec_encode_record(b),
    ensures
        a == b,
{
    lemma_auto_spec_u32_to_from_le_bytes();
    lemma_auto_spec_u64_to_from_le_bytes();
    lemma_field_recovery(a);
    lemma_field_recovery(b);
}

/// Each field of `r` can be read back out of `spec_encode_record(r)` at
/// its fixed offset.
proof fn lemma_field_recovery(r: Record)
    ensures
        spec_encode_record(r).subrange(0, 4) == spec_u32_to_le_bytes(r.male),
        spec_encode_record(r).subrange(4, 8) == spec_u32_to_le_bytes(r.age),
        spec_encode_record(r).subrange(8, 12) == spec_u32_to_le_bytes(r.currentSmoker),
        spec_encode_record(r).subrange(12, 20) == spec_u64_to_le_bytes(r.cigsPerDay),
        spec_encode_record(r).subrange(20, 28) == spec_u64_to_le_bytes(r.BPMeds),
        spec_encode_record(r).subrange(28, 32) == spec_u32_to_le_bytes(r.prevalentStroke),
        spec_encode_record(r).subrange(32, 36) == spec_u32_to_le_bytes(r.prevalentHyp),
        spec_encode_record(r).subrange(36, 40) == spec_u32_to_le_bytes(r.diabetes),
        spec_encode_record(r).subrange(40, 48) == spec_u64_to_le_bytes(r.totChol),
        spec_encode_record(r).subrange(48, 56) == spec_u64_to_le_bytes(r.sysBP),
        spec_encode_record(r).subrange(56, 64) == spec_u64_to_le_bytes(r.diaBP),
        spec_encode_record(r).subrange(64, 72) == spec_u64_to_le_bytes(r.BMI),
        spec_encode_record(r).subrange(72, 80) == spec_u64_to_le_bytes(r.heartRate),
        spec_encode_record(r).subrange(80, 88) == spec_u64_to_le_bytes(r.glucose),
        spec_encode_record(r).subrange(88, 92) == spec_u32_to_le_bytes(r.TenYearCHD),
{
    lemma_auto_spec_u32_to_from_le_bytes();
    lemma_auto_spec_u64_to_from_le_bytes();
    let e = spec_encode_record(r);
    assert(e.subrange(0, 4) =~= spec_u32_to_le_bytes(r.male));
    assert(e.subrange(4, 8) =~= spec_u32_to_le_bytes(r.age));
    assert(e.subrange(8, 12) =~= spec_u32_to_le_bytes(r.currentSmoker));
    assert(e.subrange(12, 20) =~= spec_u64_to_le_bytes(r.cigsPerDay));
    assert(e.subrange(20, 28) =~= spec_u64_to_le_bytes(r.BPMeds));
    assert(e.subrange(28, 32) =~= spec_u32_to_le_bytes(r.prevalentStroke));
    assert(e.subrange(32, 36) =~= spec_u32_to_le_bytes(r.prevalentHyp));
    assert(e.subrange(36, 40) =~= spec_u32_to_le_bytes(r.diabetes));
    assert(e.subrange(40, 48) =~= spec_u64_to_le_bytes(r.totChol));
    assert(e.subrange(48, 56) =~= spec_u64_to_le_bytes(r.sysBP));
    assert(e.subrange(56, 64) =~= spec_u64_to_le_bytes(r.diaBP));
    assert(e.subrange(64, 72) =~= spec_u64_to_le_bytes(r.BMI));
    assert(e.subrange(72, 80) =~= spec_u64_to_le_bytes(r.heartRate));
    assert(e.subrange(80, 88) =~= spec_u64_to_le_bytes(r.glucose));
    assert(e.subrange(88, 92) =~= spec_u32_to_le_bytes(r.TenYearCHD));
}

/// Encode one record into its fixed 92-byte form.
pub fn encode_record(r: &Record) -> (out: Vec<u8>)
    ensures
        out@ == spec_encode_record(*r),
        out@.len() == RECORD_BYTES,
{
    let mut out: Vec<u8> = Vec::new();
    let mut b: Vec<u8>;
    b = u32_to_le_bytes(r.male);
    out.append(&mut b);
    b = u32_to_le_bytes(r.age);
    out.append(&mut b);
    b = u32_to_le_bytes(r.currentSmoker);
    out.append(&mut b);
    b = u64_to_le_bytes(r.cigsPerDay);
    out.append(&mut b);
    b = u64_to_le_bytes(r.BPMeds);
    out.append(&mut b);
    b = u32_to_le_bytes(r.prevalentStroke);
    out.append(&mut b);
    b = u32_to_le_bytes(r.prevalentHyp);
    out.append(&mut b);
    b = u32_to_le_bytes(r.diabetes);
    out.append(&mut b);
    b = u64_to_le_bytes(r.totChol);
    out.append(&mut b);
    b = u64_to_le_bytes(r.sysBP);
    out.append(&mut b);
    b = u64_to_le_bytes(r.diaBP);
    out.append(&mut b);
    b = u64_to_le_bytes(r.BMI);
    out.append(&mut b);
    b = u64_to_le_bytes(r.heartRate);
    out.append(&mut b);
    b = u64_to_le_bytes(r.glucose);
    out.append(&mut b);
    b = u32_to_le_bytes(r.TenYearCHD);
    out.append(&mut b);
    proof {
        lemma_encode_record_len(*r);
        assert(out@ =~= spec_encode_record(*r));
    }
    out
}

/// Decode one record from its fixed 92-byte window.
pub fn decode_record(window: &[u8]) -> (r: Record)
    requires
        window@.len() == RECORD_BYTES,
    ensures
        spec_encode_record(r) == window@,
{
    let r = Record {
        male: u32_from_le_bytes(slice_subrange(window, 0, 4)),
        age: u32_from_le_bytes(slice_subrange(window, 4, 8)),
        currentSmoker: u32_from_le_bytes(slice_subrange(window, 8, 12)),
        cigsPerDay: u64_from_le_bytes(slice_subrange(window, 12, 20)),
        BPMeds: u64_from_le_bytes(slice_subrange(window, 20, 28)),
        prevalentStroke: u32_from_le_bytes(slice_subrange(window, 28, 32)),
        prevalentHyp: u32_from_le_bytes(slice_subrange(window, 32, 36)),
        diabetes: u32_from_le_bytes(slice_subrange(window, 36, 40)),
        totChol: u64_from_le_bytes(slice_subrange(window, 40, 48)),
        sysBP: u64_from_le_bytes(slice_subrange(window, 48, 56)),
        diaBP: u64_from_le_bytes(slice_subrange(window, 56, 64)),
        BMI: u64_from_le_bytes(slice_subrange(window, 64, 72)),
        heartRate: u64_from_le_bytes(slice_subrange(window, 72, 80)),
        glucose: u64_from_le_bytes(slice_subrange(window, 80, 88)),
        TenYearCHD: u32_from_le_bytes(slice_subrange(window, 88, 92)),
    };
    proof {
        lemma_auto_spec_u32_to_from_le_bytes();
        lemma_auto_spec_u64_to_from_le_bytes();
        assert(spec_encode_record(r) =~= window@);
    }
    r
}

/// The concatenation of the encodings of a run of records.
pub open spec fn spec_encode_record_body(rs: Seq<Record>) -> Seq<u8>
    decreases rs.len(),
{
    if rs.len() == 0 {
        Seq::empty()
    } else {
        spec_encode_record(rs[0]) + spec_encode_record_body(rs.drop_first())
    }
}

/// The byte encoding of a record sequence: an 8-byte little-endian
/// count followed by each record's fixed-size encoding in order.
pub open spec fn spec_encode_records(rs: Seq<Record>) -> Seq<u8> {
    spec_u64_to_le_bytes(rs.len() as u64) + spec_encode_record_body(rs)
}

pub proof fn lemma_encode_record_body_len(rs: Seq<Record>)
    ensures
        spec_encode_record_body(rs).len() == RECORD_BYTES * rs.len(),
    decreases rs.len(),
{
    if rs.len() == 0 {
    } else {
        lemma_encode_record_len(rs[0]);
        lemma_encode_record_body_len(rs.drop_first());
    }
}

proof fn lemma_encode_record_body_push(rs: Seq<Record>, r: Record)
    ensures
        spec_encode_record_body(rs.push(r)) == spec_encode_record_body(rs)
            + spec_encode_record(r),
    decreases rs.len(),
{
    if rs.len() == 0 {
        assert(rs.push(r).drop_first() =~= rs);
        assert(spec_encode_record_body(rs.push(r)) =~= spec_encode_record(r));
    } else {
        assert(rs.push(r).drop_first() =~= rs.drop_first().push(r));
        assert(rs.push(r)[0] == rs[0]);
        lemma_encode_record_body_push(rs.drop_first(), r);
        assert(spec_encode_record_body(rs.push(r)) =~= spec_encode_record_body(rs)
            + spec_encode_record(r));
    }
}

/// Encode a record sequence into its serialized payload form.
pub fn encode_records(records: &Vec<Record>) -> (out: Vec<u8>)
    ensures
        out@ == spec_encode_records(records@),
        out@.len() == 8 + RECORD_BYTES * records@.len(),
{
    let mut out: Vec<u8> = u64_to_le_bytes(records.len() as u64);
    let mut i: usize = 0;
    while i < records.len()
        invariant
            i <= records@.len(),
            out@ == spec_u64_to_le_bytes(records@.len() as u64)
                + spec_encode_record_body(records@.take(i as int)),
        decreases records@.len() - i,
    {
        let mut b = encode_record(&records[i]);
        out.append(&mut b);
        proof {
            assert(records@.take(i + 1 as int).drop_last() =~= records@.take(i as int));
            assert(records@.take(i + 1 as int) =~= records@.take(i as int).push(records@[i as int]));
            lemma_encode_record_body_push(records@.take(i as int), records@[i as int]);
            assert(out@ =~= spec_u64_to_le_bytes(records@.len() as u64)
                + spec_encode_record_body(records@.take(i + 1 as int)));
        }
        i += 1;
    }
    proof {
        assert(records@.take(records@.len() as int) =~= records@);
        lemma_auto_spec_u64_to_from_le_bytes();
        lemma_encode_record_body_len(records@);
    }
    out
}

/// Decode a serialized payload back into its record sequence.
///
/// Exactly the payloads produced by `spec_encode_records` decode: the
/// result is `Some(v)` if and only if the bytes are the encoding of
/// some record sequence, and then `v` is that sequence.
pub fn decode_records(bytes: &[u8]) -> (r: Option<Vec<Record>>)
    ensures
        match r {
            Some(v) => bytes@ == spec_encode_records(v@),
            None => forall|rs: Seq<Record>| bytes@ != spec_encode_records(rs),
        },
{
    if bytes.len() < 8 {
        proof {
            assert forall|rs: Seq<Record>| bytes@ != spec_encode_records(rs) by {
                lemma_auto_spec_u64_to_from_le_bytes();
                lemma_encode_record_body_len(rs);
            }
        }
        return None;
    }
    let n64 = u64_from_le_bytes(slice_subrange(bytes, 0, 8));
    let body_len: usize = bytes.len() - 8;
    let n: usize = body_len / 92;
    if body_len % 92 != 0 || (n as u64) != n64 {
        proof {
            assert forall|rs: Seq<Record>| bytes@ != spec_encode_records(rs) by {
                if bytes@ == spec_encode_records(rs) {
                    lemma_auto_spec_u64_to_from_le_bytes();
                    lemma_encode_record_body_len(rs);
                    assert(body_len == RECORD_BYTES * rs.len());
                    assert(rs.len() <= body_len);
                    assert((rs.len() as int * 92) % 92 == 0 && rs.len() as int * 92 / 92
                        == rs.len() as int) by (nonlinear_arith);
                    assert(body_len % 92 == 0);
                    assert(n == rs.len());
                    assert(bytes@.subrange(0, 8) =~= spec_u64_to_le_bytes(rs.len() as u64));
                    assert(n64 == rs.len() as u64);
                }
            }
        }
        return None;
    }
    let mut out: Vec<Record> = Vec::new();
    let mut i: usize = 0;
    proof {
        assert(n * 92 == body_len) by (nonlinear_arith)
            requires
                body_len % 92 == 0,
                n == body_len / 92,
                body_len >= 0,
        ;
    }
    while i < n
        invariant
            i <= n,
            n * 92 == body_len,
            body_len == bytes@.len() - 8,
            out@.len() == i,
            spec_encode_record_body(out@) == bytes@.subrange(8, 8 + 92 * i as int),
        decreases n - i,
    {
        proof {
            assert(92 * (i + 1) <= 92 * n) by (nonlinear_arith)
                requires
                    i < n,
            ;
        }
        let window = slice_subrange(bytes, 8 + i * 92, 8 + (i + 1) * 92);
        let rec = decode_record(window);
        proof {
            lemma_encode_record_body_push(out@, rec);
        }
        out.push(rec);
        proof {
            assert(spec_encode_record_body(out@) =~= bytes@.subrange(8, 8 + 92 * (i + 1 as int)));
        }
        i += 1;
    }
    proof {
        lemma_auto_spec_u64_to_from_le_bytes();
        assert(bytes@.subrange(0, 8) =~= spec_u64_to_le_bytes(n64));
        assert(bytes@ =~= spec_u64_to_le_bytes(out@.len() as u64)
            + spec_encode_record_body(out@));
    }
    Some(out)
}

proof fn lemma_encode_record_body_injective(a: Seq<Record>, b: Seq<Record>)
    requires
        a.len() == b.len(),
        spec_encode_record_body(a) == spec_encode_record_body(b),
    ensures
        a == b,
    decreases a.len(),
{
    if a.len() > 0 {
        lemma_encode_record_len(a[0]);
        lemma_encode_record_len(b[0]);
        lemma_encode_record_body_len(a.drop_first());
        lemma_encode_record_body_len(b.drop_first());
        let ea = spec_encode_record(a[0]);
        let eb = spec_encode_record(b[0]);
        assert(ea =~= spec_encode_record_body(a).subrange(0, RECORD_BYTES as int));
        assert(eb =~= spec_encode_record_body(b).subrange(0, RECORD_BYTES as int));
        lemma_encode_record_injective(a[0], b[0]);
        assert(spec_encode_record_body(a.drop_first()) =~= spec_encode_record_body(a).subrange(
            RECORD_BYTES as int,
            spec_encode_record_body(a).len() as int,
        ));
        assert(spec_encode_record_body(b.drop_first()) =~= spec_encode_record_body(b).subrange(
            RECORD_BYTES as int,
            spec_encode_record_body(b).len() as int,
        ));
        lemma_encode_record_body_injective(a.drop_first(), b.drop_first());
        assert forall|i: int| 0 <= i < a.len() implies a[i] == b[i] by {
            if i > 0 {
                assert(a.drop_first()[i - 1] == b.drop_first()[i - 1]);
            }
        }
        assert(a =~= b);
    } else {
        assert(a =~= b);
    }
}

/// Law: the record codec round-trips.  The encoding determines the
/// record sequence: two sequences with the same serialized payload are
/// the same sequence.  Together with `decode_records`' contract this
/// says that decoding the encoding of any record sequence gives back
/// exactly that sequence.
pub proof fn lemma_records_codec_injective(rs1: Seq<Record>, rs2: Seq<Record>)
    requires
        spec_encode_records(rs1) == spec_encode_records(rs2),
    ensures
        rs1 == rs2,
{
    lemma_auto_spec_u64_to_from_le_bytes();
    lemma_encode_record_body_len(rs1);
    lemma_encode_record_body_len(rs2);
    let e1 = spec_encode_records(rs1);
    let e2 = spec_encode_records(rs2);
    assert(e1 == spec_u64_to_le_bytes(rs1.len() as u64) + spec_encode_record_body(rs1));
    assert(e2 == spec_u64_to_le_bytes(rs2.len() as u64) + spec_encode_record_body(rs2));
    assert(e1.len() == 8 + RECORD_BYTES * rs1.len());
    assert(e2.len() == 8 + RECORD_BYTES * rs2.len());
    assert(rs1.len() == rs2.len());
    assert(spec_encode_record_body(rs1) =~= e1.subrange(8, e1.len() as int));
    assert(spec_encode_record_body(rs2) =~= e2.subrange(8, e2.len() as int));
    lemma_encode_record_body_injective(rs1, rs2);
}

/// The concatenation of the 8-byte encodings of a run of values.
pub open spec fn spec_encode_value_body(vals: Seq<u64>) -> Seq<u8>
    decreases vals.len(),
{
    if vals.len() == 0 {
        Seq::empty()
    } else {
        spec_u64_to_le_bytes(vals[0]) + spec_encode_value_body(vals.drop_first())
    }
}

/// The byte encoding of a flat numeric vector (values carried as 8-byte
/// bit patterns): an 8-byte little-endian count followed by each value.
pub open spec fn spec_encode_vector(vals: Seq<u64>) -> Seq<u8> {
    spec_u64_to_le_bytes(vals.len() as u64) + spec_encode_value_body(vals)
}

pub proof fn lemma_encode_value_body_len(vals: Seq<u64>)
    ensures
        spec_encode_value_body(vals).len() == 8 * vals.len(),
    decreases vals.len(),
{
    if vals.len() == 0 {
    } else {
        lemma_auto_spec_u64_to_from_le_bytes();
        lemma_encode_value_body_len(vals.drop_first());
    }
}

proof fn lemma_encode_value_body_push(vals: Seq<u64>, v: u64)
    ensures
        spec_encode_value_body(vals.push(v)) == spec_encode_value_body(vals)
            + spec_u64_to_le_bytes(v),
    decreases vals.len(),
{
    if vals.len() == 0 {
        assert(vals.push(v).drop_first() =~= vals);
        assert(spec_encode_value_body(vals) =~= Seq::<u8>::empty());
        assert(spec_encode_value_body(vals.push(v)) =~= spec_u64_to_le_bytes(v));
    } else {
        assert(vals.push(v).drop_first() =~= vals.drop_first().push(v));
        assert(vals.push(v)[0] == vals[0]);
        lemma_encode_value_body_push(vals.drop_first(), v);
        assert(spec_encode_value_body(vals.push(v)) =~= spec_encode_value_body(vals)
            + spec_u64_to_le_bytes(v));
    }
}

proof fn lemma_encode_value_body_injective(a: Seq<u64>, b: Seq<u64>)
    requires
        a.len() == b.len(),
        spec_encode_value_body(a) == spec_encode_value_body(b),
    ensures
        a == b,
    decreases a.len(),
{
    if a.len() > 0 {
        lemma_auto_spec_u64_to_from_le_bytes();
        lemma_encode_value_body_len(a.drop_first());
        lemma_encode_value_body_len(b.drop_first());
        let ea = spec_u64_to_le_bytes(a[0]);
        let eb = spec_u64_to_le_bytes(b[0]);
        assert(ea =~= spec_encode_value_body(a).subrange(0, 8));
        assert(eb =~= spec_encode_value_body(b).subrange(0, 8));
        assert(a[0] == b[0]) by {
            assert(spec_u64_from_le_bytes(spec_u64_to_le_bytes(a[0])) == a[0]);
            assert(spec_u64_from_le_bytes(spec_u64_to_le_bytes(b[0])) == b[0]);
        }
        assert(spec_encode_value_body(a.drop_first()) =~= spec_encode_value_body(a).subrange(
            8,
            spec_encode_value_body(a).len() as int,
        ));
        assert(spec_encode_value_body(b.drop_first()) =~= spec_encode_value_body(b).subrange(
            8,
            spec_encode_value_body(b).len() as int,
        ));
        lemma_encode_value_body_injective(a.drop_first(), b.drop_first());
        assert forall|i: int| 0 <= i < a.len() implies a[i] == b[i] by {
            if i > 0 {
                assert(a.drop_first()[i - 1] == b.drop_first()[i - 1]);
            }
        }
        assert(a =~= b);
    } else {
        assert(a =~= b);
    }
}

/// Law: the vector codec round-trips.  The encoding determines the
/// value sequence: two vectors with the same serialized payload are
/// the same vector.  Together with `decode_vector`'s contract this
/// says that decoding the encoding of any vector gives back exactly
/// that vector.
pub proof fn lemma_vector_codec_injective(v1: Seq<u64>, v2: Seq<u64>)
    requires
        spec_encode_vector(v1) == spec_encode_vector(v2),
    ensures
        v1 == v2,
{
    lemma_auto_spec_u64_to_from_le_bytes();
    lemma_encode_value_body_len(v1);
    lemma_encode_value_body_len(v2);
    let e1 = spec_encode_vector(v1);
    let e2 = spec_encode_vector(v2);
    assert(e1 == spec_u64_to_le_bytes(v1.len() as u64) + spec_encode_value_body(v1));
    assert(e2 == spec_u64_to_le_bytes(v2.len() as u64) + spec_encode_value_body(v2));
    assert(e1.len() == 8 + 8 * v1.len());
    assert(e2.len() == 8 + 8 * v2.len());
    assert(v1.len() == v2.len());
    assert(spec_encode_value_body(v1) =~= e1.subrange(8, e1.len() as int));
    assert(spec_encode_value_body(v2) =~= e2.subrange(8, e2.len() as int));
    lemma_encode_value_body_injective(v1, v2);
}

/// Encode a flat numeric vector into its serialized payload form.
pub fn encode_vector(vals: &Vec<u64>) -> (out: Vec<u8>)
    ensures
        out@ == spec_encode_vector(vals@),
        out@.len() == 8 + 8 * vals@.len(),
{
    let mut out: Vec<u8> = u64_to_le_bytes(vals.len() as u64);
    let mut i: usize = 0;
    while i < vals.len()
        invariant
            i <= vals@.len(),
            out@ == spec_u64_to_le_bytes(vals@.len() as u64)
                + spec_encode_value_body(vals@.take(i as int)),
        decreases vals@.len() - i,
    {
        proof {
            lemma_encode_value_body_push(vals@.take(i as int), vals@[i as int]);
        }
        let mut b = u64_to_le_bytes(vals[i]);
        out.append(&mut b);
        proof {
            assert(vals@.take(i + 1 as int) =~= vals@.take(i as int).push(vals@[i as int]));
            assert(out@ =~= spec_u64_to_le_bytes(vals@.len() as u64)
                + spec_encode_value_body(vals@.take(i + 1 as int)));
        }
        i += 1;
    }
    proof {
        assert(vals@.take(vals@.len() as int) =~= vals@);
        lemma_auto_spec_u64_to_from_le_bytes();
        lemma_encode_value_body_len(vals@);
    }
    out
}

/// Decode a serialized payload back into its flat numeric vector.
///
/// Exactly the payloads produced by `spec_encode_vector` decode: the
/// result is `Some(v)` if and only if the bytes are the encoding of
/// some vector, and then `v` is that vector.
pub fn decode_vector(bytes: &[u8]) -> (r: Option<Vec<u64>>)
    ensures
        match r {
            Some(v) => bytes@ == spec_encode_vector(v@),
            None => forall|vals: Seq<u64>| bytes@ != spec_encode_vector(vals),
        },
{
    if bytes.len() < 8 {
        proof {
            assert forall|vals: Seq<u64>| bytes@ != spec_encode_vector(vals) by {
                lemma_auto_spec_u64_to_from_le_bytes();
                lemma_encode_value_body_len(vals);
            }
        }
        return None;
    }
    let n64 = u64_from_le_bytes(slice_subrange(bytes, 0, 8));
    let body_len: usize = bytes.len() - 8;
    let n: usize = body_len / 8;
    if body_len % 8 != 0 || (n as u64) != n64 {
        proof {
            assert forall|vals: Seq<u64>| bytes@ != spec_encode_vector(vals) by {
                if bytes@ == spec_encode_vector(vals) {
                    lemma_auto_spec_u64_to_from_le_bytes();
                    lemma_encode_value_body_len(vals);
                    assert(body_len == 8 * vals.len());
                    assert((vals.len() as int * 8) % 8 == 0 && vals.len() as int * 8 / 8
                        == vals.len() as int) by (nonlinear_arith);
                    assert(body_len % 8 == 0);
                    assert(n == vals.len());
                    assert(bytes@.subrange(0, 8) =~= spec_u64_to_le_bytes(vals.len() as u64));
                    assert(n64 == vals.len() as u64);
                }
            }
        }
        return None;
    }
    let mut out: Vec<u64> = Vec::new();
    let mut i: usize = 0;
    proof {
        assert(n * 8 == body_len) by (nonlinear_arith)
            requires
                body_len % 8 == 0,
                n == body_len / 8,
                body_len >= 0,
        ;
    }
    while i < n
        invariant
            i <= n,
            n * 8 == body_len,
            body_len == bytes@.len() - 8,
            8 + body_len <= usize::MAX,
            out@.len() == i,
            spec_encode_value_body(out@) == bytes@.subrange(8, 8 + 8 * i as int),
        decreases n - i,
    {
        proof {
            assert(8 * (i + 1) <= 8 * n) by (nonlinear_arith)
                requires
                    i < n,
            ;
        }
        let v = u64_from_le_bytes(slice_subrange(bytes, 8 + i * 8, 8 + (i + 1) * 8));
        proof {
            lemma_auto_spec_u64_to_from_le_bytes();
            assert(spec_u64_to_le_bytes(v) == bytes@.subrange(8 + i * 8, 8 + (i + 1) * 8 as int));
            lemma_encode_value_body_push(out@, v);
        }
        out.push(v);
        proof {
            assert(spec_encode_value_body(out@) =~= bytes@.subrange(8, 8 + 8 * (i + 1 as int)));
        }
        i += 1;
    }
    proof {
        lemma_auto_spec_u64_to_from_le_bytes();
        assert(bytes@.subrange(0, 8) =~= spec_u64_to_le_bytes(n64));
        assert(bytes@ =~= spec_u64_to_le_bytes(out@.len() as u64)
            + spec_encode_value_body(out@));
    }
    Some(out)
}

} // verus!
