use vstd::prelude::*;
use crate::chunks::{
    chunk_views, chunks_well_sized, spec_concat_chunks, split_into_chunks, CHUNK_SIZE,
};
use crate::integrity::{chunk_digest, spec_chunk_digest, spec_transfer_mac, transfer_mac};
use crate::names::{is_csv_name, is_txt_name, spec_is_csv_name, spec_is_txt_name};

verus! {

/// The purpose a payload is uploaded for.
#[derive(Clone, Copy, PartialEq, Eq, Structural, Debug)]
pub enum Purpose {
    /// A training dataset (tabular records).
    Training,
    /// A prediction dataset (tabular records).
    Prediction,
    /// Model coefficients (a flat numeric vector).
    Coefficients,
}

/// Why an upload was refused before any message was prepared.
#[derive(Clone, Copy, PartialEq, Eq, Structural, Debug)]
pub enum UploadError {
    /// Training and prediction data must come in a `.csv` file.
    ExpectedCsv,
    /// Model coefficients must come in a `.txt` file.
    ExpectedTxt,
}

/// One chunk-phase message: the chunk's bytes and their digest.
#[derive(Debug)]
pub struct ChunkMessage {
    pub content: Vec<u8>,
    pub digest: Vec<u8>,
}

/// Everything the three-phase upload sends, computed up front: the
/// priming flags, each chunk message with its digest, and the keyed
/// MAC over the whole payload for the finishing message.
#[derive(Debug)]
pub struct UploadPlan {
    /// Priming flag: the payload is a training dataset.
    pub train_flag: bool,
    /// Priming flag: the payload is a coefficients file (`.txt` name).
    pub coefs_flag: bool,
    /// The chunk messages, in sending order.
    pub chunks: Vec<ChunkMessage>,
    /// The keyed MAC over the entire payload.
    pub mac: Vec<u8>,
}

/// The chunk contents of a plan, in order.
pub open spec fn plan_contents(msgs: Seq<ChunkMessage>) -> Seq<Seq<u8>> {
    msgs.map_values(|m: ChunkMessage| m.content@)
}

/// Plan an upload: refuse filenames whose extension does not fit the
/// purpose before anything is prepared, otherwise split the payload
/// into chunks, digest each, and compute the whole-payload MAC.
///
/// On success the chunk contents joined in order are exactly the
/// payload, every digest is the digest of its chunk, and the MAC is
/// the keyed MAC of the whole payload under `key`.
pub fn plan_upload(purpose: Purpose, filename: &Vec<u8>, payload: &Vec<u8>, key: &Vec<u8>) -> (r:
    Result<UploadPlan, UploadError>)
    ensures
        match r {
            Ok(plan) => {
                &&& (purpose == Purpose::Training || purpose == Purpose::Prediction)
                    ==> spec_is_csv_name(filename@)
                &&& purpose == Purpose::Coefficients ==> spec_is_txt_name(filename@)
                &&& plan.train_flag == (purpose == Purpose::Training)
                &&& plan.coefs_flag == spec_is_txt_name(filename@)
                &&& spec_concat_chunks(plan_contents(plan.chunks@)) == payload@
                &&& chunks_well_sized(plan_contents(plan.chunks@))
                &&& forall|i: int|
                    0 <= i < plan.chunks@.len() - 1 ==> #[trigger] plan.chunks@[i].content@.len()
                        == CHUNK_SIZE
                &&& forall|i: int|
                    0 <= i < plan.chunks@.len() ==> #[trigger] plan.chunks@[i].digest@
                        == spec_chunk_digest(plan.chunks@[i].content@)
                &&& plan.mac@ == spec_transfer_mac(key@, payload@)
                &&& (plan.chunks@.len() == 0 <==> payload@.len() == 0)
            },
            Err(e) => {
                &&& e == UploadError::ExpectedCsv ==> (purpose == Purpose::Training || purpose
                    == Purpose::Prediction) && !spec_is_csv_name(filename@)
                &&& e == UploadError::ExpectedTxt ==> purpose == Purpose::Coefficients
                    && !spec_is_txt_name(filename@)
            },
        },
        r is Err <==> ((purpose == Purpose::Training || purpose == Purpose::Prediction)
            && !spec_is_csv_name(filename@)) || (purpose == Purpose::Coefficients
            && !spec_is_txt_name(filename@)),
{
    match purpose {
        Purpose::Training | Purpose::Prediction => {
            if !is_csv_name(filename.as_slice()) {
                return Err(UploadError::ExpectedCsv);
            }
        },
        Purpose::Coefficients => {
            if !is_txt_name(filename.as_slice()) {
                return Err(UploadError::ExpectedTxt);
            }
        },
    }
    let raw_chunks = split_into_chunks(payload.as_slice());
    let mut msgs: Vec<ChunkMessage> = Vec::new();
    let mut i: usize = 0;
    while i < raw_chunks.len()
        invariant
            i <= raw_chunks@.len(),
            msgs@.len() == i,
            plan_contents(msgs@) == chunk_views(raw_chunks@).take(i as int),
            forall|j: int|
                0 <= j < i ==> #[trigger] msgs@[j].digest@ == spec_chunk_digest(msgs@[j].content@),
        decreases raw_chunks@.len() - i,
    {
        let content = raw_chunks[i].clone();
        proof {
            assert(content@ =~= raw_chunks@[i as int]@);
        }
        let digest = chunk_digest(content.as_slice());
        msgs.push(ChunkMessage { content, digest });
        proof {
            assert(plan_contents(msgs@) =~= chunk_views(raw_chunks@).take(i + 1 as int));
        }
        i += 1;
    }
    proof {
        assert(chunk_views(raw_chunks@).take(raw_chunks@.len() as int) =~= chunk_views(
            raw_chunks@,
        ));
        assert forall|j: int| 0 <= j < msgs@.len() - 1 implies #[trigger] msgs@[j].content@.len()
            == CHUNK_SIZE by {
            assert(plan_contents(msgs@)[j] == msgs@[j].content@);
            assert(chunk_views(raw_chunks@)[j] == raw_chunks@[j]@);
        }
    }
    let mac = transfer_mac(key.as_slice(), payload.as_slice());
    let train_flag = matches!(purpose, Purpose::Training);
    let coefs_flag = is_txt_name(filename.as_slice());
    Ok(UploadPlan { train_flag, coefs_flag, chunks: msgs, mac })
}

} // verus!
