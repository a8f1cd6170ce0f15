use vstd::prelude::*;
use vstd::slice::slice_subrange;

verus! {

/// Largest number of payload bytes one protocol message carries.
pub const CHUNK_SIZE: usize = 1024;

/// The bytes of a run of chunks, joined in order.
pub open spec fn spec_concat_chunks(chunks: Seq<Seq<u8>>) -> Seq<u8>
    decreases chunks.len(),
{
    if chunks.len() == 0 {
        Seq::empty()
    } else {
        chunks[0] + spec_concat_chunks(chunks.drop_first())
    }
}

pub proof fn lemma_concat_chunks_push(chunks: Seq<Seq<u8>>, c: Seq<u8>)
    ensures
        spec_concat_chunks(chunks.push(c)) == spec_concat_chunks(chunks) + c,
    decreases chunks.len(),
{
    if chunks.len() == 0 {
        assert(chunks.push(c).drop_first() =~= chunks);
        assert(spec_concat_chunks(chunks) =~= Seq::<u8>::empty());
        assert(spec_concat_chunks(chunks.push(c)) =~= c);
    } else {
        assert(chunks.push(c).drop_first() =~= chunks.drop_first().push(c));
        assert(chunks.push(c)[0] == chunks[0]);
        lemma_concat_chunks_push(chunks.drop_first(), c);
        assert(spec_concat_chunks(chunks.push(c)) =~= spec_concat_chunks(chunks) + c);
    }
}

/// The view of a vector of chunk vectors, as a sequence of byte
/// sequences.
pub open spec fn chunk_views(chunks: Seq<Vec<u8>>) -> Seq<Seq<u8>> {
    chunks.map_values(|c: Vec<u8>| c@)
}

/// Every chunk holds between 1 and `CHUNK_SIZE` bytes.
pub open spec fn chunks_well_sized(chunks: Seq<Seq<u8>>) -> bool {
    forall|i: int| 0 <= i < chunks.len() ==> 0 < #[trigger] chunks[i].len() <= CHUNK_SIZE
}

/// Split a payload into successive chunks: joining the chunks in order
/// gives back exactly the payload, every chunk is non-empty and at most
/// `CHUNK_SIZE` bytes, and every chunk but the last holds exactly
/// `CHUNK_SIZE` bytes.  An empty payload yields no chunks.
pub fn split_into_chunks(payload: &[u8]) -> (chunks: Vec<Vec<u8>>)
    ensures
        spec_concat_chunks(chunk_views(chunks@)) == payload@,
        chunks_well_sized(chunk_views(chunks@)),
        forall|i: int|
            0 <= i < chunks@.len() - 1 ==> #[trigger] chunks@[i]@.len() == CHUNK_SIZE,
        chunks@.len() == 0 <==> payload@.len() == 0,
{
    let plen: usize = payload.len();
    let mut chunks: Vec<Vec<u8>> = Vec::new();
    let mut pos: usize = 0;
    while pos < plen
        invariant
            plen == payload@.len(),
            pos <= plen,
            spec_concat_chunks(chunk_views(chunks@)) == payload@.subrange(0, pos as int),
            chunks_well_sized(chunk_views(chunks@)),
            pos < plen ==> forall|i: int|
                0 <= i < chunks@.len() ==> #[trigger] chunks@[i]@.len() == CHUNK_SIZE,
            forall|i: int|
                0 <= i < chunks@.len() - 1 ==> #[trigger] chunks@[i]@.len() == CHUNK_SIZE,
            chunks@.len() == 0 ==> pos == 0,
        decreases plen - pos,
    {
        let next: usize = if plen - pos < CHUNK_SIZE {
            plen
        } else {
            pos + CHUNK_SIZE
        };
        let piece = slice_subrange(payload, pos, next);
        let mut chunk: Vec<u8> = Vec::new();
        chunk.extend_from_slice(piece);
        proof {
            assert(chunk@ =~= payload@.subrange(pos as int, next as int));
            lemma_concat_chunks_push(chunk_views(chunks@), chunk@);
            assert(chunk_views(chunks@.push(chunk)) =~= chunk_views(chunks@).push(chunk@));
        }
        chunks.push(chunk);
        proof {
            assert(spec_concat_chunks(chunk_views(chunks@)) =~= payload@.subrange(0, next as int));
        }
        pos = next;
    }
    proof {
        assert(payload@.subrange(0, payload@.len() as int) =~= payload@);
    }
    chunks
}

/// Join a run of chunks back into one payload, in order.
pub fn reassemble_chunks(chunks: &Vec<Vec<u8>>) -> (payload: Vec<u8>)
    ensures
        payload@ == spec_concat_chunks(chunk_views(chunks@)),
{
    let mut payload: Vec<u8> = Vec::new();
    let mut i: usize = 0;
    while i < chunks.len()
        invariant
            i <= chunks@.len(),
            payload@ == spec_concat_chunks(chunk_views(chunks@).take(i as int)),
        decreases chunks@.len() - i,
    {
        proof {
            lemma_concat_chunks_push(chunk_views(chunks@).take(i as int), chunks@[i as int]@);
            assert(chunk_views(chunks@).take(i + 1 as int) =~= chunk_views(chunks@).take(
                i as int,
            ).push(chunks@[i as int]@));
        }
        payload.extend_from_slice(chunks[i].as_slice());
        proof {
            assert(payload@ =~= spec_concat_chunks(chunk_views(chunks@).take(i + 1 as int)));
        }
        i += 1;
    }
    proof {
        assert(chunk_views(chunks@).take(chunks@.len() as int) =~= chunk_views(chunks@));
    }
    payload
}

} // verus!
