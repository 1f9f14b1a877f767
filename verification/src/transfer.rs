//! Streamed transfers: a file moves as a sequence of fixed-size chunks,
//! 8 KiB each, rather than as one buffer. The chunking is lossless:
//! reassembling the chunks gives back exactly the original bytes, however
//! many chunks the content spans.

use vstd::prelude::*;

verus! {

/// The fixed transfer chunk size: 8 KiB.
pub const CHUNK_SIZE: usize = 8192;

/// The chunks a byte sequence is streamed as: full chunks of `CHUNK_SIZE`
/// bytes, with whatever remains as the final, shorter chunk. Empty content
/// is streamed as no chunks at all.
pub open spec fn chunks_of(data: Seq<u8>) -> Seq<Seq<u8>>
    decreases data.len(),
{
    if data.len() == 0 {
        Seq::empty()
    } else if data.len() <= CHUNK_SIZE {
        seq![data]
    } else {
        seq![data.take(CHUNK_SIZE as int)] + chunks_of(data.skip(CHUNK_SIZE as int))
    }
}

/// The bytes a sequence of chunks reassembles into, in order.
pub open spec fn concat_chunks(cs: Seq<Seq<u8>>) -> Seq<u8>
    decreases cs.len(),
{
    if cs.len() == 0 {
        Seq::empty()
    } else {
        cs[0] + concat_chunks(cs.drop_first())
    }
}

/// Chunked streaming is lossless: reassembling the chunks of any content
/// gives back exactly that content, in particular across content spanning
/// several chunks.
pub proof fn lemma_chunks_lossless(data: Seq<u8>)
    ensures
        concat_chunks(chunks_of(data)) == data,
    decreases data.len(),
{
    if data.len() == 0 {
        assert(concat_chunks(chunks_of(data)) =~= data);
    } else if data.len() <= CHUNK_SIZE {
        assert(seq![data].drop_first() =~= Seq::<Seq<u8>>::empty());
        assert(concat_chunks(Seq::<Seq<u8>>::empty()) == Seq::<u8>::empty());
        assert(seq![data][0] == data);
        assert(concat_chunks(chunks_of(data)) =~= data);
    } else {
        let head = data.take(CHUNK_SIZE as int);
        let tail = data.skip(CHUNK_SIZE as int);
        lemma_chunks_lossless(tail);
        assert((seq![head] + chunks_of(tail)).drop_first() =~= chunks_of(tail));
        assert((seq![head] + chunks_of(tail))[0] == head);
        assert(concat_chunks(chunks_of(data)) =~= data);
    }
}

/// No chunk is empty and none exceeds the fixed size.
pub proof fn lemma_chunk_sizes(data: Seq<u8>)
    ensures
        forall|i: int|
            0 <= i < chunks_of(data).len() ==> 0 < (#[trigger] chunks_of(data)[i]).len()
                <= CHUNK_SIZE,
    decreases data.len(),
{
    if data.len() == 0 {
    } else if data.len() <= CHUNK_SIZE {
        assert(chunks_of(data)[0] == data);
    } else {
        lemma_chunk_sizes(data.skip(CHUNK_SIZE as int));
        let head = data.take(CHUNK_SIZE as int);
        let tail = data.skip(CHUNK_SIZE as int);
        assert forall|i: int|
            0 <= i < chunks_of(data).len() implies 0 < (#[trigger] chunks_of(data)[i]).len()
            <= CHUNK_SIZE by {
            if i == 0 {
                assert(chunks_of(data)[0] == head);
            } else {
                assert(chunks_of(data)[i] == chunks_of(tail)[i - 1]);
            }
        }
    }
}

/// The views of a sequence of owned chunks.
pub open spec fn chunk_views(cs: Seq<Vec<u8>>) -> Seq<Seq<u8>> {
    cs.map_values(|c: Vec<u8>| c@)
}

/// Appending one chunk appends exactly its bytes to the reassembly.
proof fn lemma_concat_chunks_snoc(cs: Seq<Seq<u8>>, c: Seq<u8>)
    ensures
        concat_chunks(cs.push(c)) == concat_chunks(cs) + c,
    decreases cs.len(),
{
    if cs.len() == 0 {
        assert(cs.push(c)[0] == c);
        assert(cs.push(c).drop_first() =~= Seq::<Seq<u8>>::empty());
        assert(concat_chunks(Seq::<Seq<u8>>::empty()) == Seq::<u8>::empty());
        assert(concat_chunks(cs.push(c)) =~= concat_chunks(cs) + c);
    } else {
        lemma_concat_chunks_snoc(cs.drop_first(), c);
        assert(cs.push(c)[0] == cs[0]);
        assert(cs.push(c).drop_first() =~= cs.drop_first().push(c));
        assert(concat_chunks(cs.push(c)) =~= concat_chunks(cs) + c);
    }
}

/// Cut content into the chunks it is streamed as.
pub fn split_chunks(data: &Vec<u8>) -> (cs: Vec<Vec<u8>>)
    ensures
        chunk_views(cs@) == chunks_of(data@),
{
    let n = data.len();
    let mut cs: Vec<Vec<u8>> = Vec::new();
    let mut i: usize = 0;
    proof {
        assert(data@.skip(0) =~= data@);
        assert(chunk_views(cs@) + chunks_of(data@.skip(0)) =~= chunks_of(data@));
    }
    while i < n
        invariant
            i <= n,
            n == data@.len(),
            chunk_views(cs@) + chunks_of(data@.skip(i as int)) =~= chunks_of(data@),
        decreases n - i,
    {
        let end = if n - i < CHUNK_SIZE {
            n
        } else {
            i + CHUNK_SIZE
        };
        let mut chunk: Vec<u8> = Vec::new();
        let mut j: usize = i;
        while j < end
            invariant
                i <= j <= end <= n,
                n == data@.len(),
                chunk@ =~= data@.subrange(i as int, j as int),
            decreases end - j,
        {
            chunk.push(data[j]);
            j = j + 1;
        }
        let ghost prev = cs@;
        let ghost rest = data@.skip(i as int);
        cs.push(chunk);
        proof {
            assert(chunk_views(cs@) =~= chunk_views(prev).push(chunk@));
            assert(rest.len() == n - i);
            if rest.len() <= CHUNK_SIZE {
                assert(end == n);
                assert(chunk@ =~= rest);
                assert(data@.skip(end as int) =~= Seq::<u8>::empty());
                assert(chunks_of(rest) == seq![rest]);
                assert(chunk_views(cs@) + chunks_of(data@.skip(end as int)) =~= chunks_of(data@));
            } else {
                assert(end == i + CHUNK_SIZE);
                assert(chunk@ =~= rest.take(CHUNK_SIZE as int));
                assert(rest.skip(CHUNK_SIZE as int) =~= data@.skip(end as int));
                assert(chunks_of(rest) == seq![rest.take(CHUNK_SIZE as int)] + chunks_of(
                    data@.skip(end as int),
                ));
                assert(chunk_views(cs@) + chunks_of(data@.skip(end as int)) =~= chunks_of(data@));
            }
        }
        i = end;
    }
    proof {
        assert(data@.skip(n as int) =~= Seq::<u8>::empty());
        assert(chunk_views(cs@) =~= chunks_of(data@));
    }
    cs
}

/// Reassemble received chunks into the transferred content.
pub fn join_chunks(cs: &Vec<Vec<u8>>) -> (data: Vec<u8>)
    ensures
        data@ == concat_chunks(chunk_views(cs@)),
{
    let mut data: Vec<u8> = Vec::new();
    let mut i: usize = 0;
    proof {
        assert(chunk_views(cs@).take(0) =~= Seq::<Seq<u8>>::empty());
        assert(data@ =~= concat_chunks(chunk_views(cs@).take(0)));
    }
    while i < cs.len()
        invariant
            i <= cs@.len(),
            data@ =~= concat_chunks(chunk_views(cs@).take(i as int)),
        decreases cs@.len() - i,
    {
        let chunk = &cs[i];
        let mut j: usize = 0;
        let ghost prev = data@;
        while j < chunk.len()
            invariant
                j <= chunk@.len(),
                chunk == &cs@[i as int],
                i < cs@.len(),
                data@ =~= prev + chunk@.take(j as int),
            decreases chunk@.len() - j,
        {
            data.push(chunk[j]);
            j = j + 1;
        }
        proof {
            assert(chunk@.take(chunk@.len() as int) =~= chunk@);
            lemma_concat_chunks_snoc(chunk_views(cs@).take(i as int), chunk@);
            assert(chunk_views(cs@).take(i + 1) =~= chunk_views(cs@).take(i as int).push(chunk@));
            assert(data@ =~= concat_chunks(chunk_views(cs@).take(i + 1)));
        }
        i = i + 1;
    }
    proof {
        assert(chunk_views(cs@).take(cs@.len() as int) =~= chunk_views(cs@));
    }
    data
}

} // verus!
