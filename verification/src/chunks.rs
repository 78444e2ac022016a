//! The chunked-transfer codec: a serialized collection is carried across a
//! transport with a bounded per-call payload by slicing the byte string into
//! chunks of at most `max_bytes_per_chunk` bytes; the receiver concatenates
//! chunks `0..=last` and deserializes once. Below the bound the whole byte
//! string travels as the single chunk `(0, 0)`.
//!
//! The codec is stateless per logical read: the byte string handed to
//! [`get_chunked_data`] must be identical across all chunk requests of one
//! read (no mutation may occur between the first fetch and the last), which
//! is the caller's obligation — the receiving side fetches chunk `0` first
//! precisely to learn `last` before requesting the rest.

use vstd::prelude::*;

verus! {

/// The index of the last chunk of a byte string of length `len` at chunk
/// size `max`.
pub open spec fn spec_last_chunk(len: int, max: int) -> int
    recommends
        max >= 1,
{
    if len < max {
        0
    } else {
        len / max
    }
}

/// The byte range of chunk `chunk`: from `chunk * max` up to the smaller of
/// `(chunk + 1) * max` and the length; below the bound the whole string.
pub open spec fn spec_chunk_bytes(b: Seq<u8>, chunk: int, max: int) -> Seq<u8>
    recommends
        max >= 1,
        0 <= chunk <= spec_last_chunk(b.len() as int, max),
{
    if b.len() < max {
        b
    } else {
        let start = chunk * max;
        if (chunk + 1) * max <= b.len() {
            b.subrange(start, start + max)
        } else {
            b.subrange(start, b.len() as int)
        }
    }
}

/// The concatenation of a received chunk list, in order.
pub open spec fn spec_concat_bytes(chunks: Seq<Vec<u8>>) -> Seq<u8>
    decreases chunks.len(),
{
    if chunks.len() == 0 {
        Seq::<u8>::empty()
    } else {
        spec_concat_bytes(chunks.drop_last()) + chunks.last()@
    }
}

/// One chunk of a serialized collection, with `(chunk, last_chunk)`. Below
/// the bound the answer is the whole byte string as `(0, 0)`; a request past
/// the last chunk yields an empty payload. The byte string must be the same
/// on every call of one logical read.
#[verifier::loop_isolation(false)]
pub fn get_chunked_data(serialized: Vec<u8>, chunk: usize, max_bytes_per_chunk: usize) -> (r: (
    Vec<u8>,
    (usize, usize),
))
    requires
        max_bytes_per_chunk >= 1,
    ensures
        r.1.1 == spec_last_chunk(serialized@.len() as int, max_bytes_per_chunk as int),
        r.1.0 == (if serialized@.len() < max_bytes_per_chunk {
            0int
        } else {
            chunk as int
        }),
        (serialized@.len() < max_bytes_per_chunk || chunk <= r.1.1) ==> r.0@
            == spec_chunk_bytes(serialized@, chunk as int, max_bytes_per_chunk as int),
        (serialized@.len() >= max_bytes_per_chunk && chunk > r.1.1) ==> r.0@ == Seq::<
            u8,
        >::empty(),
{
    let ghost b = serialized@;
    let mut serialized = serialized;
    let len = serialized.len();
    let max = max_bytes_per_chunk;
    if len < max {
        return (serialized, (0, 0));
    }
    let last: usize = len / max;
    if chunk > last {
        let empty: Vec<u8> = Vec::new();
        return (empty, (chunk, last));
    }
    proof {
        assert(chunk * max <= len) by (nonlinear_arith)
            requires
                max >= 1,
                0 <= chunk <= len as int / max as int,
                len >= max,
        ;
    }
    let start: usize = chunk * max;
    let remaining: usize = len - start;
    let take: usize = if max < remaining {
        max
    } else {
        remaining
    };
    let mut rest = serialized.split_off(start);
    rest.truncate(take);
    proof {
        let c = chunk as int;
        let m = max as int;
        let n = b.len() as int;
        assert((c + 1) * m == c * m + m) by (nonlinear_arith);
        if (c + 1) * m <= n {
            assert(rest@ =~= b.subrange(c * m, c * m + m));
        } else {
            assert(rest@ =~= b.subrange(c * m, n));
        }
    }
    (rest, (chunk, last))
}

/// Concatenates received chunks in order.
#[verifier::loop_isolation(false)]
pub fn join_chunks(chunks: Vec<Vec<u8>>) -> (r: Vec<u8>)
    ensures
        r@ == spec_concat_bytes(chunks@),
{
    let ghost orig = chunks@;
    let mut chunks = chunks;
    let mut out: Vec<u8> = Vec::new();
    while chunks.len() > 0
        invariant
            chunks@.len() <= orig.len(),
            orig.subrange(orig.len() - chunks@.len(), orig.len() as int) == chunks@,
            out@ == spec_concat_bytes(orig.subrange(0, orig.len() - chunks@.len())),
        decreases chunks@.len(),
    {
        let ghost k = orig.len() - chunks@.len();
        let mut c = chunks.remove(0);
        proof {
            assert(c == orig[k]);
            assert(orig.subrange(k + 1, orig.len() as int) =~= chunks@);
            let pre = orig.subrange(0, k);
            let cur = orig.subrange(0, k + 1);
            assert(cur.drop_last() =~= pre);
            assert(cur.last() == c);
        }
        out.append(&mut c);
    }
    proof {
        assert(orig.subrange(0, orig.len() as int) =~= orig);
    }
    out
}

/// The join of chunks `0..=upto`, as the receiver accumulates them.
pub open spec fn spec_join_prefix(b: Seq<u8>, max: int, upto: int) -> Seq<u8>
    decreases upto + 1,
{
    if upto < 0 {
        Seq::<u8>::empty()
    } else {
        spec_join_prefix(b, max, upto - 1) + spec_chunk_bytes(b, upto, max)
    }
}

/// Joining chunks `0..=k` of a byte string at least as long as one chunk
/// yields its first `min((k + 1) * max, len)` bytes.
proof fn lemma_join_prefix(b: Seq<u8>, max: int, upto: int)
    requires
        max >= 1,
        b.len() >= max,
        0 <= upto <= spec_last_chunk(b.len() as int, max),
    ensures
        spec_join_prefix(b, max, upto) == if (upto + 1) * max <= b.len() {
            b.subrange(0, (upto + 1) * max)
        } else {
            b.subrange(0, b.len() as int)
        },
    decreases upto,
{
    let n = b.len() as int;
    if upto == 0 {
        assert(spec_join_prefix(b, max, -1) == Seq::<u8>::empty());
        assert((0 + 1) * max == max) by (nonlinear_arith);
        assert(Seq::<u8>::empty() + spec_chunk_bytes(b, 0, max) =~= spec_chunk_bytes(b, 0, max));
        assert(0 * max == 0) by (nonlinear_arith);
    } else {
        lemma_join_prefix(b, max, upto - 1);
        assert(upto * max <= n) by (nonlinear_arith)
            requires
                max >= 1,
                n >= max,
                1 <= upto <= n / max,
        ;
        assert((upto + 1) * max == upto * max + max) by (nonlinear_arith);
        if (upto + 1) * max <= n {
            assert(b.subrange(0, upto * max) + b.subrange(upto * max, upto * max + max) =~= b
                .subrange(0, (upto + 1) * max));
        } else {
            assert(b.subrange(0, upto * max) + b.subrange(upto * max, n) =~= b.subrange(0, n));
        }
    }
}

/// Round trip of the chunk protocol: a chunk list whose entries are exactly
/// chunks `0` through `last` of one byte string concatenates back to that
/// byte string — for any chunk size of at least one byte, any length, and in
/// particular for the single-chunk `(0, 0)` case below the bound.
pub proof fn lemma_chunk_round_trip(b: Seq<u8>, max: int, chunks: Seq<Vec<u8>>)
    requires
        max >= 1,
        chunks.len() == spec_last_chunk(b.len() as int, max) + 1,
        forall|i: int| 0 <= i < chunks.len() ==> (#[trigger] chunks[i])@ == spec_chunk_bytes(
            b,
            i,
            max,
        ),
    ensures
        spec_concat_bytes(chunks) == b,
{
    let last = spec_last_chunk(b.len() as int, max);
    lemma_concat_is_join_prefix(b, max, chunks, chunks.len() as int);
    assert(chunks.subrange(0, chunks.len() as int) =~= chunks);
    if b.len() < max {
        assert(spec_join_prefix(b, max, -1) == Seq::<u8>::empty());
        assert(spec_join_prefix(b, max, 0) == spec_join_prefix(b, max, -1) + spec_chunk_bytes(
            b,
            0,
            max,
        ));
        assert(spec_chunk_bytes(b, 0, max) == b);
        assert(Seq::<u8>::empty() + b =~= b);
    } else {
        lemma_join_prefix(b, max, last);
        let n = b.len() as int;
        assert((last + 1) * max > n) by (nonlinear_arith)
            requires
                max >= 1,
                n >= max,
                last == n / max,
        ;
        assert(b.subrange(0, n) =~= b);
    }
}

/// The concatenation of the first `k` entries of a faithful chunk list is
/// the join of chunks `0..k`.
proof fn lemma_concat_is_join_prefix(b: Seq<u8>, max: int, chunks: Seq<Vec<u8>>, k: int)
    requires
        max >= 1,
        0 <= k <= chunks.len(),
        forall|i: int| 0 <= i < chunks.len() ==> (#[trigger] chunks[i])@ == spec_chunk_bytes(
            b,
            i,
            max,
        ),
    ensures
        spec_concat_bytes(chunks.subrange(0, k)) == spec_join_prefix(b, max, k - 1),
    decreases k,
{
    if k == 0 {
        assert(chunks.subrange(0, 0) =~= Seq::<Vec<u8>>::empty());
    } else {
        lemma_concat_is_join_prefix(b, max, chunks, k - 1);
        let cur = chunks.subrange(0, k);
        assert(cur.drop_last() =~= chunks.subrange(0, k - 1));
        assert(cur.last() == chunks[k - 1]);
    }
}

} // verus!
