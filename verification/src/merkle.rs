//! The structural-digest engine: packing bytes into 32-byte chunks,
//! merkleizing a chunk list into a single root, and mixing a length into
//! a root. Every envelope digest and signing root is built from these.

use vstd::prelude::*;
use vstd::assert_seqs_equal;
use crate::crypto::{sha256, sha256_of};

verus! {

/// The views of a list of byte vectors, as a sequence of byte sequences.
pub open spec fn views(s: Seq<Vec<u8>>) -> Seq<Seq<u8>> {
    Seq::new(s.len(), |i: int| s[i]@)
}

/// The all-zero chunk used to pad incomplete trees.
pub open spec fn zero_chunk() -> Seq<u8> {
    Seq::new(32, |i: int| 0u8)
}

/// The parent of two 32-byte nodes: the digest of their concatenation.
pub open spec fn hash_pair(a: Seq<u8>, b: Seq<u8>) -> Seq<u8> {
    sha256_of(a + b)
}

/// A 64-bit value packed little-endian into a 32-byte chunk.
pub open spec fn u64_chunk(x: u64) -> Seq<u8> {
    vstd::bytes::spec_u64_to_le_bytes(x) + Seq::new(24, |i: int| 0u8)
}

/// A partial chunk padded with zeroes up to 32 bytes.
pub open spec fn pad32(s: Seq<u8>) -> Seq<u8>
    recommends
        s.len() <= 32,
{
    s + Seq::new((32 - s.len()) as nat, |i: int| 0u8)
}

/// `data` split into 32-byte chunks, the last padded with zeroes.
pub open spec fn pack_chunks(data: Seq<u8>) -> Seq<Seq<u8>> {
    Seq::new(
        ((data.len() + 31) / 32) as nat,
        |i: int|
            pad32(
                data.subrange(
                    32 * i,
                    if 32 * i + 32 <= data.len() {
                        32 * i + 32
                    } else {
                        data.len() as int
                    },
                ),
            ),
    )
}

/// One level of the tree: adjacent chunks hashed pairwise, an odd chunk
/// paired with the zero chunk.
pub open spec fn next_level(chunks: Seq<Seq<u8>>) -> Seq<Seq<u8>>
    recommends
        chunks.len() >= 2,
{
    Seq::new(
        ((chunks.len() + 1) / 2) as nat,
        |i: int|
            hash_pair(
                chunks[2 * i],
                if 2 * i + 1 < chunks.len() {
                    chunks[2 * i + 1]
                } else {
                    zero_chunk()
                },
            ),
    )
}

/// The merkle root of a chunk list: levels are hashed pairwise until one
/// node is left. The empty list merkleizes to the zero chunk.
pub open spec fn merkle_root(chunks: Seq<Seq<u8>>) -> Seq<u8>
    decreases chunks.len(),
{
    if chunks.len() == 0 {
        zero_chunk()
    } else if chunks.len() == 1 {
        chunks[0]
    } else {
        merkle_root(next_level(chunks))
    }
}

/// A root with a byte length mixed in, making digests of variable-size
/// data length-distinguishing.
pub open spec fn mix_in_length(root: Seq<u8>, len: u64) -> Seq<u8> {
    hash_pair(root, u64_chunk(len))
}

/// The digest of a variable-size byte string: the merkle root of its
/// packed chunks with the byte length mixed in.
pub open spec fn bytes_root(data: Seq<u8>) -> Seq<u8>
    recommends
        data.len() <= u64::MAX,
{
    mix_in_length(merkle_root(pack_chunks(data)), data.len() as u64)
}

/// Append `src` to `dst`.
pub fn append_bytes(dst: &mut Vec<u8>, src: &[u8])
    ensures
        final(dst)@ == old(dst)@ + src@,
{
    dst.extend_from_slice(src);
    proof {
        assert_seqs_equal!(dst@ == old(dst)@ + src@);
    }
}

/// The zero chunk as a fresh vector.
pub fn zero_chunk_vec() -> (r: Vec<u8>)
    ensures
        r@ == zero_chunk(),
{
    let r: Vec<u8> = vec![0u8; 32];
    proof {
        assert_seqs_equal!(r@ == zero_chunk());
    }
    r
}

/// Hash two tree nodes into their parent.
pub fn hash_two(a: &[u8], b: &[u8]) -> (r: Vec<u8>)
    ensures
        r@ == hash_pair(a@, b@),
        r@.len() == 32,
{
    let mut buf: Vec<u8> = Vec::new();
    append_bytes(&mut buf, a);
    append_bytes(&mut buf, b);
    proof {
        assert_seqs_equal!(buf@ == a@ + b@);
    }
    sha256(buf.as_slice())
}

/// A 64-bit value packed into a 32-byte chunk.
pub fn u64_chunk_vec(x: u64) -> (r: Vec<u8>)
    ensures
        r@ == u64_chunk(x),
        r@.len() == 32,
{
    let mut r = vstd::bytes::u64_to_le_bytes(x);
    let mut i: usize = 0;
    while i < 24
        invariant
            r@ == vstd::bytes::spec_u64_to_le_bytes(x) + Seq::new(i as nat, |j: int| 0u8),
            i <= 24,
        decreases 24 - i,
    {
        r.push(0u8);
        proof {
            assert_seqs_equal!(
                r@ == vstd::bytes::spec_u64_to_le_bytes(x) + Seq::new((i + 1) as nat, |j: int| 0u8)
            );
        }
        i += 1;
    }
    proof {
        vstd::bytes::lemma_auto_spec_u64_to_from_le_bytes();
        assert_seqs_equal!(r@ == u64_chunk(x));
    }
    r
}

/// Split `data` into zero-padded 32-byte chunks.
pub fn pack(data: &[u8]) -> (r: Vec<Vec<u8>>)
    ensures
        views(r@) == pack_chunks(data@),
        forall|i: int| 0 <= i < r@.len() ==> (#[trigger] r@[i])@.len() == 32,
{
    let mut r: Vec<Vec<u8>> = Vec::new();
    let mut start: usize = 0;
    proof {
        assert_seqs_equal!(views(r@) == pack_chunks(data@).subrange(0, 0));
    }
    while start < data.len()
        invariant
            start <= data@.len(),
            (start == 32 * r@.len()) || (start == data@.len() && r@.len() == (data@.len()
                + 31) / 32),
            views(r@) == pack_chunks(data@).subrange(0, r@.len() as int),
            forall|i: int| 0 <= i < r@.len() ==> (#[trigger] r@[i])@.len() == 32,
        decreases data@.len() - start,
    {
        assert(start == 32 * r@.len());
        let end: usize = if data.len() - start >= 32 {
            start + 32
        } else {
            data.len()
        };
        let mut chunk: Vec<u8> = Vec::new();
        let mut k: usize = start;
        proof {
            assert_seqs_equal!(chunk@ == data@.subrange(start as int, start as int));
        }
        while k < end
            invariant
                start <= k <= end,
                end <= data@.len(),
                chunk@ == data@.subrange(start as int, k as int),
            decreases end - k,
        {
            chunk.push(data[k]);
            proof {
                assert_seqs_equal!(chunk@ == data@.subrange(start as int, k + 1));
            }
            k += 1;
        }
        proof {
            assert_seqs_equal!(
                chunk@ == data@.subrange(start as int, end as int)
                    + Seq::new((chunk@.len() - (end - start)) as nat, |j: int| 0u8)
            );
        }
        while chunk.len() < 32
            invariant
                chunk@.len() >= end - start,
                chunk@.len() <= 32,
                end - start <= 32,
                chunk@ == data@.subrange(start as int, end as int)
                    + Seq::new((chunk@.len() - (end - start)) as nat, |j: int| 0u8),
            decreases 32 - chunk@.len(),
        {
            chunk.push(0u8);
            proof {
                assert_seqs_equal!(
                    chunk@ == data@.subrange(start as int, end as int)
                        + Seq::new((chunk@.len() - (end - start)) as nat, |j: int| 0u8)
                );
            }
        }
        proof {
            assert(pack_chunks(data@).len() == (data@.len() + 31) / 32);
            assert(r@.len() < pack_chunks(data@).len()) by {
                assert(32 * r@.len() < data@.len());
            };
            assert_seqs_equal!(chunk@ == pack_chunks(data@)[r@.len() as int]);
        }
        let ghost prev = r@;
        let ghost cv = chunk@;
        r.push(chunk);
        proof {
            assert(views(prev) == pack_chunks(data@).subrange(0, prev.len() as int));
            assert(views(prev).len() == prev.len());
            assert forall|k: int| 0 <= k < views(r@).len() implies views(r@)[k] == pack_chunks(
                data@,
            ).subrange(0, r@.len() as int)[k] by {
                assert(views(r@)[k] == r@[k]@);
                if k < prev.len() {
                    assert(r@[k] == prev[k]);
                    assert(views(prev)[k] == pack_chunks(data@).subrange(0, prev.len() as int)[k]);
                    assert(pack_chunks(data@).subrange(0, prev.len() as int)[k] == pack_chunks(
                        data@,
                    )[k]);
                    assert(pack_chunks(data@).subrange(0, r@.len() as int)[k] == pack_chunks(
                        data@,
                    )[k]);
                } else {
                    assert(r@[k]@ == cv);
                    assert(pack_chunks(data@).subrange(0, r@.len() as int)[k] == pack_chunks(
                        data@,
                    )[k]);
                }
            }
            assert(views(r@) =~= pack_chunks(data@).subrange(0, r@.len() as int));
            if end == data@.len() && end != 32 * r@.len() {
                assert(r@.len() == (data@.len() + 31) / 32) by {
                    assert(32 * (r@.len() - 1) < data@.len());
                    assert(data@.len() < 32 * r@.len());
                };
            }
        }
        start = end;
    }
    proof {
        if start == 32 * r@.len() {
            assert(r@.len() == (data@.len() + 31) / 32);
        }
        assert_seqs_equal!(views(r@) == pack_chunks(data@));
    }
    r
}

/// Pad a partial chunk with zeroes up to 32 bytes.
pub fn pad_to_chunk(data: &[u8]) -> (r: Vec<u8>)
    requires
        data@.len() <= 32,
    ensures
        r@ == pad32(data@),
        r@.len() == 32,
{
    let mut r: Vec<u8> = Vec::new();
    append_bytes(&mut r, data);
    while r.len() < 32
        invariant
            data@.len() <= r@.len() <= 32,
            r@ == data@ + Seq::new((r@.len() - data@.len()) as nat, |j: int| 0u8),
        decreases 32 - r@.len(),
    {
        r.push(0u8);
        proof {
            assert_seqs_equal!(
                r@ == data@ + Seq::new((r@.len() - data@.len()) as nat, |j: int| 0u8)
            );
        }
    }
    proof {
        assert_seqs_equal!(r@ == pad32(data@));
    }
    r
}

/// Merkleize a list of 32-byte chunks into a single 32-byte root.
pub fn merkleize(chunks: &Vec<Vec<u8>>) -> (r: Vec<u8>)
    requires
        forall|i: int| 0 <= i < chunks@.len() ==> (#[trigger] chunks@[i])@.len() == 32,
    ensures
        r@ == merkle_root(views(chunks@)),
        r@.len() == 32,
{
    if chunks.len() == 0 {
        return zero_chunk_vec();
    }
    let mut level: Vec<Vec<u8>> = Vec::new();
    let mut i: usize = 0;
    while i < chunks.len()
        invariant
            i <= chunks@.len(),
            forall|k: int| 0 <= k < chunks@.len() ==> (#[trigger] chunks@[k])@.len() == 32,
            views(level@) == views(chunks@).subrange(0, i as int),
            forall|k: int| 0 <= k < level@.len() ==> (#[trigger] level@[k])@.len() == 32,
        decreases chunks@.len() - i,
    {
        let mut c: Vec<u8> = Vec::new();
        append_bytes(&mut c, chunks[i].as_slice());
        proof {
            assert_seqs_equal!(c@ == chunks@[i as int]@);
        }
        let ghost prev = level@;
        let ghost cv = c@;
        level.push(c);
        proof {
            assert(views(prev) == views(chunks@).subrange(0, i as int));
            assert(views(prev).len() == prev.len());
            assert(prev.len() == i);
            assert(level@ == prev.push(level@[prev.len() as int]));
            assert forall|k: int| 0 <= k < views(level@).len() implies views(level@)[k] == views(
                chunks@,
            ).subrange(0, i + 1)[k] by {
                assert(views(level@)[k] == level@[k]@);
                if k < prev.len() {
                    assert(level@[k] == prev[k]);
                    assert(views(prev)[k] == views(chunks@).subrange(0, i as int)[k]);
                    assert(views(chunks@).subrange(0, i as int)[k] == views(chunks@)[k]);
                    assert(views(chunks@).subrange(0, i + 1)[k] == views(chunks@)[k]);
                } else {
                    assert(level@[k]@ == cv);
                    assert(views(chunks@).subrange(0, i + 1)[k] == views(chunks@)[k]);
                    assert(views(chunks@)[k] == chunks@[k]@);
                }
            }
            assert(views(level@) =~= views(chunks@).subrange(0, i + 1));
        }
        i += 1;
    }
    proof {
        assert_seqs_equal!(views(level@) == views(chunks@));
    }
    while level.len() > 1
        invariant
            level@.len() >= 1,
            forall|k: int| 0 <= k < level@.len() ==> (#[trigger] level@[k])@.len() == 32,
            merkle_root(views(level@)) == merkle_root(views(chunks@)),
        decreases level@.len(),
    {
        let n = level.len();
        let half = n / 2 + n % 2;
        let mut next: Vec<Vec<u8>> = Vec::new();
        let mut j: usize = 0;
        proof {
            assert_seqs_equal!(views(next@) == next_level(views(level@)).subrange(0, 0));
        }
        while j < half
            invariant
                n == level@.len(),
                2 <= n,
                half == (n + 1) / 2,
                j <= half,
                forall|k: int| 0 <= k < level@.len() ==> (#[trigger] level@[k])@.len() == 32,
                views(next@) == next_level(views(level@)).subrange(0, j as int),
                forall|k: int| 0 <= k < next@.len() ==> (#[trigger] next@[k])@.len() == 32,
            decreases half - j,
        {
            assert(2 * j < n);
            let parent: Vec<u8> = if 2 * j + 1 < n {
                hash_two(level[2 * j].as_slice(), level[2 * j + 1].as_slice())
            } else {
                let z = zero_chunk_vec();
                hash_two(level[2 * j].as_slice(), z.as_slice())
            };
            assert(parent@ == next_level(views(level@))[j as int]);
            let ghost prev = next@;
            let ghost pv = parent@;
            next.push(parent);
            proof {
                assert(views(prev) == next_level(views(level@)).subrange(0, prev.len() as int));
                assert(views(prev).len() == prev.len());
                assert(prev.len() == j);
                assert(next@ == prev.push(next@[prev.len() as int]));
                assert forall|k: int| 0 <= k < views(next@).len() implies views(next@)[k]
                    == next_level(views(level@)).subrange(0, j + 1)[k] by {
                    assert(views(next@)[k] == next@[k]@);
                    if k < prev.len() {
                        assert(next@[k] == prev[k]);
                        assert(views(prev)[k] == next_level(views(level@)).subrange(
                            0,
                            j as int,
                        )[k]);
                        assert(next_level(views(level@)).subrange(0, j as int)[k] == next_level(
                            views(level@),
                        )[k]);
                        assert(next_level(views(level@)).subrange(0, j + 1)[k] == next_level(
                            views(level@),
                        )[k]);
                    } else {
                        assert(next@[k]@ == pv);
                        assert(next_level(views(level@)).subrange(0, j + 1)[k] == next_level(
                            views(level@),
                        )[k]);
                    }
                }
                assert(views(next@) =~= next_level(views(level@)).subrange(0, j + 1));
            }
            j += 1;
        }
        proof {
            assert_seqs_equal!(views(next@) == next_level(views(level@)));
        }
        level = next;
    }
    let ghost l1 = views(level@);
    let mut level = level;
    let r = level.pop().unwrap();
    proof {
        assert(r@ == l1[0]);
        assert(merkle_root(l1) == l1[0]);
    }
    r
}

/// The digest of a variable-size byte string.
pub fn bytes_root_vec(data: &[u8]) -> (r: Vec<u8>)
    requires
        data@.len() <= u64::MAX,
    ensures
        r@ == bytes_root(data@),
        r@.len() == 32,
{
    let chunks = pack(data);
    let root = merkleize(&chunks);
    let len_chunk = u64_chunk_vec(data.len() as u64);
    hash_two(root.as_slice(), len_chunk.as_slice())
}

} // verus!
