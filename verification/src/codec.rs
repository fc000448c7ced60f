//! The byte formats that the service stores: a list of byte strings, as
//! `bincode` writes it, and the `zstd` frames that hold a segment.
use vstd::arithmetic::power::pow;
use vstd::prelude::*;

verus! {

/// The `k` low-order bytes of `n`, the lowest first.
pub open spec fn le_bytes(n: nat, k: nat) -> Seq<u8>
    decreases k,
{
    if k == 0 {
        Seq::empty()
    } else {
        seq![(n % 256) as u8] + le_bytes(n / 256, (k - 1) as nat)
    }
}

/// A length as it is stored: eight bytes, the lowest first.
pub open spec fn length_prefix(n: nat) -> Seq<u8> {
    le_bytes(n, 8)
}

/// One byte string as it is stored: its length, then its bytes.
pub open spec fn stored_chunk(chunk: Seq<u8>) -> Seq<u8> {
    length_prefix(chunk.len()) + chunk
}

/// Byte strings stored one after the other.
pub open spec fn stored_chunks(chunks: Seq<Seq<u8>>) -> Seq<u8>
    decreases chunks.len(),
{
    if chunks.len() == 0 {
        Seq::empty()
    } else {
        stored_chunk(chunks[0]) + stored_chunks(chunks.skip(1))
    }
}

/// A list of byte strings as it is stored: how many there are, then each.
pub open spec fn stored_list(chunks: Seq<Seq<u8>>) -> Seq<u8> {
    length_prefix(chunks.len()) + stored_chunks(chunks)
}

/// Does every length in the list fit in its eight bytes?
pub open spec fn storable(chunks: Seq<Seq<u8>>) -> bool {
    &&& chunks.len() <= u64::MAX
    &&& forall|i: int| 0 <= i < chunks.len() ==> (#[trigger] chunks[i]).len() <= u64::MAX
}

/// The byte strings of a list of vectors.
pub open spec fn chunk_views(chunks: Seq<Vec<u8>>) -> Seq<Seq<u8>> {
    chunks.map_values(|c: Vec<u8>| c@)
}

/// Do `bytes` begin with the stored form of `chunks`?
pub open spec fn begins_with_list(bytes: Seq<u8>, chunks: Seq<Seq<u8>>) -> bool {
    storable(chunks) && stored_list(chunks).is_prefix_of(bytes)
}

/// The list with whose stored form `bytes` begin, if they do. What follows it
/// is left alone.
pub open spec fn read_list(bytes: Seq<u8>) -> Option<Seq<Seq<u8>>> {
    if exists|chunks: Seq<Seq<u8>>| begins_with_list(bytes, chunks) {
        Some(choose|chunks: Seq<Seq<u8>>| begins_with_list(bytes, chunks))
    } else {
        None
    }
}

/// The message of `bincode` for bytes that hold no list.
pub uninterp spec fn bincode_complaint(bytes: Seq<u8>) -> Seq<char>;

/// Stores a list of byte strings with `bincode::serialize_into`.
///
/// Claimed of it: the default format has fixed-width integers, the lowest byte
/// first, so a sequence is its length in eight bytes and then its elements; and
/// writing to a vector does not fail.
#[verifier::external_body]
pub(crate) fn bincode_store(chunks: &Vec<Vec<u8>>) -> (r: Vec<u8>)
    ensures
        r@ == stored_list(chunk_views(chunks@)),
{
    let mut buf = Vec::new();
    bincode::serialize_into(&mut buf, chunks).expect("serialization failed");
    buf
}

/// Reads a list of byte strings back with `bincode::deserialize`.
///
/// Claimed of it: it succeeds exactly on bytes that begin with a stored list,
/// gives that list, and ignores what follows; where it fails, its message
/// depends on the bytes alone.
#[verifier::external_body]
pub(crate) fn bincode_read(bytes: &[u8]) -> (r: Result<Vec<Vec<u8>>, String>)
    ensures
        match r {
            Ok(chunks) => read_list(bytes@) == Some(chunk_views(chunks@)),
            Err(message) => read_list(bytes@) is None && message@ == bincode_complaint(bytes@),
        },
{
    bincode::deserialize::<Vec<Vec<u8>>>(bytes).map_err(|e| e.to_string())
}

/// What `zstd` makes of `frames`: the bytes they hold, or its message.
pub uninterp spec fn zstd_content(frames: Seq<u8>) -> Result<Seq<u8>, Seq<char>>;

/// Unpacks `zstd` frames with `zstd::stream::decode_all`.
///
/// Claimed of it: what comes out, bytes or message, depends on the frames alone.
#[verifier::external_body]
pub(crate) fn zstd_unpack(frames: &[u8]) -> (r: Result<Vec<u8>, String>)
    ensures
        match r {
            Ok(bytes) => zstd_content(frames@) == Ok::<Seq<u8>, Seq<char>>(bytes@),
            Err(message) => zstd_content(frames@) == Err::<Seq<u8>, Seq<char>>(message@),
        },
{
    zstd::stream::decode_all(frames).map_err(|e| e.to_string())
}

/// The stored form of a list of byte strings.
pub fn encode_chunks(chunks: &Vec<Vec<u8>>) -> (r: Vec<u8>)
    ensures
        r@ == stored_list(chunk_views(chunks@)),
{
    bincode_store(chunks)
}

/// The list of byte strings at the start of `bytes`.
pub fn decode_chunks(bytes: &[u8]) -> (r: Result<Vec<Vec<u8>>, String>)
    ensures
        match r {
            Ok(chunks) => read_list(bytes@) == Some(chunk_views(chunks@)),
            Err(message) => read_list(bytes@) is None && message@ == bincode_complaint(bytes@),
        },
{
    bincode_read(bytes)
}

// ---------------------------------------------------------------------------
// A stored list is read back
// ---------------------------------------------------------------------------

proof fn lemma_le_bytes_len(n: nat, k: nat)
    ensures
        le_bytes(n, k).len() == k,
    decreases k,
{
    if k > 0 {
        lemma_le_bytes_len(n / 256, (k - 1) as nat);
    }
}

/// Numbers that fit in `k` bytes and have the same bytes are the same.
proof fn lemma_le_bytes_injective(a: nat, b: nat, k: nat)
    requires
        a < pow(256, k),
        b < pow(256, k),
        le_bytes(a, k) == le_bytes(b, k),
    ensures
        a == b,
    decreases k,
{
    reveal(pow);
    if k > 0 {
        let j = (k - 1) as nat;
        lemma_le_bytes_len(a / 256, j);
        lemma_le_bytes_len(b / 256, j);
        let sa = le_bytes(a, k);
        let sb = le_bytes(b, k);
        assert(sa[0] == (a % 256) as u8);
        assert(sb[0] == (b % 256) as u8);
        assert(sa.skip(1) =~= le_bytes(a / 256, j));
        assert(sb.skip(1) =~= le_bytes(b / 256, j));
        assert(pow(256, k) == 256 * pow(256, j));
        assert(a / 256 < pow(256, j));
        assert(b / 256 < pow(256, j));
        lemma_le_bytes_injective(a / 256, b / 256, j);
    }
}

/// Two lengths whose stored forms both start `bytes` are the same.
proof fn lemma_length_prefix_unique(a: nat, b: nat, bytes: Seq<u8>)
    requires
        a <= u64::MAX,
        b <= u64::MAX,
        length_prefix(a).is_prefix_of(bytes),
        length_prefix(b).is_prefix_of(bytes),
    ensures
        a == b,
{
    lemma_le_bytes_len(a, 8);
    lemma_le_bytes_len(b, 8);
    assert(length_prefix(a) =~= bytes.subrange(0, 8));
    assert(length_prefix(b) =~= bytes.subrange(0, 8));
    assert(pow(256, 8) == 0x1_0000_0000_0000_0000) by {
        reveal(pow);
        reveal_with_fuel(pow, 9);
    }
    lemma_le_bytes_injective(a, b, 8);
}

/// Dropping as many bytes from the front of both keeps a prefix a prefix.
proof fn lemma_skip_keeps_prefix(start: Seq<u8>, bytes: Seq<u8>, n: int)
    requires
        start.is_prefix_of(bytes),
        0 <= n <= start.len(),
    ensures
        start.skip(n).is_prefix_of(bytes.skip(n)),
{
    let rest = bytes.skip(n);
    assert(start.skip(n) =~= rest.subrange(0, start.skip(n).len() as int));
}

/// A stored byte string is as long as its length field and its bytes.
proof fn lemma_stored_chunk_len(chunk: Seq<u8>)
    ensures
        stored_chunk(chunk).len() == 8 + chunk.len(),
{
    lemma_le_bytes_len(chunk.len(), 8);
}

/// Equally many stored byte strings at the start of the same bytes are the same.
proof fn lemma_stored_chunks_unique(a: Seq<Seq<u8>>, b: Seq<Seq<u8>>, bytes: Seq<u8>)
    requires
        storable(a),
        storable(b),
        a.len() == b.len(),
        stored_chunks(a).is_prefix_of(bytes),
        stored_chunks(b).is_prefix_of(bytes),
    ensures
        a == b,
    decreases a.len(),
{
    if a.len() == 0 {
        assert(a =~= b);
    } else {
        let ca = a[0];
        let cb = b[0];
        lemma_stored_chunk_len(ca);
        lemma_stored_chunk_len(cb);
        lemma_le_bytes_len(ca.len(), 8);
        lemma_le_bytes_len(cb.len(), 8);
        assert(length_prefix(ca.len()) =~= stored_chunks(a).subrange(0, 8));
        assert(length_prefix(cb.len()) =~= stored_chunks(b).subrange(0, 8));
        assert(length_prefix(ca.len()).is_prefix_of(bytes));
        assert(length_prefix(cb.len()).is_prefix_of(bytes));
        lemma_length_prefix_unique(ca.len(), cb.len(), bytes);
        let n = 8 + ca.len() as int;
        assert forall|i: int| 0 <= i < ca.len() implies ca[i] == cb[i] by {
            assert(stored_chunks(a)[8 + i] == ca[i]);
            assert(stored_chunks(b)[8 + i] == cb[i]);
            assert(bytes[8 + i] == ca[i]);
            assert(bytes[8 + i] == cb[i]);
        }
        assert(ca =~= cb);
        let rest = bytes.skip(n);
        assert(stored_chunks(a).skip(n) =~= stored_chunks(a.skip(1)));
        assert(stored_chunks(b).skip(n) =~= stored_chunks(b.skip(1)));
        lemma_skip_keeps_prefix(stored_chunks(a), bytes, n);
        lemma_skip_keeps_prefix(stored_chunks(b), bytes, n);
        lemma_stored_chunks_unique(a.skip(1), b.skip(1), rest);
        assert forall|i: int| 0 <= i < a.len() implies a[i] == b[i] by {
            if i > 0 {
                assert(a[i] == a.skip(1)[i - 1]);
                assert(b[i] == b.skip(1)[i - 1]);
            }
        }
        assert(a =~= b);
    }
}

/// Bytes begin with the stored form of at most one list.
pub proof fn law_stored_list_unique(a: Seq<Seq<u8>>, b: Seq<Seq<u8>>, bytes: Seq<u8>)
    requires
        begins_with_list(bytes, a),
        begins_with_list(bytes, b),
    ensures
        a == b,
{
    lemma_le_bytes_len(a.len(), 8);
    lemma_le_bytes_len(b.len(), 8);
    assert(length_prefix(a.len()) =~= stored_list(a).subrange(0, 8));
    assert(length_prefix(b.len()) =~= stored_list(b).subrange(0, 8));
    lemma_length_prefix_unique(a.len(), b.len(), bytes);
    let rest = bytes.skip(8);
    assert(stored_chunks(a) =~= stored_list(a).skip(8));
    assert(stored_chunks(b) =~= stored_list(b).skip(8));
    lemma_skip_keeps_prefix(stored_list(a), bytes, 8);
    lemma_skip_keeps_prefix(stored_list(b), bytes, 8);
    lemma_stored_chunks_unique(a, b, rest);
}

/// What was stored is read back, whatever follows it in the file.
pub proof fn law_list_round_trip(chunks: Seq<Seq<u8>>, rest: Seq<u8>)
    requires
        storable(chunks),
    ensures
        read_list(stored_list(chunks) + rest) == Some(chunks),
        read_list(stored_list(chunks)) == Some(chunks),
{
    let bytes = stored_list(chunks) + rest;
    assert(stored_list(chunks) =~= bytes.subrange(0, stored_list(chunks).len() as int));
    assert(begins_with_list(bytes, chunks));
    law_stored_list_unique(chunks, read_list(bytes)->0, bytes);
    let exact = stored_list(chunks);
    assert(exact =~= exact.subrange(0, exact.len() as int));
    assert(begins_with_list(exact, chunks));
    law_stored_list_unique(chunks, read_list(exact)->0, exact);
}

/// Every list that the program can hold is storable.
pub proof fn law_vectors_storable(chunks: Seq<Vec<u8>>)
    requires
        chunks.len() <= usize::MAX,
    ensures
        storable(chunk_views(chunks)),
{
    let views = chunk_views(chunks);
    assert forall|i: int| 0 <= i < views.len() implies (#[trigger] views[i]).len() <= u64::MAX by {
        assert(views[i] == chunks[i]@);
        assert(chunks[i].len() <= usize::MAX);
    }
}

/// A length is stored in eight bytes, the lowest first: weighed by the powers of 256 they
/// add up to it.
pub proof fn law_length_is_eight_bytes(n: u64)
    ensures
        length_prefix(n as nat).len() == 8,
        ({
            let b = length_prefix(n as nat);
            n == b[0] + 0x100 * b[1] + 0x1_0000 * b[2] + 0x100_0000 * b[3] + 0x1_0000_0000 * b[4]
                + 0x100_0000_0000 * b[5] + 0x1_0000_0000_0000 * b[6] + 0x100_0000_0000_0000 * b[7]
        }),
{
    let b = length_prefix(n as nat);
    lemma_le_bytes_len(n as nat, 8);
    let n1 = n as nat / 256;
    let n2 = n1 / 256;
    let n3 = n2 / 256;
    let n4 = n3 / 256;
    let n5 = n4 / 256;
    let n6 = n5 / 256;
    let n7 = n6 / 256;
    lemma_le_bytes_len(n1, 7);
    lemma_le_bytes_len(n2, 6);
    lemma_le_bytes_len(n3, 5);
    lemma_le_bytes_len(n4, 4);
    lemma_le_bytes_len(n5, 3);
    lemma_le_bytes_len(n6, 2);
    lemma_le_bytes_len(n7, 1);
    assert(b[0] == n as nat % 256);
    assert(b[1] == le_bytes(n1, 7)[0]);
    assert(b[2] == le_bytes(n1, 7)[1] == le_bytes(n2, 6)[0]);
    assert(b[3] == le_bytes(n1, 7)[2] == le_bytes(n2, 6)[1] == le_bytes(n3, 5)[0]);
    assert(b[4] == le_bytes(n1, 7)[3] == le_bytes(n2, 6)[2] == le_bytes(n3, 5)[1] == le_bytes(
        n4,
        4,
    )[0]);
    assert(b[5] == le_bytes(n1, 7)[4] == le_bytes(n2, 6)[3] == le_bytes(n3, 5)[2] == le_bytes(
        n4,
        4,
    )[1] == le_bytes(n5, 3)[0]);
    assert(b[6] == le_bytes(n1, 7)[5] == le_bytes(n2, 6)[4] == le_bytes(n3, 5)[3] == le_bytes(
        n4,
        4,
    )[2] == le_bytes(n5, 3)[1] == le_bytes(n6, 2)[0]);
    assert(b[7] == le_bytes(n1, 7)[6] == le_bytes(n2, 6)[5] == le_bytes(n3, 5)[4] == le_bytes(
        n4,
        4,
    )[3] == le_bytes(n5, 3)[2] == le_bytes(n6, 2)[1] == le_bytes(n7, 1)[0]);
}

/// A list is stored as how many byte strings it has and then these, in their order, each
/// as its length and its bytes.
pub proof fn law_list_is_stored_in_order(a: Seq<Seq<u8>>, b: Seq<Seq<u8>>, chunk: Seq<u8>)
    ensures
        stored_list(a).len() >= 8,
        stored_list(a).take(8) == length_prefix(a.len()),
        stored_list(a + b).skip(8) == stored_list(a).skip(8) + stored_list(b).skip(8),
        stored_list(seq![chunk]).skip(8) == length_prefix(chunk.len()) + chunk,
    decreases a.len(),
{
    lemma_le_bytes_len(a.len(), 8);
    lemma_le_bytes_len(b.len(), 8);
    lemma_le_bytes_len((a + b).len(), 8);
    lemma_le_bytes_len(1, 8);
    assert(stored_list(a).take(8) =~= length_prefix(a.len()));
    assert(stored_list(a).skip(8) =~= stored_chunks(a));
    assert(stored_list(b).skip(8) =~= stored_chunks(b));
    assert(stored_list(a + b).skip(8) =~= stored_chunks(a + b));
    if a.len() == 0 {
        assert(a + b =~= b);
        assert(stored_chunks(a) + stored_chunks(b) =~= stored_chunks(b));
    } else {
        let rest = a.skip(1);
        law_list_is_stored_in_order(rest, b, chunk);
        lemma_le_bytes_len(rest.len(), 8);
        lemma_le_bytes_len((rest + b).len(), 8);
        assert(stored_list(rest).skip(8) =~= stored_chunks(rest));
        assert(stored_list(rest + b).skip(8) =~= stored_chunks(rest + b));
        assert((a + b).skip(1) =~= rest + b);
        assert(stored_chunks(a + b) =~= stored_chunk(a[0]) + (stored_chunks(rest) + stored_chunks(
            b,
        )));
        assert(stored_chunks(a) + stored_chunks(b) =~= stored_chunk(a[0]) + (stored_chunks(rest)
            + stored_chunks(b)));
    }
    let one = seq![chunk];
    assert(one.skip(1) =~= Seq::<Seq<u8>>::empty());
    assert(stored_chunks(one.skip(1)) =~= Seq::<u8>::empty());
    assert(one[0] == chunk);
    assert(stored_chunks(one) =~= stored_chunk(chunk));
    assert(stored_list(one).skip(8) =~= stored_chunks(one));
}

/// The byte strings of vectors are theirs, one by one.
pub proof fn law_chunks_are_those_of_the_vectors(chunks: Seq<Vec<u8>>, i: int)
    requires
        0 <= i < chunks.len(),
    ensures
        chunk_views(chunks).len() == chunks.len(),
        chunk_views(chunks)[i] == chunks[i]@,
{
}

/// What is read is what the bytes begin with, and nothing is read exactly where they
/// begin with no list.
pub proof fn law_what_is_read_is_there(bytes: Seq<u8>, chunks: Seq<Seq<u8>>)
    ensures
        read_list(bytes) == Some(chunks) <==> storable(chunks) && stored_list(chunks).len()
            <= bytes.len() && bytes.take(stored_list(chunks).len() as int) == stored_list(chunks),
{
    let all = stored_list(chunks);
    if all.len() <= bytes.len() && bytes.take(all.len() as int) == all {
        assert(all =~= bytes.subrange(0, all.len() as int));
        assert(all.is_prefix_of(bytes));
    }
    if storable(chunks) && all.is_prefix_of(bytes) {
        assert(begins_with_list(bytes, chunks));
        law_stored_list_unique(chunks, read_list(bytes)->0, bytes);
        assert(bytes.take(all.len() as int) =~= all);
    }
    if read_list(bytes) == Some(chunks) {
        assert(begins_with_list(bytes, chunks));
        assert(bytes.take(all.len() as int) =~= all);
    }
}

} // verus!
