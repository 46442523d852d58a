//! The byte transformations behind the endpoints, and what they mean.
//!
//! All of them work on raw bytes. None knows about characters: upper-casing
//! touches the ASCII letters only, and reversing turns the order of the bytes,
//! so text in a multi-byte encoding does not survive it.

use vstd::prelude::*;

verus! {

/// The ASCII upper-case counterpart of a byte: `a` to `z` become `A` to `Z`,
/// every other byte stays what it is.
pub open spec fn upper_byte(b: u8) -> u8 {
    if 0x61 <= b <= 0x7a {
        (b - 0x20) as u8
    } else {
        b
    }
}

/// `bytes` with every byte upper-cased.
pub open spec fn uppercase(bytes: Seq<u8>) -> Seq<u8> {
    bytes.map_values(|b: u8| upper_byte(b))
}

/// Every chunk of `chunks` upper-cased, the chunks as they were cut.
pub open spec fn uppercase_chunks(chunks: Seq<Seq<u8>>) -> Seq<Seq<u8>> {
    chunks.map_values(|chunk: Seq<u8>| uppercase(chunk))
}

/// The bytes of all chunks, in order, as one sequence.
pub open spec fn concat(chunks: Seq<Seq<u8>>) -> Seq<u8> {
    chunks.flatten()
}

/// The contents of a list of buffers.
pub open spec fn chunk_views(chunks: Seq<Vec<u8>>) -> Seq<Seq<u8>> {
    chunks.map_values(|chunk: Vec<u8>| chunk@)
}

/// Upper-cases one byte.
pub fn to_upper(b: u8) -> (r: u8)
    ensures
        r == upper_byte(b),
{
    if b >= 0x61 && b <= 0x7a {
        b - 0x20
    } else {
        b
    }
}

/// Upper-cases one chunk of a body. A streaming transport calls this on each
/// chunk as it arrives.
pub fn uppercase_chunk(chunk: &[u8]) -> (out: Vec<u8>)
    ensures
        out@ == uppercase(chunk@),
{
    let mut out: Vec<u8> = Vec::with_capacity(chunk.len());
    let mut i: usize = 0;
    while i < chunk.len()
        invariant
            i <= chunk.len(),
            out@ == uppercase(chunk@.take(i as int)),
        decreases chunk.len() - i,
    {
        out.push(to_upper(chunk[i]));
        i += 1;
        assert(out@ =~= uppercase(chunk@.take(i as int)));
    }
    assert(chunk@.take(i as int) =~= chunk@);
    out
}

/// The bytes of `bytes` from the last to the first.
pub fn reverse_bytes(bytes: &[u8]) -> (out: Vec<u8>)
    ensures
        out@ == bytes@.reverse(),
{
    let n: usize = bytes.len();
    let mut out: Vec<u8> = Vec::with_capacity(n);
    let mut i: usize = 0;
    while i < n
        invariant
            n == bytes.len(),
            i <= n,
            out.len() == i,
            forall|k: int| 0 <= k < i ==> out[k] == bytes[n - 1 - k],
        decreases n - i,
    {
        out.push(bytes[n - 1 - i]);
        i += 1;
    }
    assert(out@ =~= bytes@.reverse());
    out
}

/// Upper-cases a body chunk by chunk, keeping the cuts between the chunks.
pub fn uppercase_each(chunks: &Vec<Vec<u8>>) -> (out: Vec<Vec<u8>>)
    ensures
        chunk_views(out@) == uppercase_chunks(chunk_views(chunks@)),
{
    let mut out: Vec<Vec<u8>> = Vec::with_capacity(chunks.len());
    let mut i: usize = 0;
    while i < chunks.len()
        invariant
            i <= chunks.len(),
            chunk_views(out@) == uppercase_chunks(chunk_views(chunks@.take(i as int))),
        decreases chunks.len() - i,
    {
        let ghost done = chunk_views(out@);
        out.push(uppercase_chunk(chunks[i].as_slice()));
        proof {
            assert(chunk_views(out@) =~= done.push(uppercase(chunks[i as int]@)));
            assert(chunk_views(chunks@.take(i + 1)) =~= chunk_views(chunks@.take(i as int)).push(
                chunks[i as int]@,
            ));
            assert(uppercase_chunks(chunk_views(chunks@.take(i + 1))) =~= done.push(
                uppercase(chunks[i as int]@),
            ));
        }
        i += 1;
    }
    assert(chunks@.take(i as int) =~= chunks@);
    out
}

/// Joins the chunks of a body into one buffer.
pub fn concat_chunks(chunks: &Vec<Vec<u8>>) -> (out: Vec<u8>)
    ensures
        out@ == concat(chunk_views(chunks@)),
{
    let mut out: Vec<u8> = Vec::new();
    let mut i: usize = 0;
    while i < chunks.len()
        invariant
            i <= chunks.len(),
            out@ == concat(chunk_views(chunks@.take(i as int))),
        decreases chunks.len() - i,
    {
        out.extend_from_slice(chunks[i].as_slice());
        proof {
            let done = chunk_views(chunks@.take(i as int));
            assert(chunk_views(chunks@.take(i + 1)) =~= done.push(chunks[i as int]@));
            done.lemma_flatten_push(chunks[i as int]@);
        }
        i += 1;
    }
    assert(chunks@.take(i as int) =~= chunks@);
    out
}

/// Upper-casing keeps the length and changes lower-case ASCII letters only:
/// each byte of the result is the byte it came from, or, for `a` to `z`, that
/// letter's capital; a byte outside ASCII is never changed.
pub proof fn lemma_uppercase_changes_ascii_letters_only(bytes: Seq<u8>)
    ensures
        uppercase(bytes).len() == bytes.len(),
        forall|i: int|
            0 <= i < bytes.len() ==> {
                let b = bytes[i];
                let u = #[trigger] uppercase(bytes)[i];
                &&& (0x61 <= b <= 0x7a) ==> u == b - 0x20 && 0x41 <= u <= 0x5a
                &&& !(0x61 <= b <= 0x7a) ==> u == b
                &&& b >= 0x80 ==> u == b
            },
{
}

/// Upper-casing twice is upper-casing once.
pub proof fn lemma_uppercase_idempotent(bytes: Seq<u8>)
    ensures
        uppercase(uppercase(bytes)) == uppercase(bytes),
{
    assert(uppercase(uppercase(bytes)) =~= uppercase(bytes));
}

/// Upper-casing a body chunk by chunk gives the same bytes as upper-casing it
/// whole.
pub proof fn lemma_uppercase_chunks_concat(chunks: Seq<Seq<u8>>)
    ensures
        concat(uppercase_chunks(chunks)) == uppercase(concat(chunks)),
    decreases chunks.len(),
{
    if chunks.len() == 0 {
        assert(concat(uppercase_chunks(chunks)) =~= uppercase(concat(chunks)));
    } else {
        let rest = chunks.drop_first();
        lemma_uppercase_chunks_concat(rest);
        assert(uppercase_chunks(chunks).drop_first() =~= uppercase_chunks(rest));
        assert(uppercase(chunks.first() + concat(rest)) =~= uppercase(chunks.first()) + uppercase(
            concat(rest),
        ));
    }
}

/// Reversing is an involution: reversed twice, a sequence of bytes is itself
/// again.
pub proof fn lemma_reverse_involution(bytes: Seq<u8>)
    ensures
        bytes.reverse().reverse() == bytes,
{
    assert(bytes.reverse().reverse() =~= bytes);
}

/// Reversing keeps the length, and puts the byte at `i` at the same distance
/// from the other end.
pub proof fn lemma_reverse_mirrors(bytes: Seq<u8>)
    ensures
        bytes.reverse().len() == bytes.len(),
        forall|i: int| 0 <= i < bytes.len() ==> #[trigger] bytes.reverse()[i] == bytes[bytes.len() - 1 - i],
{
}

} // verus!
