//! Little-endian coding of 32-bit and 64-bit words, and of blocks of 32-bit
//! words as they are laid out in a payload file or a datagram.
//!
//! A sample that is a 32-bit IEEE-754 number travels here as its bit pattern.

use vstd::prelude::*;

verus! {

/// The four bytes of a 32-bit word, least significant first.
pub open spec fn le32(x: u32) -> Seq<u8> {
    seq![
        (x & 0xff) as u8,
        ((x >> 8) & 0xff) as u8,
        ((x >> 16) & 0xff) as u8,
        ((x >> 24) & 0xff) as u8,
    ]
}

/// The word whose bytes are the first four of `b`, least significant first.
pub open spec fn from_le32(b: Seq<u8>) -> u32
    recommends
        b.len() >= 4,
{
    (b[0] as u32) | ((b[1] as u32) << 8) | ((b[2] as u32) << 16) | ((b[3] as u32) << 24)
}

/// The eight bytes of a 64-bit word, least significant first.
pub open spec fn le64(x: u64) -> Seq<u8> {
    seq![
        (x & 0xff) as u8,
        ((x >> 8) & 0xff) as u8,
        ((x >> 16) & 0xff) as u8,
        ((x >> 24) & 0xff) as u8,
        ((x >> 32) & 0xff) as u8,
        ((x >> 40) & 0xff) as u8,
        ((x >> 48) & 0xff) as u8,
        ((x >> 56) & 0xff) as u8,
    ]
}

/// The word whose bytes are the first eight of `b`, least significant first.
pub open spec fn from_le64(b: Seq<u8>) -> u64
    recommends
        b.len() >= 8,
{
    (b[0] as u64) | ((b[1] as u64) << 8) | ((b[2] as u64) << 16) | ((b[3] as u64) << 24) | ((
    b[4] as u64) << 32) | ((b[5] as u64) << 40) | ((b[6] as u64) << 48) | ((b[7] as u64) << 56)
}

/// Reading back the bytes of a 32-bit word gives the word.
pub proof fn lemma_le32_round_trip(x: u32)
    ensures
        le32(x).len() == 4,
        from_le32(le32(x)) == x,
{
    let b0: u8 = (x & 0xff) as u8;
    let b1: u8 = ((x >> 8) & 0xff) as u8;
    let b2: u8 = ((x >> 16) & 0xff) as u8;
    let b3: u8 = ((x >> 24) & 0xff) as u8;
    assert((b0 as u32) | ((b1 as u32) << 8) | ((b2 as u32) << 16) | ((b3 as u32) << 24) == x)
        by (bit_vector)
        requires
            b0 == (x & 0xff) as u8,
            b1 == ((x >> 8) & 0xff) as u8,
            b2 == ((x >> 16) & 0xff) as u8,
            b3 == ((x >> 24) & 0xff) as u8,
    ;
}

/// Writing out the word read from four bytes gives those bytes.
pub proof fn lemma_le32_bytes_round_trip(b: Seq<u8>)
    requires
        b.len() == 4,
    ensures
        le32(from_le32(b)) == b,
{
    let b0 = b[0];
    let b1 = b[1];
    let b2 = b[2];
    let b3 = b[3];
    let x = from_le32(b);
    assert((x & 0xff) as u8 == b0 && ((x >> 8) & 0xff) as u8 == b1 && ((x >> 16) & 0xff) as u8
        == b2 && ((x >> 24) & 0xff) as u8 == b3) by (bit_vector)
        requires
            x == (b0 as u32) | ((b1 as u32) << 8) | ((b2 as u32) << 16) | ((b3 as u32) << 24),
    ;
}

/// Reading back the bytes of a 64-bit word gives the word.
pub proof fn lemma_le64_round_trip(x: u64)
    ensures
        le64(x).len() == 8,
        from_le64(le64(x)) == x,
{
    let b0: u8 = (x & 0xff) as u8;
    let b1: u8 = ((x >> 8) & 0xff) as u8;
    let b2: u8 = ((x >> 16) & 0xff) as u8;
    let b3: u8 = ((x >> 24) & 0xff) as u8;
    let b4: u8 = ((x >> 32) & 0xff) as u8;
    let b5: u8 = ((x >> 40) & 0xff) as u8;
    let b6: u8 = ((x >> 48) & 0xff) as u8;
    let b7: u8 = ((x >> 56) & 0xff) as u8;
    assert((b0 as u64) | ((b1 as u64) << 8) | ((b2 as u64) << 16) | ((b3 as u64) << 24) | ((
    b4 as u64) << 32) | ((b5 as u64) << 40) | ((b6 as u64) << 48) | ((b7 as u64) << 56) == x)
        by (bit_vector)
        requires
            b0 == (x & 0xff) as u8,
            b1 == ((x >> 8) & 0xff) as u8,
            b2 == ((x >> 16) & 0xff) as u8,
            b3 == ((x >> 24) & 0xff) as u8,
            b4 == ((x >> 32) & 0xff) as u8,
            b5 == ((x >> 40) & 0xff) as u8,
            b6 == ((x >> 48) & 0xff) as u8,
            b7 == ((x >> 56) & 0xff) as u8,
    ;
}

/// Writing out the word read from eight bytes gives those bytes.
pub proof fn lemma_le64_bytes_round_trip(b: Seq<u8>)
    requires
        b.len() == 8,
    ensures
        le64(from_le64(b)) == b,
{
    let b0 = b[0];
    let b1 = b[1];
    let b2 = b[2];
    let b3 = b[3];
    let b4 = b[4];
    let b5 = b[5];
    let b6 = b[6];
    let b7 = b[7];
    let x = from_le64(b);
    assert((x & 0xff) as u8 == b0 && ((x >> 8) & 0xff) as u8 == b1 && ((x >> 16) & 0xff) as u8
        == b2 && ((x >> 24) & 0xff) as u8 == b3 && ((x >> 32) & 0xff) as u8 == b4 && ((x >> 40)
        & 0xff) as u8 == b5 && ((x >> 48) & 0xff) as u8 == b6 && ((x >> 56) & 0xff) as u8 == b7)
        by (bit_vector)
        requires
            x == (b0 as u64) | ((b1 as u64) << 8) | ((b2 as u64) << 16) | ((b3 as u64) << 24) | ((
            b4 as u64) << 32) | ((b5 as u64) << 40) | ((b6 as u64) << 48) | ((b7 as u64) << 56),
    ;
}

/// Appends the four bytes of `x` to `out`.
pub fn put_le32(out: &mut Vec<u8>, x: u32)
    ensures
        final(out)@ == old(out)@ + le32(x),
{
    let b0: u8 = (x & 0xff) as u8;
    let b1: u8 = ((x >> 8) & 0xff) as u8;
    let b2: u8 = ((x >> 16) & 0xff) as u8;
    let b3: u8 = ((x >> 24) & 0xff) as u8;
    out.push(b0);
    out.push(b1);
    out.push(b2);
    out.push(b3);
}

/// Appends the eight bytes of `x` to `out`.
pub fn put_le64(out: &mut Vec<u8>, x: u64)
    ensures
        final(out)@ == old(out)@ + le64(x),
{
    let b0: u8 = (x & 0xff) as u8;
    let b1: u8 = ((x >> 8) & 0xff) as u8;
    let b2: u8 = ((x >> 16) & 0xff) as u8;
    let b3: u8 = ((x >> 24) & 0xff) as u8;
    let b4: u8 = ((x >> 32) & 0xff) as u8;
    let b5: u8 = ((x >> 40) & 0xff) as u8;
    let b6: u8 = ((x >> 48) & 0xff) as u8;
    let b7: u8 = ((x >> 56) & 0xff) as u8;
    out.push(b0);
    out.push(b1);
    out.push(b2);
    out.push(b3);
    out.push(b4);
    out.push(b5);
    out.push(b6);
    out.push(b7);
}

/// Reads the 32-bit word that starts at `pos`.
pub fn get_le32(bytes: &[u8], pos: usize) -> (x: u32)
    requires
        pos + 4 <= bytes@.len(),
    ensures
        x == from_le32(bytes@.subrange(pos as int, pos + 4)),
{
    let b0: u32 = bytes[pos] as u32;
    let b1: u32 = bytes[pos + 1] as u32;
    let b2: u32 = bytes[pos + 2] as u32;
    let b3: u32 = bytes[pos + 3] as u32;
    b0 | (b1 << 8) | (b2 << 16) | (b3 << 24)
}

/// Reads the 64-bit word that starts at `pos`.
pub fn get_le64(bytes: &[u8], pos: usize) -> (x: u64)
    requires
        pos + 8 <= bytes@.len(),
    ensures
        x == from_le64(bytes@.subrange(pos as int, pos + 8)),
{
    let b0: u64 = bytes[pos] as u64;
    let b1: u64 = bytes[pos + 1] as u64;
    let b2: u64 = bytes[pos + 2] as u64;
    let b3: u64 = bytes[pos + 3] as u64;
    let b4: u64 = bytes[pos + 4] as u64;
    let b5: u64 = bytes[pos + 5] as u64;
    let b6: u64 = bytes[pos + 6] as u64;
    let b7: u64 = bytes[pos + 7] as u64;
    b0 | (b1 << 8) | (b2 << 16) | (b3 << 24) | (b4 << 32) | (b5 << 40) | (b6 << 48) | (b7 << 56)
}

/// The bytes of a block of 32-bit words: four for each word, least
/// significant first, the words in their order and nothing between them.
pub open spec fn block_bytes(words: Seq<u32>) -> Seq<u8> {
    Seq::new(4 * words.len(), |i: int| le32(words[i / 4])[i % 4])
}

/// The `n` words that the first `4 * n` bytes of `bytes` hold.
pub open spec fn block_words(bytes: Seq<u8>, n: nat) -> Seq<u32>
    recommends
        4 * n <= bytes.len(),
{
    Seq::new(n, |i: int| from_le32(bytes.subrange(4 * i, 4 * i + 4)))
}

/// A block of words read back from its own bytes is the block, whatever
/// follows those bytes.
pub proof fn lemma_block_round_trip(words: Seq<u32>, rest: Seq<u8>)
    ensures
        block_bytes(words).len() == 4 * words.len(),
        block_words(block_bytes(words) + rest, words.len()) == words,
{
    let bytes = block_bytes(words) + rest;
    assert forall|i: int| 0 <= i < words.len() implies from_le32(
        #[trigger] bytes.subrange(4 * i, 4 * i + 4),
    ) == words[i] by {
        lemma_le32_round_trip(words[i]);
    }
}

/// The bytes of the words read from a whole number of words are those bytes.
pub proof fn lemma_block_bytes_round_trip(bytes: Seq<u8>, n: nat)
    requires
        bytes.len() == 4 * n,
    ensures
        block_bytes(block_words(bytes, n)) == bytes,
{
    let words = block_words(bytes, n);
    assert forall|j: int| 0 <= j < bytes.len() implies block_bytes(words)[j] == bytes[j] by {
        let i = j / 4;
        let part = bytes.subrange(4 * i, 4 * i + 4);
        lemma_le32_bytes_round_trip(part);
    }
}

/// The input ended before the buffer was full.
#[derive(Debug, Clone, Copy, PartialEq, Eq, Structural)]
pub struct UnexpectedEof {
    /// How many bytes the buffer asks for.
    pub needed: usize,
    /// How many bytes the input holds.
    pub available: usize,
}

/// Appends `buf` to `drain` as little-endian 32-bit words, without framing.
pub fn write_data(drain: &mut Vec<u8>, buf: &[u32])
    ensures
        final(drain)@ == old(drain)@ + block_bytes(buf@),
{
    let mut i: usize = 0;
    while i < buf.len()
        invariant
            i <= buf@.len(),
            drain@ == old(drain)@ + block_bytes(buf@.take(i as int)),
        decreases buf@.len() - i,
    {
        put_le32(drain, buf[i]);
        i += 1;
    }
}

/// Fills `buf` with the little-endian 32-bit words at the start of `source`.
///
/// The buffer keeps its length. An input too short for it is refused and
/// leaves the buffer as it was.
pub fn read_data(source: &[u8], buf: &mut Vec<u32>) -> (r: Result<(), UnexpectedEof>)
    ensures
        r is Ok <==> 4 * old(buf)@.len() <= source@.len(),
        r is Ok ==> final(buf)@ == block_words(source@, old(buf)@.len()),
        r is Err ==> final(buf)@ == old(buf)@ && r == Err::<(), UnexpectedEof>(
            (UnexpectedEof {
                needed: if 4 * old(buf)@.len() <= usize::MAX {
                    (4 * old(buf)@.len()) as usize
                } else {
                    usize::MAX
                },
                available: source@.len() as usize,
            }),
        ),
{
    let n: usize = buf.len();
    if n > source.len() / 4 {
        let needed: usize = if n <= usize::MAX / 4 {
            4 * n
        } else {
            usize::MAX
        };
        return Err(UnexpectedEof { needed, available: source.len() });
    }
    let mut i: usize = 0;
    while i < n
        invariant
            i <= n,
            n == buf@.len(),
            4 * n <= source@.len() <= usize::MAX,
            forall|j: int| 0 <= j < i ==> buf@[j] == from_le32(source@.subrange(4 * j, 4 * j + 4)),
        decreases n - i,
    {
        let x: u32 = get_le32(source, 4 * i);
        buf.set(i, x);
        i += 1;
    }
    Ok(())
}

} // verus!
