//! Packing of MIDI bytes into the 32-bit words that CoreMIDI sends.
use vstd::prelude::*;

verus! {

/// The big-endian value of a sequence of bytes.
pub open spec fn be_value(s: Seq<u8>) -> int
    decreases s.len(),
{
    if s.len() == 0 {
        0
    } else {
        be_value(s.drop_last()) * 256 + s.last()
    }
}

/// The words that carry `data`: each group of four bytes as a big-endian
/// word, then the remaining bytes, if any, right-aligned in a last word whose
/// leading bytes are zero.
pub open spec fn midi_words(data: Seq<u8>) -> Seq<u32> {
    let full = data.len() / 4;
    Seq::new(
        if data.len() % 4 > 0 {
            (full + 1) as nat
        } else {
            full as nat
        },
        |i: int| be_value(data.subrange(4 * i, if 4 * i + 4 <= data.len() {
            4 * i + 4
        } else {
            data.len() as int
        })) as u32,
    )
}

/// The big-endian value of up to four bytes fits in a word.
proof fn lemma_be_value_bound(s: Seq<u8>)
    requires
        s.len() <= 4,
    ensures
        0 <= be_value(s) < pow256(s.len()),
    decreases s.len(),
{
    if s.len() > 0 {
        lemma_be_value_bound(s.drop_last());
    }
}

/// 256 to the power `n`, for `n` up to 4.
spec fn pow256(n: nat) -> int {
    if n == 0 {
        1
    } else if n == 1 {
        256
    } else if n == 2 {
        65536
    } else if n == 3 {
        16777216
    } else {
        4294967296
    }
}

/// Packs MIDI bytes into the 32-bit words that CoreMIDI sends (MIDI is
/// big-endian).
pub fn pack_midi_words(data: &[u8]) -> (r: Vec<u32>)
    ensures
        r@ == midi_words(data@),
{
    let n = data.len();
    let mut words: Vec<u32> = Vec::new();
    let mut start: usize = 0;
    while start < n
        invariant
            n == data@.len(),
            start <= n,
            start == 4 * words@.len() || (start == n && 4 * (words@.len() - 1) < n < 4
                * words@.len()),
            forall|i: int| 0 <= i < words@.len() ==> #[trigger] words@[i] == midi_words(data@)[i],
        decreases n - start,
    {
        let end: usize = if n - start >= 4 {
            start + 4
        } else {
            n
        };
        let mut word: u32 = 0;
        let mut k: usize = start;
        while k < end
            invariant
                start <= k <= end,
                end <= n,
                n == data@.len(),
                end - start <= 4,
                word == be_value(data@.subrange(start as int, k as int)),
            decreases end - k,
        {
            proof {
                assert(data@.subrange(start as int, k + 1).drop_last() =~= data@.subrange(
                    start as int,
                    k as int,
                ));
                lemma_be_value_bound(data@.subrange(start as int, k + 1));
            }
            word = word * 256 + data[k] as u32;
            k = k + 1;
        }
        let ghost idx = words@.len();
        assert(4 * idx == start);
        words.push(word);
        start = end;
    }
    assert(words@ =~= midi_words(data@));
    words
}

} // verus!
