use vstd::prelude::*;

verus! {

/// The word that four bytes spell, the most significant byte first.
pub open spec fn word_of(b0: u8, b1: u8, b2: u8, b3: u8) -> u32 {
    (b0 * 0x100_0000 + b1 * 0x1_0000 + b2 * 0x100 + b3) as u32
}

/// The words that `bytes` spell, four bytes to a word.
pub open spec fn words_of(bytes: Seq<u8>) -> Seq<u32> {
    Seq::new(
        bytes.len() / 4,
        |i: int| word_of(bytes[4 * i], bytes[4 * i + 1], bytes[4 * i + 2], bytes[4 * i + 3]),
    )
}

/// Reads a program image: big-endian 32-bit words, one after the other. An
/// image whose length is not a multiple of four bytes is refused.
pub fn program(bytes: &[u8]) -> (words: Option<Vec<u32>>)
    ensures
        match words {
            Some(words) => bytes@.len() % 4 == 0 && words@ == words_of(bytes@),
            None => bytes@.len() % 4 != 0,
        },
{
    let n: usize = bytes.len();
    if n % 4 != 0 {
        return None;
    }
    let mut words: Vec<u32> = Vec::with_capacity(n / 4);
    let mut i: usize = 0;
    while i < n
        invariant
            n == bytes@.len(),
            n % 4 == 0,
            i % 4 == 0,
            i <= n,
            words@.len() == i / 4,
            forall|k: int|
                0 <= k < words@.len() ==> words@[k] == word_of(
                    bytes@[4 * k],
                    bytes@[4 * k + 1],
                    bytes@[4 * k + 2],
                    bytes@[4 * k + 3],
                ),
        decreases n - i,
    {
        let word: u32 = (bytes[i] as u32) * 0x100_0000 + (bytes[i + 1] as u32) * 0x1_0000 + (
        bytes[i + 2] as u32) * 0x100 + (bytes[i + 3] as u32);
        words.push(word);
        i = i + 4;
    }
    assert(words@ =~= words_of(bytes@));
    Some(words)
}

} // verus!
