//! The fixed encoding of protocol data as words of 64 bits, one word to a
//! field element.
//!
//! Bytes are framed by their length and packed eight to a word,
//! little-endian; lists are framed by their length and kept in the order
//! given. Every encoding can be read back in one way only.

use crate::field::FieldElement;
use vstd::prelude::*;

verus! {

/// 256 to the power `n`.
pub open spec fn pow256(n: nat) -> nat
    decreases n,
{
    if n == 0 {
        1
    } else {
        256 * pow256((n - 1) as nat)
    }
}

/// The integer that `bytes` stand for, least significant byte first.
pub open spec fn le_value(bytes: Seq<u8>) -> nat
    decreases bytes.len(),
{
    if bytes.len() == 0 {
        0
    } else {
        (bytes[0] as nat) + 256 * le_value(bytes.drop_first())
    }
}

/// `n` bytes stand for an integer below 256^n.
pub proof fn lemma_le_value_bound(bytes: Seq<u8>)
    ensures
        le_value(bytes) < pow256(bytes.len()),
    decreases bytes.len(),
{
    if bytes.len() > 0 {
        lemma_le_value_bound(bytes.drop_first());
    }
}

/// 256^8 is 2^64, and the smaller powers are below it.
pub proof fn lemma_pow256_word(n: nat)
    requires
        n <= 8,
    ensures
        pow256(n) <= 0x1_0000_0000_0000_0000,
        n < 8 ==> pow256(n) <= 0x1_00_0000_0000_0000,
{
    reveal_with_fuel(pow256, 9);
}

/// Byte strings of one length that stand for one integer are the same.
pub proof fn lemma_le_value_injective(a: Seq<u8>, b: Seq<u8>)
    requires
        a.len() == b.len(),
        le_value(a) == le_value(b),
    ensures
        a == b,
    decreases a.len(),
{
    if a.len() > 0 {
        lemma_le_value_injective(a.drop_first(), b.drop_first());
        assert(a =~= seq![a[0]] + a.drop_first());
        assert(b =~= seq![b[0]] + b.drop_first());
    } else {
        assert(a =~= b);
    }
}

/// The number of words that `len` bytes are packed into.
pub open spec fn word_count(len: nat) -> nat {
    (len + 7) / 8
}

/// The `j`-th group of up to eight bytes.
pub open spec fn chunk(bytes: Seq<u8>, j: int) -> Seq<u8> {
    bytes.subrange(8 * j, if 8 * j + 8 <= bytes.len() {
        8 * j + 8
    } else {
        bytes.len() as int
    })
}

/// The bytes packed eight to a word.
pub open spec fn packed(bytes: Seq<u8>) -> Seq<nat> {
    Seq::new(word_count(bytes.len()), |j: int| le_value(chunk(bytes, j)))
}

/// The bytes as words: their number, then the bytes packed.
pub open spec fn framed(bytes: Seq<u8>) -> Seq<nat> {
    seq![bytes.len() as nat] + packed(bytes)
}

/// Byte strings with the same framing are the same.
pub proof fn lemma_framed_injective(a: Seq<u8>, b: Seq<u8>)
    requires
        framed(a) == framed(b),
    ensures
        a == b,
{
    assert(framed(a)[0] == a.len());
    assert(framed(b)[0] == b.len());
    assert forall|i: int| 0 <= i < a.len() implies a[i] == b[i] by {
        let j = i / 8;
        assert(0 <= j < word_count(a.len()));
        assert(framed(a)[j + 1] == packed(a)[j]);
        assert(framed(b)[j + 1] == packed(b)[j]);
        assert(chunk(a, j).len() == chunk(b, j).len());
        lemma_le_value_injective(chunk(a, j), chunk(b, j));
        assert(chunk(a, j)[i - 8 * j] == a[i]);
        assert(chunk(b, j)[i - 8 * j] == b[i]);
    }
    assert(a =~= b);
}

/// The word that up to eight bytes of `bytes` from `start` on are packed
/// into.
pub fn pack_word(bytes: &[u8], start: usize, end: usize) -> (word: u64)
    requires
        start <= end <= bytes.len(),
        end - start <= 8,
    ensures
        word == le_value(bytes@.subrange(start as int, end as int)),
{
    let mut word: u64 = 0;
    let mut t: usize = end;
    proof {
        assert(bytes@.subrange(end as int, end as int) =~= Seq::<u8>::empty());
    }
    while t > start
        invariant
            start <= t <= end <= bytes.len(),
            end - start <= 8,
            word == le_value(bytes@.subrange(t as int, end as int)),
        decreases t - start,
    {
        proof {
            let rest = bytes@.subrange(t as int, end as int);
            let more = bytes@.subrange(t - 1, end as int);
            lemma_le_value_bound(rest);
            lemma_pow256_word(rest.len());
            assert(more.drop_first() =~= rest);
            assert(more[0] == bytes@[t - 1]);
        }
        t = t - 1;
        word = word * 256 + bytes[t] as u64;
    }
    word
}

/// Appends the framing of `bytes` to `out`.
pub fn push_framed(out: &mut Vec<FieldElement>, bytes: &[u8])
    ensures
        final(out).deep_view() == old(out).deep_view() + framed(bytes@),
{
    let ghost before = out.deep_view();
    out.push(FieldElement::from_u64(bytes.len() as u64));
    proof {
        assert(out.deep_view() =~= before + seq![bytes.len() as nat]);
    }
    let mut start: usize = 0;
    let ghost mut done: int = 0;
    while start < bytes.len()
        invariant
            start <= bytes.len(),
            start == 8 * done || (start == bytes.len() && done == word_count(bytes@.len())),
            0 <= done <= word_count(bytes@.len()),
            out.deep_view() == before + seq![bytes.len() as nat] + packed(bytes@).take(done),
        decreases bytes.len() - start,
    {
        let end = if bytes.len() - start >= 8 {
            start + 8
        } else {
            bytes.len()
        };
        let word = pack_word(bytes, start, end);
        let ghost prior = out.deep_view();
        out.push(FieldElement::from_u64(word));
        proof {
            assert(bytes@.subrange(start as int, end as int) =~= chunk(bytes@, done));
            assert(packed(bytes@)[done] == word);
            assert(packed(bytes@).take(done + 1) =~= packed(bytes@).take(done).push(word as nat));
            assert(out.deep_view() =~= prior.push(word as nat));
            assert(out.deep_view() =~= before + seq![bytes.len() as nat] + packed(bytes@).take(
                done + 1,
            ));
            done = done + 1;
        }
        start = end;
    }
    proof {
        assert(done == word_count(bytes@.len()));
        assert(packed(bytes@).take(done) =~= packed(bytes@));
        assert(before + seq![bytes.len() as nat] + packed(bytes@) =~= before + framed(bytes@));
    }
}

} // verus!
