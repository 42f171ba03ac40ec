//! Bytes and where they stand.
use vstd::prelude::*;

use crate::value::{
    le_bytes, le_number, le_range, lemma_le_bytes_len, lemma_le_round_trip, push_le,
};

verus! {

/// The bytes of 32-bit words, one behind the other, the lowest byte of each first.
pub open spec fn word_bytes(words: Seq<u32>) -> Seq<u8>
    decreases words.len(),
{
    if words.len() == 0 {
        Seq::empty()
    } else {
        word_bytes(words.drop_last()) + le_bytes(words.last() as nat, 4)
    }
}

/// Words take four bytes each.
pub proof fn lemma_word_bytes_len(words: Seq<u32>)
    ensures
        word_bytes(words).len() == 4 * words.len(),
    decreases words.len(),
{
    if words.len() > 0 {
        lemma_word_bytes_len(words.drop_last());
        lemma_le_bytes_len(words.last() as nat, 4);
    }
}

/// The bytes of words that follow others follow theirs.
pub proof fn lemma_word_bytes_concat(a: Seq<u32>, b: Seq<u32>)
    ensures
        word_bytes(a + b) == word_bytes(a) + word_bytes(b),
    decreases b.len(),
{
    if b.len() == 0 {
        assert(a + b =~= a);
        assert(word_bytes(a) + word_bytes(b) =~= word_bytes(a));
    } else {
        assert((a + b).drop_last() =~= a + b.drop_last());
        lemma_word_bytes_concat(a, b.drop_last());
        let last = le_bytes(b.last() as nat, 4);
        assert(word_bytes(a) + (word_bytes(b.drop_last()) + last) =~= (word_bytes(a) + word_bytes(
            b.drop_last(),
        )) + last);
    }
}

/// Words that stand somewhere among others have their bytes at four times their place.
pub proof fn lemma_word_bytes_at(words: Seq<u32>, start: int, end: int)
    requires
        0 <= start <= end <= words.len(),
    ensures
        word_bytes(words).len() == 4 * words.len(),
        word_bytes(words).subrange(4 * start, 4 * end) == word_bytes(words.subrange(start, end)),
{
    let a = words.take(start);
    let b = words.subrange(start, end);
    let c = words.skip(end);
    assert(words =~= a + b + c);
    lemma_word_bytes_concat(a + b, c);
    lemma_word_bytes_concat(a, b);
    lemma_word_bytes_len(a);
    lemma_word_bytes_len(b);
    lemma_word_bytes_len(words);
    assert(word_bytes(words).subrange(4 * start, 4 * end) =~= word_bytes(b));
}

/// The four bytes of each word stand for the word.
pub proof fn lemma_word_found(words: Seq<u32>, k: int)
    requires
        0 <= k < words.len(),
    ensures
        word_bytes(words).len() == 4 * words.len(),
        le_number(word_bytes(words).subrange(4 * k, 4 * k + 4)) == words[k],
{
    lemma_word_bytes_at(words, k, k + 1);
    let one = words.subrange(k, k + 1);
    assert(one.drop_last() =~= Seq::empty());
    assert(one.last() == words[k]);
    assert(word_bytes(one.drop_last()) =~= Seq::empty());
    assert(word_bytes(one) =~= le_bytes(words[k] as nat, 4));
    reveal_with_fuel(le_range, 5);
    lemma_le_round_trip(words[k] as nat, 4);
}

/// Puts the bytes of words behind a list of bytes.
pub fn push_words(bytes: &mut Vec<u8>, words: &Vec<u32>)
    ensures
        final(bytes)@ == old(bytes)@ + word_bytes(words@),
{
    let mut i: usize = 0;
    assert(words@.take(0) =~= Seq::<u32>::empty());
    assert(bytes@ + word_bytes(words@.take(0)) =~= bytes@);
    while i < words.len()
        invariant
            i <= words@.len(),
            bytes@ == old(bytes)@ + word_bytes(words@.take(i as int)),
        decreases words@.len() - i,
    {
        proof {
            let next = words@.take(i + 1);
            assert(next.drop_last() =~= words@.take(i as int));
            assert(old(bytes)@ + (word_bytes(words@.take(i as int)) + le_bytes(
                words@[i as int] as nat,
                4,
            )) =~= (old(bytes)@ + word_bytes(words@.take(i as int))) + le_bytes(
                words@[i as int] as nat,
                4,
            ));
        }
        push_le(bytes, words[i] as u128, 4);
        i += 1;
    }
    assert(words@.take(i as int) =~= words@);
}

/// The smallest multiple of `align` that is not below `val`.
pub open spec fn aligned(val: nat, align: nat) -> nat {
    (((val + align - 1) / (align as int)) * align) as nat
}

/// What being the smallest multiple means: no other multiple `m` that is not below `val` is smaller.
pub proof fn lemma_aligned(val: nat, align: nat, m: nat)
    requires
        align > 0,
    ensures
        val <= aligned(val, align) < val + align,
        aligned(val, align) % align == 0,
        m % align == 0 && val <= m ==> aligned(val, align) <= m,
{
    let q = (val + align - 1) / (align as int);
    assert(val <= q * align < val + align) by (nonlinear_arith)
        requires
            align > 0,
            q == (val + align - 1) / (align as int),
    ;
    vstd::arithmetic::div_mod::lemma_mod_multiples_basic(q, align as int);
    if m % align == 0 && val <= m {
        let k = m / align;
        assert(m == k * align) by (nonlinear_arith)
            requires
                m % align == 0,
                align > 0,
                k == m / align,
        ;
        assert(q * align <= k * align) by (nonlinear_arith)
            requires
                val <= k * align,
                q * align < val + align,
                align > 0,
        ;
    }
}

/// The smallest multiple of `align` that is not below `val`.
pub fn next_multiple_of(val: u128, align: u128) -> (multiple: u128)
    requires
        align > 0,
        aligned(val as nat, align as nat) <= u128::MAX,
    ensures
        multiple == aligned(val as nat, align as nat),
        multiple >= val,
{
    let r: u128 = val % align;
    proof {
        lemma_aligned(val as nat, align as nat, 0);
        assert(aligned(val as nat, align as nat) == if r == 0 {
            val as int
        } else {
            val + (align - r)
        }) by {
            let q = val as int / align as int;
            assert(val == q * align + r) by (nonlinear_arith)
                requires
                    align > 0,
                    q == val as int / align as int,
                    r == val as int % align as int,
            ;
            if r == 0 {
                assert((val + align - 1) / (align as int) == q) by (nonlinear_arith)
                    requires
                        align > 0,
                        val == q * align,
                ;
            } else {
                assert((val + align - 1) / (align as int) == q + 1) by (nonlinear_arith)
                    requires
                        align > 0,
                        val == q * align + r,
                        0 < r < align,
                ;
                assert((q + 1) * align == q * align + align) by (nonlinear_arith);
            }
        }
    }
    if r == 0 {
        val
    } else {
        val + (align - r)
    }
}

/// A list of bytes after some were written over it from a place on.
pub open spec fn written(buf: Seq<u8>, at: int, bytes: Seq<u8>) -> Seq<u8> {
    Seq::new(
        buf.len(),
        |i: int|
            if at <= i < at + bytes.len() {
                bytes[i - at]
            } else {
                buf[i]
            },
    )
}

/// What was written is found at its place, and all other bytes stay as they are.
pub proof fn lemma_written(buf: Seq<u8>, at: int, bytes: Seq<u8>)
    requires
        0 <= at,
        at + bytes.len() <= buf.len(),
    ensures
        written(buf, at, bytes).len() == buf.len(),
        written(buf, at, bytes).take(at) == buf.take(at),
        written(buf, at, bytes).subrange(at, at + bytes.len()) == bytes,
        written(buf, at, bytes).skip(at + bytes.len()) == buf.skip(at + bytes.len()),
{
    let w = written(buf, at, bytes);
    assert(w.take(at) =~= buf.take(at));
    assert(w.subrange(at, at + bytes.len()) =~= bytes);
    assert(w.skip(at + bytes.len()) =~= buf.skip(at + bytes.len()));
}

/// Writes bytes over a list of bytes.
pub fn write_bytes(buf: &mut Vec<u8>, at: usize, bytes: &Vec<u8>)
    requires
        at + bytes@.len() <= old(buf)@.len(),
    ensures
        final(buf)@ == written(old(buf)@, at as int, bytes@),
{
    let total: usize = buf.len();
    let mut i: usize = 0;
    assert(buf@ =~= written(buf@, at as int, bytes@.take(0)));
    while i < bytes.len()
        invariant
            i <= bytes@.len(),
            total == old(buf)@.len(),
            at + bytes@.len() <= old(buf)@.len(),
            buf@ == written(old(buf)@, at as int, bytes@.take(i as int)),
        decreases bytes@.len() - i,
    {
        buf.set(at + i, bytes[i]);
        i += 1;
        assert(buf@ =~= written(old(buf)@, at as int, bytes@.take(i as int)));
    }
    assert(bytes@.take(i as int) =~= bytes@);
}

/// A list of `n` zero bytes.
pub fn zero_bytes(n: usize) -> (bytes: Vec<u8>)
    ensures
        bytes@ == Seq::new(n as nat, |i: int| 0u8),
{
    let mut bytes: Vec<u8> = Vec::new();
    let mut i: usize = 0;
    while i < n
        invariant
            i <= n,
            bytes@ == Seq::new(i as nat, |j: int| 0u8),
        decreases n - i,
    {
        bytes.push(0);
        i += 1;
        assert(bytes@ =~= Seq::new(i as nat, |j: int| 0u8));
    }
    bytes
}

} // verus!
