//! The M-Bus checksum: the sum of the bytes, modulo 256.
use vstd::prelude::*;

verus! {

/// Arithmetic sum of the bytes, without reduction.
pub open spec fn byte_sum(s: Seq<u8>) -> nat
    decreases s.len(),
{
    if s.len() == 0 {
        0
    } else {
        byte_sum(s.drop_last()) + s.last() as nat
    }
}

/// The checksum of a byte sequence: its sum reduced modulo 256.
pub open spec fn checksum(s: Seq<u8>) -> u8 {
    (byte_sum(s) % 256) as u8
}

/// The sum of a concatenation is the sum of its parts.
pub proof fn lemma_byte_sum_append(a: Seq<u8>, b: Seq<u8>)
    ensures
        byte_sum(a + b) == byte_sum(a) + byte_sum(b),
    decreases b.len(),
{
    if b.len() == 0 {
        assert(a + b =~= a);
    } else {
        lemma_byte_sum_append(a, b.drop_last());
        assert((a + b).drop_last() =~= a + b.drop_last());
    }
}

/// The checksum of a concatenation is the wrapping sum of the parts' checksums.
pub proof fn lemma_checksum_append(a: Seq<u8>, b: Seq<u8>)
    ensures
        checksum(a + b) as int == (checksum(a) as int + checksum(b) as int) % 256,
{
    lemma_byte_sum_append(a, b);
    vstd::arithmetic::div_mod::lemma_add_mod_noop(byte_sum(a) as int, byte_sum(b) as int, 256);
}

/// Changing one byte of a sequence changes its checksum.
pub proof fn lemma_checksum_one_byte(s: Seq<u8>, i: int, v: u8)
    requires
        0 <= i < s.len(),
        s[i] != v,
    ensures
        checksum(s.update(i, v)) != checksum(s),
{
    let t = s.update(i, v);
    let pre = s.take(i);
    let post = s.skip(i + 1);
    assert(s =~= pre + seq![s[i]] + post);
    assert(t =~= pre + seq![v] + post);
    lemma_byte_sum_append(pre + seq![s[i]], post);
    lemma_byte_sum_append(pre, seq![s[i]]);
    lemma_byte_sum_append(pre + seq![v], post);
    lemma_byte_sum_append(pre, seq![v]);
    assert(byte_sum(seq![s[i]]) == s[i] as nat) by {
        assert(seq![s[i]].drop_last() =~= Seq::<u8>::empty());
        assert(byte_sum(Seq::<u8>::empty()) == 0);
    }
    assert(byte_sum(seq![v]) == v as nat) by {
        assert(seq![v].drop_last() =~= Seq::<u8>::empty());
        assert(byte_sum(Seq::<u8>::empty()) == 0);
    }
    let rest = byte_sum(pre) + byte_sum(post);
    assert(byte_sum(t) == rest + v);
    assert(byte_sum(s) == rest + s[i]);
    assert((rest + v) % 256 != (rest + s[i]) % 256) by (nonlinear_arith)
        requires
            v != s[i],
            0 <= v < 256,
            0 <= s[i] < 256,
            rest >= 0,
    ;
}

/// The checksum of `bytes`: their wrapping sum.
pub fn calculate_checksum(bytes: &[u8]) -> (r: u8)
    ensures
        r == checksum(bytes@),
{
    let mut sum: u8 = 0;
    let mut i: usize = 0;
    while i < bytes.len()
        invariant
            i <= bytes@.len(),
            sum == checksum(bytes@.take(i as int)),
        decreases bytes@.len() - i,
    {
        let b = bytes[i];
        proof {
            let s = bytes@.take(i as int + 1);
            assert(s.drop_last() =~= bytes@.take(i as int));
            vstd::arithmetic::div_mod::lemma_add_mod_noop(
                byte_sum(bytes@.take(i as int)) as int,
                b as int,
                256,
            );
            vstd::arithmetic::div_mod::lemma_small_mod(b as nat, 256);
        }
        sum = sum.wrapping_add(b);
        i = i + 1;
    }
    assert(bytes@.take(i as int) =~= bytes@);
    sum
}

} // verus!
