use vstd::prelude::*;

use crate::encoder::{
    encoded, in_alphabet, lemma_state_after_len, mix_in, mix_prefix, slot, state_after, ROUNDS,
    WIDTH,
};

verus! {

/// The encoding is a function of the input bytes alone: equal inputs give
/// equal encodings, so repeated calls of `encode` on one input agree.
pub proof fn lemma_encode_deterministic(x: Seq<u8>, y: Seq<u8>)
    requires
        x == y,
    ensures
        encoded(x) == encoded(y),
{
}

/// Every encoding, that of the empty input included, has sixteen characters.
pub proof fn lemma_encoded_length(x: Seq<u8>)
    ensures
        encoded(x).len() == WIDTH,
{
    lemma_state_after_len(x, ROUNDS as nat);
}

/// Every character of an encoding is a lower case letter `a` to `z` or an
/// upper case letter `A` to `Z`.
pub proof fn lemma_encoded_alphabet(x: Seq<u8>)
    ensures
        forall|i: int| 0 <= i < encoded(x).len() ==> in_alphabet(#[trigger] encoded(x)[i]),
{
    crate::encoder::lemma_letter_in_alphabet_all();
    lemma_encoded_length(x);
}

/// Mixing in only reads the first `n` input bytes.
proof fn lemma_mix_prefix_agree(s: Seq<u8>, x: Seq<u8>, y: Seq<u8>, n: nat)
    requires
        n <= x.len(),
        n <= y.len(),
        forall|i: int| 0 <= i < n ==> x[i] == y[i],
    ensures
        mix_prefix(s, x, n) == mix_prefix(s, y, n),
    decreases n,
{
    if n > 0 {
        lemma_mix_prefix_agree(s, x, y, (n - 1) as nat);
    }
}

/// The mix-in pass wraps around every sixteen bytes: after a whole number of
/// sixteen-byte blocks, the bytes that follow land in the slots they would
/// have reached had the input started with them.
pub proof fn lemma_mix_in_wraps(s: Seq<u8>, a: Seq<u8>, b: Seq<u8>)
    requires
        s.len() == WIDTH,
        a.len() % 16 == 0,
    ensures
        mix_in(s, a + b) == mix_in(mix_in(s, a), b),
{
    lemma_mix_prefix_concat(s, a, b, b.len());
}

proof fn lemma_mix_prefix_concat(s: Seq<u8>, a: Seq<u8>, b: Seq<u8>, n: nat)
    requires
        a.len() % 16 == 0,
        n <= b.len(),
    ensures
        mix_prefix(s, a + b, a.len() + n) == mix_prefix(mix_in(s, a), b, n),
    decreases n,
{
    if n == 0 {
        lemma_mix_prefix_agree(s, a + b, a, a.len());
    } else {
        let m = n - 1;
        lemma_mix_prefix_concat(s, a, b, m as nat);
        vstd::arithmetic::div_mod::lemma_add_mod_noop(a.len() as int, m, 16);
        vstd::arithmetic::div_mod::lemma_mod_twice(m, 16);
        assert(slot(a.len() + m) == slot(m));
        assert((a + b)[a.len() + m] == b[m]);
    }
}

proof fn lemma_mix_prefix_block(s: Seq<u8>, a: Seq<u8>, n: nat)
    requires
        s.len() == WIDTH,
        a.len() == WIDTH,
        n <= 16,
    ensures
        mix_prefix(s, a, n).len() == WIDTH,
        forall|k: int|
            0 <= k < 16 ==> #[trigger] mix_prefix(s, a, n)[k] == if 15 - k < n {
                s[k] ^ a[15 - k]
            } else {
                s[k]
            },
    decreases n,
{
    if n > 0 {
        lemma_mix_prefix_block(s, a, (n - 1) as nat);
        assert(slot(n - 1) == 16 - n);
    }
}

/// A sixteen-byte block is mixed in back to front: its byte `j` is XOR-ed
/// into slot `15 - j`.
pub proof fn lemma_mix_in_block(s: Seq<u8>, a: Seq<u8>)
    requires
        s.len() == WIDTH,
        a.len() == WIDTH,
    ensures
        mix_in(s, a).len() == WIDTH,
        forall|j: int| 0 <= j < 16 ==> #[trigger] mix_in(s, a)[15 - j] == s[15 - j] ^ a[j],
{
    lemma_mix_prefix_block(s, a, 16);
    assert forall|j: int| 0 <= j < 16 implies #[trigger] mix_in(s, a)[15 - j] == s[15 - j] ^ a[j] by {
        assert(mix_prefix(s, a, 16)[15 - j] == s[15 - j] ^ a[15 - (15 - j)]);
    }
}

/// A sixteen-byte block mixed in twice in a row cancels out: the second copy
/// XORs every slot with the byte the first copy put there.
pub proof fn lemma_mix_in_block_twice(s: Seq<u8>, a: Seq<u8>)
    requires
        s.len() == WIDTH,
        a.len() == WIDTH,
    ensures
        mix_in(s, a + a) == s,
{
    lemma_mix_in_wraps(s, a, a);
    let t = mix_in(s, a);
    lemma_mix_in_block(s, a);
    lemma_mix_in_block(t, a);
    assert forall|k: int| 0 <= k < 16 implies #[trigger] mix_in(t, a)[k] == s[k] by {
        let j = 15 - k;
        assert(mix_in(t, a)[15 - j] == t[15 - j] ^ a[j]);
        assert(t[15 - j] == s[15 - j] ^ a[j]);
        let x = s[k];
        let y = a[j];
        assert((x ^ y) ^ y == x) by (bit_vector);
    }
    assert(mix_in(t, a) =~= s);
}

proof fn lemma_state_after_block_twice(a: Seq<u8>, n: nat)
    requires
        a.len() == WIDTH,
    ensures
        state_after(a + a, n) == state_after(Seq::<u8>::empty(), n),
    decreases n,
{
    if n > 0 {
        lemma_state_after_block_twice(a, (n - 1) as nat);
        let p = state_after(a + a, (n - 1) as nat);
        lemma_state_after_len(a + a, (n - 1) as nat);
        lemma_mix_in_block_twice(p.0, a);
        assert(mix_in(p.0, Seq::<u8>::empty()) == p.0);
    }
}

/// An input made of one sixteen-byte block written twice encodes as the
/// empty input does: in every round the second copy undoes the first.
pub proof fn lemma_encoded_block_twice(a: Seq<u8>)
    requires
        a.len() == WIDTH,
    ensures
        encoded(a + a) == encoded(Seq::<u8>::empty()),
{
    lemma_state_after_block_twice(a, ROUNDS as nat);
}

} // verus!
