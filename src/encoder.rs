use vstd::prelude::*;

use crate::table::LOOKUP;

verus! {

/// Number of bytes in the scratch buffer, and of characters in an encoding.
pub const WIDTH: usize = 16;

/// Number of mixing rounds.
pub const ROUNDS: usize = 5;

/// Starting value of the rolling hash.
pub const SEED: u16 = 17;

/// One step of the rolling hash: fold byte `b` into `h`.
pub open spec fn hash_step(h: u16, b: u8) -> u16 {
    (h >> 8u16) ^ LOOKUP[(h & 0xffu16) as int] ^ LOOKUP[b as int]
}

/// The hash after folding in the last `n` bytes of `s`, last byte first.
pub open spec fn hash_last(s: Seq<u8>, h: u16, n: nat) -> u16
    decreases n,
{
    if n == 0 {
        h
    } else {
        hash_step(hash_last(s, h, (n - 1) as nat), s[s.len() - n])
    }
}

/// The hash of a whole scratch buffer, read from its last byte to its first.
pub open spec fn scratch_hash(s: Seq<u8>, h: u16) -> u16 {
    hash_last(s, h, s.len())
}

/// The scratch slot that input byte `j` is folded into.
pub open spec fn slot(j: int) -> int {
    15 - j % 16
}

/// The scratch buffer after XOR-ing the first `n` input bytes into it.
pub open spec fn mix_prefix(s: Seq<u8>, input: Seq<u8>, n: nat) -> Seq<u8>
    decreases n,
{
    if n == 0 {
        s
    } else {
        let t = mix_prefix(s, input, (n - 1) as nat);
        let k = slot(n - 1);
        t.update(k, t[k] ^ input[n - 1])
    }
}

/// The mix-in pass: every input byte XOR-ed into its slot.
pub open spec fn mix_in(s: Seq<u8>, input: Seq<u8>) -> Seq<u8> {
    mix_prefix(s, input, input.len())
}

/// Scratch buffer and hash after the first `k` hash-and-rewrite steps.
///
/// Step `i` hashes the buffer as it stands and writes the hash's low byte to
/// slot `2 * i` and its high byte to slot `2 * i + 1`.
pub open spec fn rewrite_steps(s: Seq<u8>, h: u16, k: nat) -> (Seq<u8>, u16)
    decreases k,
{
    if k == 0 {
        (s, h)
    } else {
        let p = rewrite_steps(s, h, (k - 1) as nat);
        let g = scratch_hash(p.0, p.1);
        let j = 2 * (k - 1);
        (p.0.update(j, (g & 0xffu16) as u8).update(j + 1, ((g >> 8u16) & 0xffu16) as u8), g)
    }
}

/// One round: the mix-in pass, then eight hash-and-rewrite steps.
pub open spec fn round(s: Seq<u8>, h: u16, input: Seq<u8>) -> (Seq<u8>, u16) {
    rewrite_steps(mix_in(s, input), h, 8)
}

/// Scratch buffer and hash after `n` rounds on `input`.
pub open spec fn state_after(input: Seq<u8>, n: nat) -> (Seq<u8>, u16)
    decreases n,
{
    if n == 0 {
        (Seq::new(16, |i: int| 0u8), SEED)
    } else {
        let p = state_after(input, (n - 1) as nat);
        round(p.0, p.1, input)
    }
}

/// Whether `c` is the code of an ASCII letter, upper or lower case.
pub open spec fn is_ascii_letter(c: u8) -> bool {
    (65 <= c <= 90) || (97 <= c <= 122)
}

/// The output character for one final scratch byte.
pub open spec fn letter_of(b: u8) -> char {
    let lower = b & 0x7fu8;
    if is_ascii_letter(lower) {
        lower as char
    } else {
        ((b >> 4u8) + 0x61u8) as u8 as char
    }
}

/// The characters that an encoding may hold: `a` to `z`, or `A` to `Z`.
pub open spec fn in_alphabet(c: char) -> bool {
    ('a' <= c <= 'z') || ('A' <= c <= 'Z')
}

/// The encoding of `input`: the final scratch buffer, byte by byte as letters.
pub open spec fn encoded(input: Seq<u8>) -> Seq<char> {
    state_after(input, ROUNDS as nat).0.map_values(|b: u8| letter_of(b))
}

/// Relies on `String::push`: it appends the character at the end.
#[verifier::external_body]
fn push_char(s: &mut String, c: char)
    ensures
        final(s)@ == old(s)@.push(c),
{
    s.push(c)
}

/// The rolling hash of the scratch buffer, read from its last byte to its first.
fn pr_hash(scratch: &[u8; 16], hash: u16) -> (r: u16)
    ensures
        r == scratch_hash(scratch@, hash),
{
    let mut h: u16 = hash;
    let mut i: usize = WIDTH;
    while i > 0
        invariant
            i <= 16,
            scratch@.len() == 16,
            h == hash_last(scratch@, hash, (16 - i) as nat),
        decreases i,
    {
        i = i - 1;
        let lo: u16 = h & 0xff;
        assert(h & 0xffu16 <= 0xffu16) by (bit_vector);
        h = (h >> 8) ^ LOOKUP[lo as usize] ^ LOOKUP[scratch[i] as usize];
    }
    h
}

/// Returns the sixteen-character encoding of `input`.
///
/// Five rounds each XOR the input into a sixteen-byte scratch buffer and then
/// rewrite the buffer, two bytes at a time, from a rolling hash; each final
/// byte then becomes one letter.
pub fn encode(input: &[u8]) -> (r: String)
    ensures
        r@ == encoded(input@),
        r@.len() == WIDTH,
        forall|i: int| 0 <= i < r@.len() ==> in_alphabet(#[trigger] r@[i]),
{
    let mut scratch: [u8; 16] = [0; 16];
    let mut hash: u16 = SEED;
    assert(scratch@ =~= state_after(input@, 0).0);
    let mut n: usize = 0;
    while n < ROUNDS
        invariant
            n <= ROUNDS,
            scratch@.len() == 16,
            (scratch@, hash) == state_after(input@, n as nat),
        decreases ROUNDS - n,
    {
        let ghost start = scratch@;
        let mut j: usize = 0;
        while j < input.len()
            invariant
                j <= input@.len(),
                scratch@.len() == 16,
                scratch@ == mix_prefix(start, input@, j as nat),
            decreases input@.len() - j,
        {
            let k: usize = 15 - j % 16;
            scratch[k] = scratch[k] ^ input[j];
            assert(scratch@ =~= mix_prefix(start, input@, (j + 1) as nat));
            j = j + 1;
        }
        let ghost mixed = scratch@;
        let ghost h0 = hash;
        let mut k: usize = 0;
        while k < 8
            invariant
                k <= 8,
                scratch@.len() == 16,
                (scratch@, hash) == rewrite_steps(mixed, h0, k as nat),
            decreases 8 - k,
        {
            hash = pr_hash(&scratch, hash);
            scratch[2 * k] = (hash & 0xff) as u8;
            scratch[2 * k + 1] = ((hash >> 8) & 0xff) as u8;
            assert(scratch@ =~= rewrite_steps(mixed, h0, (k + 1) as nat).0);
            k = k + 1;
        }
        n = n + 1;
    }
    let mut target = String::new();
    let mut i: usize = 0;
    while i < WIDTH
        invariant
            i <= 16,
            scratch@.len() == 16,
            target@ == scratch@.take(i as int).map_values(|b: u8| letter_of(b)),
        decreases 16 - i,
    {
        let byte: u8 = scratch[i];
        let lower: u8 = byte & 0x7f;
        let c: char = if (65 <= lower && lower <= 90) || (97 <= lower && lower <= 122) {
            lower as char
        } else {
            assert(byte >> 4u8 <= 15u8) by (bit_vector);
            ((byte >> 4) + 0x61) as char
        };
        push_char(&mut target, c);
        assert(target@ =~= scratch@.take(i + 1).map_values(|b: u8| letter_of(b)));
        i = i + 1;
    }
    assert(scratch@.take(16) =~= scratch@);
    proof {
        lemma_letter_in_alphabet_all();
    }
    target
}

/// Every output character is a letter.
pub(crate) proof fn lemma_letter_in_alphabet_all()
    ensures
        forall|b: u8| #[trigger] in_alphabet(letter_of(b)),
{
    assert forall|b: u8| #[trigger] in_alphabet(letter_of(b)) by {
        let lower = b & 0x7fu8;
        assert(b >> 4u8 <= 15u8) by (bit_vector);
        if !is_ascii_letter(lower) {
            let c = ((b >> 4u8) + 0x61u8) as u8;
            assert(0x61 <= c <= 0x70);
        }
    }
}

/// Mixing in keeps a sixteen-byte buffer at sixteen bytes.
pub(crate) proof fn lemma_mix_prefix_len(s: Seq<u8>, input: Seq<u8>, n: nat)
    requires
        s.len() == WIDTH,
        n <= input.len(),
    ensures
        mix_prefix(s, input, n).len() == WIDTH,
    decreases n,
{
    if n > 0 {
        lemma_mix_prefix_len(s, input, (n - 1) as nat);
    }
}

/// Rewriting keeps a sixteen-byte buffer at sixteen bytes.
pub(crate) proof fn lemma_rewrite_steps_len(s: Seq<u8>, h: u16, k: nat)
    requires
        s.len() == WIDTH,
        k <= 8,
    ensures
        rewrite_steps(s, h, k).0.len() == WIDTH,
    decreases k,
{
    if k > 0 {
        lemma_rewrite_steps_len(s, h, (k - 1) as nat);
    }
}

/// The scratch buffer keeps its sixteen bytes through every round.
pub(crate) proof fn lemma_state_after_len(input: Seq<u8>, n: nat)
    ensures
        state_after(input, n).0.len() == WIDTH,
    decreases n,
{
    if n > 0 {
        let p = state_after(input, (n - 1) as nat);
        lemma_state_after_len(input, (n - 1) as nat);
        lemma_mix_prefix_len(p.0, input, input.len());
        lemma_rewrite_steps_len(mix_in(p.0, input), p.1, 8);
    }
}

} // verus!
