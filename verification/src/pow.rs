//! Proof of work: how many zero bits a hash starts with, what they are worth, and the search for
//! a nonce whose hash starts with enough of them.

use rand_chacha::ChaCha8Rng;
use rand_core::{OsRng, RngCore, SeedableRng};
use vstd::arithmetic::power2::{
    lemma2_to64, lemma_pow2_adds, lemma_pow2_strictly_increases, lemma_pow2_unfold, pow2,
};
use vstd::prelude::*;

verus! {

/// No hash counts as more than this many zero bits.
pub const MAX_ZEROS: u32 = 127;

/// The number of zero bits above the highest one bit of a byte.
pub open spec fn byte_zeros(byte: u8) -> nat {
    if byte >= 128 {
        0
    } else if byte >= 64 {
        1
    } else if byte >= 32 {
        2
    } else if byte >= 16 {
        3
    } else if byte >= 8 {
        4
    } else if byte >= 4 {
        5
    } else if byte >= 2 {
        6
    } else if byte >= 1 {
        7
    } else {
        8
    }
}

/// The number of zero bits before the first one bit, the first byte first and in each byte the
/// highest bit first.
pub open spec fn zero_bits(bytes: Seq<u8>) -> nat
    decreases bytes.len(),
{
    if bytes.len() == 0 {
        0
    } else if bytes[0] == 0 {
        8 + zero_bits(bytes.skip(1))
    } else {
        byte_zeros(bytes[0])
    }
}

/// The number of zero bits that count.
pub open spec fn counted_zeros(bytes: Seq<u8>) -> nat {
    if zero_bits(bytes) < MAX_ZEROS {
        zero_bits(bytes)
    } else {
        MAX_ZEROS as nat
    }
}

/// The bit at position `i`, counted as `zero_bits` counts.
pub open spec fn bit_at(bytes: Seq<u8>, i: int) -> bool {
    (bytes[i / 8] >> ((7 - i % 8) as u8)) & 1u8 != 0u8
}

proof fn lemma_byte_zeros(byte: u8)
    ensures
        byte_zeros(byte) == vstd::std_specs::bits::u8_leading_zeros(byte),
        byte_zeros(byte) <= 8,
        forall|j: int|
            0 <= j < byte_zeros(byte) ==> #[trigger] (byte >> ((7 - j) as u8)) & 1u8 == 0u8,
        byte_zeros(byte) < 8 ==> (byte >> ((7 - byte_zeros(byte)) as u8)) & 1u8 != 0u8,
{
    vstd::std_specs::bits::axiom_u8_leading_zeros(byte);
    let z: u8 = vstd::std_specs::bits::u8_leading_zeros(byte) as u8;
    let down: u8 = (8 - z) as u8;
    assert(z <= 8 && down == 8 - z && byte >> down == 0 && (z < 8 ==> (byte >> ((7 - z) as u8))
        & 1u8 != 0u8) ==> (byte >= 128 ==> z == 0) && (64 <= byte < 128 ==> z == 1) && (32 <= byte
        < 64 ==> z == 2) && (16 <= byte < 32 ==> z == 3) && (8 <= byte < 16 ==> z == 4) && (4
        <= byte < 8 ==> z == 5) && (2 <= byte < 4 ==> z == 6) && (byte == 1 ==> z == 7) && (byte
        == 0 ==> z == 8)) by (bit_vector);
}

/// `zero_bits` counts what its name says: every bit before that position is zero, and the bit at
/// it, where there is one, is not.
pub proof fn law_zero_bits_are_leading(bytes: Seq<u8>)
    ensures
        zero_bits(bytes) <= 8 * bytes.len(),
        forall|i: int| 0 <= i < zero_bits(bytes) ==> !#[trigger] bit_at(bytes, i),
        zero_bits(bytes) < 8 * bytes.len() ==> bit_at(bytes, zero_bits(bytes) as int),
    decreases bytes.len(),
{
    if bytes.len() > 0 {
        lemma_byte_zeros(bytes[0]);
        let rest = bytes.skip(1);
        if bytes[0] == 0 {
            law_zero_bits_are_leading(rest);
            assert forall|i: int| 0 <= i < zero_bits(bytes) implies !#[trigger] bit_at(
                bytes,
                i,
            ) by {
                if i < 8 {
                    assert(i / 8 == 0 && i % 8 == i);
                } else {
                    assert((i - 8) / 8 == i / 8 - 1 && (i - 8) % 8 == i % 8);
                    assert(!bit_at(rest, i - 8));
                }
            }
            let z = zero_bits(bytes) as int;
            assert((z - 8) / 8 == z / 8 - 1 && (z - 8) % 8 == z % 8);
            if z < 8 * bytes.len() {
                assert(bit_at(rest, z - 8));
            }
        } else {
            assert forall|i: int| 0 <= i < zero_bits(bytes) implies !#[trigger] bit_at(
                bytes,
                i,
            ) by {
                assert(i / 8 == 0 && i % 8 == i);
            }
            let z = zero_bits(bytes) as int;
            assert(z / 8 == 0 && z % 8 == z);
        }
    }
}

/// Counts the zero bits that the bytes start with, up to `MAX_ZEROS`.
pub fn leading_zeros(bytes: &[u8]) -> (zeros: u32)
    ensures
        zeros == counted_zeros(bytes@),
{
    let mut zeros: u32 = 0;
    let mut i: usize = 0;
    assert(bytes@.skip(0) =~= bytes@);
    while i < bytes.len() && zeros < MAX_ZEROS
        invariant
            i <= bytes.len(),
            zeros == 8 * i,
            zeros < MAX_ZEROS + 8,
            zero_bits(bytes@) == 8 * i + zero_bits(bytes@.skip(i as int)),
        decreases bytes.len() - i,
    {
        let byte: u8 = bytes[i];
        proof {
            lemma_byte_zeros(byte);
            assert(bytes@.skip(i as int).skip(1) =~= bytes@.skip(i + 1));
        }
        if byte != 0 {
            zeros = zeros + byte.leading_zeros();
            return if zeros < MAX_ZEROS { zeros } else { MAX_ZEROS };
        }
        zeros = zeros + 8;
        i = i + 1;
    }
    if zeros < MAX_ZEROS { zeros } else { MAX_ZEROS }
}

/// What a hash with this many counted zero bits is worth: a power of two, and everything that
/// fits once the count is at its limit.
pub open spec fn credits_for_zeros(zeros: nat) -> nat {
    if zeros < MAX_ZEROS {
        pow2(zeros)
    } else {
        u128::MAX as nat
    }
}

/// What a hash is worth.
pub open spec fn credits_for_hash(hash: Seq<u8>) -> nat {
    credits_for_zeros(counted_zeros(hash))
}

proof fn lemma_pow2_fits(e: nat)
    requires
        e < 128,
    ensures
        pow2(e) <= u128::MAX,
{
    lemma2_to64();
    if e < 64 {
        lemma_pow2_strictly_increases(e, 64);
    } else {
        lemma_pow2_adds(64, (e - 64) as nat);
        if e > 64 {
            lemma_pow2_strictly_increases((e - 64) as nat, 64);
        }
        assert(pow2(64) * pow2((e - 64) as nat) <= 0x10000000000000000 * 0xffffffffffffffff)
            by (nonlinear_arith)
            requires
                pow2(64) == 0x10000000000000000,
                pow2((e - 64) as nat) <= 0xffffffffffffffff,
        ;
    }
}

/// The credits that a count of zero bits is worth.
pub fn credits_for(zeros: u32) -> (credits: u128)
    requires
        zeros <= MAX_ZEROS,
    ensures
        credits == credits_for_zeros(zeros as nat),
{
    if zeros == MAX_ZEROS {
        return u128::MAX;
    }
    let mut credits: u128 = 1;
    let mut i: u32 = 0;
    proof {
        lemma2_to64();
    }
    while i < zeros
        invariant
            i <= zeros < MAX_ZEROS,
            credits == pow2(i as nat),
        decreases zeros - i,
    {
        proof {
            lemma_pow2_unfold((i + 1) as nat);
            lemma_pow2_fits((i + 1) as nat);
        }
        credits = credits * 2;
        i = i + 1;
    }
    credits
}

/// More zero bits are never worth less.
pub proof fn law_credits_grow_with_zeros(fewer: nat, more: nat)
    requires
        fewer <= more,
    ensures
        credits_for_zeros(fewer) <= credits_for_zeros(more),
{
    if fewer < more && more < MAX_ZEROS {
        lemma_pow2_strictly_increases(fewer, more);
    } else if fewer < MAX_ZEROS {
        lemma_pow2_fits(fewer);
    }
}

/// A hash with at least `bits` zero bits is worth at least two to the power `bits`.
pub proof fn law_work_is_paid(hash: Seq<u8>, bits: nat)
    requires
        bits <= counted_zeros(hash),
    ensures
        credits_for_hash(hash) >= pow2(bits),
{
    lemma_pow2_fits(bits);
    if bits < counted_zeros(hash) {
        lemma_pow2_strictly_increases(bits, counted_zeros(hash));
    }
}

/// The bytes that are hashed before the nonce: the ASCII codes of a fixed label of 22 letters.
pub open spec fn pow_label() -> Seq<u8> {
    seq![
        84u8, 79u8, 68u8, 79u8, 32u8, 109u8, 97u8, 107u8, 101u8, 32u8, 99u8, 111u8, 110u8, 102u8,
        105u8, 103u8, 117u8, 114u8, 97u8, 98u8, 108u8, 101u8,
    ]
}

/// The BLAKE3 hash of a byte string.
pub uninterp spec fn blake3_digest(input: Seq<u8>) -> Seq<u8>;

/// `blake3::Hasher`: a new hasher that is updated twice and finalized gives the BLAKE3 hash of
/// the two inputs, one behind the other.
#[verifier::external_body]
fn blake3_hash(first: &[u8], second: &[u8]) -> (r: [u8; 32])
    ensures
        r@ == blake3_digest(first@ + second@),
{
    let mut hasher = blake3::Hasher::new();
    hasher.update(first);
    hasher.update(second);
    *hasher.finalize().as_bytes()
}

/// The hash of a nonce: BLAKE3 of the label and the nonce.
pub open spec fn nonce_hash(nonce: Seq<u8>) -> Seq<u8> {
    blake3_digest(pow_label() + nonce)
}

/// Hashes a nonce.
pub fn pow_hash(nonce: &[u8; 32]) -> (hash: [u8; 32])
    ensures
        hash@ == nonce_hash(nonce@),
{
    let label: [u8; 22] = [
        84, 79, 68, 79, 32, 109, 97, 107, 101, 32, 99, 111, 110, 102, 105, 103, 117, 114, 97, 98,
        108, 101,
    ];
    assert(label@ =~= pow_label());
    blake3_hash(&label, nonce)
}

/// Whether a nonce solves a puzzle of this difficulty.
pub open spec fn solves(nonce: Seq<u8>, bits: nat) -> bool {
    counted_zeros(nonce_hash(nonce)) >= bits
}

/// Whether a nonce solves a puzzle of this difficulty.
pub fn meets_difficulty(nonce: &[u8; 32], bits: u32) -> (met: bool)
    ensures
        met <==> solves(nonce@, bits as nat),
{
    let hash = pow_hash(nonce);
    leading_zeros(&hash) >= bits
}

/// `rand_chacha::ChaCha8Rng`: a generator of random numbers.
#[verifier::external_type_specification]
#[verifier::external_body]
pub struct ExChaCha8Rng(ChaCha8Rng);

/// `OsRng::fill_bytes`: fresh random bytes. Nothing is known of them.
#[verifier::external_body]
fn random_seed() -> (r: [u8; 32]) {
    let mut seed = [0u8; 32];
    OsRng.fill_bytes(&mut seed);
    seed
}

/// The generator that `ChaCha8Rng::from_seed` makes of a seed.
pub uninterp spec fn seeded_generator(seed: Seq<u8>) -> ChaCha8Rng;

/// `ChaCha8Rng::from_seed`: the generator is a function of the seed.
#[verifier::external_body]
fn seeded_rng(seed: [u8; 32]) -> (r: ChaCha8Rng)
    ensures
        r == seeded_generator(seed@),
{
    ChaCha8Rng::from_seed(seed)
}

/// The next 32 bytes that `ChaCha8Rng::fill_bytes` takes from a generator.
pub uninterp spec fn drawn_nonce(rng: ChaCha8Rng) -> Seq<u8>;

/// The generator that `ChaCha8Rng::fill_bytes` leaves behind when it has taken 32 bytes.
pub uninterp spec fn drawn_from(rng: ChaCha8Rng) -> ChaCha8Rng;

/// `ChaCha8Rng::fill_bytes` on 32 bytes: both the bytes and the generator that is left are
/// functions of the generator before.
#[verifier::external_body]
fn next_nonce(rng: &mut ChaCha8Rng) -> (r: [u8; 32])
    ensures
        r@ == drawn_nonce(*old(rng)),
        *final(rng) == drawn_from(*old(rng)),
{
    let mut nonce = [0u8; 32];
    rng.fill_bytes(&mut nonce);
    nonce
}

/// The first of the next nonces of a generator that solves the puzzle, if one of so many does.
pub open spec fn first_solution(rng: ChaCha8Rng, bits: nat, attempts: nat) -> Option<Seq<u8>>
    decreases attempts,
{
    if attempts == 0 {
        None
    } else if solves(drawn_nonce(rng), bits) {
        Some(drawn_nonce(rng))
    } else {
        first_solution(drawn_from(rng), bits, (attempts - 1) as nat)
    }
}

/// The generator that is left after the search for that nonce.
pub open spec fn after_search(rng: ChaCha8Rng, bits: nat, attempts: nat) -> ChaCha8Rng
    decreases attempts,
{
    if attempts == 0 {
        rng
    } else if solves(drawn_nonce(rng), bits) {
        drawn_from(rng)
    } else {
        after_search(drawn_from(rng), bits, (attempts - 1) as nat)
    }
}

/// One searcher for nonces, with random numbers of its own.
pub struct Miner {
    rng: ChaCha8Rng,
}

impl Miner {
    /// The generator from which the next nonces come.
    pub closed spec fn generator(&self) -> ChaCha8Rng {
        self.rng
    }

    /// A searcher whose nonces come from the generator of this seed.
    pub fn from_seed(seed: [u8; 32]) -> (miner: Miner)
        ensures
            miner.generator() == seeded_generator(seed@),
    {
        Miner { rng: seeded_rng(seed) }
    }

    /// A searcher with freshly seeded random numbers: its nonces come from the generator of some
    /// seed of 32 bytes. Which seed it is depends on chance.
    pub fn new() -> (miner: Miner)
        ensures
            exists|seed: [u8; 32]| miner.generator() == #[trigger] seeded_generator(seed@),
    {
        let seed = random_seed();
        Miner::from_seed(seed)
    }

    /// Tries up to `attempts` nonces of the generator and gives the first that solves the puzzle.
    /// A puzzle that every nonce solves is solved by the first one.
    pub fn mine(&mut self, bits: u32, attempts: usize) -> (found: Option<[u8; 32]>)
        ensures
            match first_solution(old(self).generator(), bits as nat, attempts as nat) {
                Some(solution) => found matches Some(nonce) && nonce@ == solution,
                None => found is None,
            },
            final(self).generator() == after_search(
                old(self).generator(),
                bits as nat,
                attempts as nat,
            ),
            found matches Some(nonce) ==> solves(nonce@, bits as nat),
            bits == 0 && attempts > 0 ==> found is Some,
            bits > MAX_ZEROS || attempts == 0 ==> found is None,
    {
        let mut i: usize = 0;
        while i < attempts
            invariant
                i <= attempts,
                i > 0 ==> bits > 0,
                first_solution(old(self).rng, bits as nat, attempts as nat) == first_solution(
                    self.rng,
                    bits as nat,
                    (attempts - i) as nat,
                ),
                after_search(old(self).rng, bits as nat, attempts as nat) == after_search(
                    self.rng,
                    bits as nat,
                    (attempts - i) as nat,
                ),
            decreases attempts - i,
        {
            let nonce = next_nonce(&mut self.rng);
            if meets_difficulty(&nonce, bits) {
                return Some(nonce);
            }
            i = i + 1;
        }
        None
    }
}

/// A nonce solves a puzzle just where its hash starts with as many zero bits as the puzzle asks
/// for, and no more than `MAX_ZEROS` can be asked for.
pub proof fn law_solutions_start_with_zeros(nonce: [u8; 32], hash: [u8; 32], bits: u32, met: bool)
    requires
        call_ensures(pow_hash, (&nonce,), hash),
        call_ensures(meets_difficulty, (&nonce, bits), met),
    ensures
        met <==> bits <= 127 && forall|i: int| 0 <= i < bits ==> !#[trigger] bit_at(hash@, i),
{
    law_zero_bits_are_leading(hash@);
    let zeros = zero_bits(hash@);
    if zeros < bits && zeros < 127 {
        assert(bit_at(hash@, zeros as int));
    }
}

/// A hash is worth two to the power of the number of zero bits that it starts with, up to 126 of
/// them, and everything that a token can hold from 127 on.
pub proof fn law_hashes_have_their_worth(hash: &[u8], zeros: u32, counted: u32, credits: u128)
    requires
        zeros < 8 * hash@.len(),
        forall|i: int| 0 <= i < zeros ==> !#[trigger] bit_at(hash@, i),
        bit_at(hash@, zeros as int),
        call_ensures(leading_zeros, (hash,), counted),
        call_ensures(credits_for, (counted,), credits),
    ensures
        counted == if zeros < 127 { zeros } else { 127 },
        zeros < 127 ==> credits == pow2(zeros as nat),
        zeros >= 127 ==> credits == u128::MAX,
        credits == credits_for_hash(hash@),
{
    law_zero_bits_are_leading(hash@);
    let z = zero_bits(hash@);
    if z < zeros {
        assert(bit_at(hash@, z as int));
    }
    assert(z == zeros) by {
        if z > zeros {
            assert(!bit_at(hash@, zeros as int));
        }
    }
}

/// The generator after so many nonces have been taken from it.
pub open spec fn generator_after(rng: ChaCha8Rng, taken: nat) -> ChaCha8Rng
    decreases taken,
{
    if taken == 0 {
        rng
    } else {
        generator_after(drawn_from(rng), (taken - 1) as nat)
    }
}

/// A search gives a nonce that solves the puzzle and none that comes before it does, or nothing
/// where none of the nonces that may be tried does. It takes just the nonces that it has tried.
pub proof fn law_search_finds_the_first_solution(rng: ChaCha8Rng, bits: nat, attempts: nat)
    ensures
        match first_solution(rng, bits, attempts) {
            Some(nonce) => exists|i: nat|
                {
                    &&& i < attempts
                    &&& nonce == drawn_nonce(#[trigger] generator_after(rng, i))
                    &&& solves(nonce, bits)
                    &&& forall|j: nat|
                        j < i ==> !solves(drawn_nonce(#[trigger] generator_after(rng, j)), bits)
                    &&& after_search(rng, bits, attempts) == generator_after(rng, i + 1)
                },
            None => {
                &&& forall|j: nat|
                    j < attempts ==> !solves(drawn_nonce(#[trigger] generator_after(rng, j)), bits)
                &&& after_search(rng, bits, attempts) == generator_after(rng, attempts)
            },
        },
    decreases attempts,
{
    if attempts == 0 {
        assert(generator_after(rng, 0) == rng);
    } else if solves(drawn_nonce(rng), bits) {
        assert(generator_after(rng, 0) == rng);
        assert(generator_after(rng, 1) == drawn_from(rng)) by {
            reveal_with_fuel(generator_after, 2);
        }
        assert(drawn_nonce(rng) == drawn_nonce(generator_after(rng, 0)));
    } else {
        let next = drawn_from(rng);
        let fewer = (attempts - 1) as nat;
        law_search_finds_the_first_solution(next, bits, fewer);
        assert(forall|j: nat| j > 0 ==> #[trigger] generator_after(rng, j) == generator_after(
            next,
            (j - 1) as nat,
        ));
        assert(generator_after(rng, 0) == rng);
        if let Some(nonce) = first_solution(next, bits, fewer) {
            let i = choose|i: nat|
                {
                    &&& i < fewer
                    &&& nonce == drawn_nonce(#[trigger] generator_after(next, i))
                    &&& solves(nonce, bits)
                    &&& forall|j: nat|
                        j < i ==> !solves(drawn_nonce(#[trigger] generator_after(next, j)), bits)
                    &&& after_search(next, bits, fewer) == generator_after(next, i + 1)
                };
            assert(nonce == drawn_nonce(generator_after(rng, i + 1)));
            assert(generator_after(rng, i + 2) == generator_after(next, i + 1));
            assert forall|j: nat| j < i + 1 implies !solves(
                drawn_nonce(#[trigger] generator_after(rng, j)),
                bits,
            ) by {
                if j > 0 {
                    assert(generator_after(rng, j) == generator_after(next, (j - 1) as nat));
                }
            }
        } else {
            assert forall|j: nat| j < attempts implies !solves(
                drawn_nonce(#[trigger] generator_after(rng, j)),
                bits,
            ) by {
                if j > 0 {
                    assert(generator_after(rng, j) == generator_after(next, (j - 1) as nat));
                }
            }
        }
    }
}

} // verus!
