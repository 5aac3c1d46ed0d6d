//! The limb model: how a host big integer, held as 64-bit words in
//! little-endian order, is cut into the 32-bit or 64-bit limbs of the device.

use vstd::arithmetic::power2::{lemma2_to64, lemma2_to64_rest, pow2};
use vstd::prelude::*;

verus! {

/// How many limbs of `bits` bits one 64-bit word holds.
pub open spec fn limbs_per_word(bits: nat) -> nat {
    64nat / bits
}

/// Limb `i` of the little-endian number `words`, for limbs of `bits` bits.
pub open spec fn limb_at(words: Seq<u64>, bits: nat, i: int) -> nat {
    let per = limbs_per_word(bits) as int;
    (words[i / per] as nat / pow2((bits * (i % per)) as nat)) % pow2(bits)
}

/// The limbs of the little-endian number `words`, least significant first.
pub open spec fn split_words(words: Seq<u64>, bits: nat) -> Seq<nat> {
    Seq::new(words.len() * limbs_per_word(bits), |i: int| limb_at(words, bits, i))
}

/// The number that a little-endian sequence of `bits`-bit digits stands for.
pub open spec fn little_endian(digits: Seq<nat>, bits: nat) -> nat
    decreases digits.len(),
{
    if digits.len() == 0 {
        0
    } else {
        digits[0] + pow2(bits) * little_endian(digits.skip(1), bits)
    }
}

/// The words of a host integer as numbers.
pub open spec fn word_values(words: Seq<u64>) -> Seq<nat> {
    Seq::new(words.len(), |i: int| words[i] as nat)
}

/// Cutting a host integer into limbs of either width keeps the number: the
/// limbs, read as little-endian digits of their width, stand for the same
/// number as the words do.
pub proof fn lemma_limbs_keep_the_number(words: Seq<u64>, bits: nat)
    requires
        bits == 32 || bits == 64,
    ensures
        little_endian(split_words(words, bits), bits) == little_endian(word_values(words), 64),
    decreases words.len(),
{
    assert(limbs_per_word(64) == 1 && limbs_per_word(32) == 2);
    lemma2_to64();
    lemma2_to64_rest();
    let limbs = split_words(words, bits);
    if bits == 64 {
        assert(limbs =~= word_values(words)) by {
            assert forall|i: int| 0 <= i < words.len() implies limb_at(words, 64, i) == words[i] as nat by {
                assert(i / 1 == i && i % 1 == 0);
                assert(words[i] as nat / 1 == words[i] as nat);
                assert(words[i] as nat % 0x1_0000_0000_0000_0000 == words[i] as nat);
            }
        }
    } else if words.len() > 0 {
        let rest = words.skip(1);
        lemma_limbs_keep_the_number(rest, 32);
        assert(limbs.skip(1).skip(1) =~= split_words(rest, 32)) by {
            assert forall|i: int| 0 <= i < 2 * rest.len() implies limb_at(words, 32, i + 2)
                == limb_at(rest, 32, i) by {
                assert((i + 2) / 2 == i / 2 + 1 && (i + 2) % 2 == i % 2);
                assert(rest[i / 2] == words[i / 2 + 1]);
            }
        }
        assert(word_values(words).skip(1) =~= word_values(rest));
        let word = words[0] as nat;
        assert(limbs[0] == word % 0x1_0000_0000) by {
            assert(0int / 2 == 0 && 0int % 2 == 0);
            assert(word / 1 == word);
        }
        assert(limbs.skip(1)[0] == word / 0x1_0000_0000) by {
            assert(1int / 2 == 0 && 1int % 2 == 1);
            assert((word / 0x1_0000_0000) % 0x1_0000_0000 == word / 0x1_0000_0000);
        }
        let tail = little_endian(split_words(rest, 32), 32);
        assert(little_endian(limbs.skip(1), 32) == word / 0x1_0000_0000 + 0x1_0000_0000 * tail);
        assert(little_endian(limbs, 32) == word % 0x1_0000_0000 + 0x1_0000_0000 * (word
            / 0x1_0000_0000 + 0x1_0000_0000 * tail));
        assert(word == word % 0x1_0000_0000 + 0x1_0000_0000 * (word / 0x1_0000_0000));
        assert(little_endian(word_values(words), 64) == word + 0x1_0000_0000_0000_0000 * tail);
    } else {
        assert(limbs.len() == 0);
    }
}

/// The shape of one device limb: its width, its names on the device, and
/// the cutting of host integers into limbs of that width.
pub trait Limb: Sized + Copy {
    /// The unsigned integer that holds one limb.
    type LimbType: Copy;

    /// Width of a limb in bits.
    spec fn spec_bits() -> nat;

    /// The number that a raw limb word stands for.
    spec fn word_value(word: Self::LimbType) -> nat;

    /// The number that this limb holds.
    spec fn spec_value(&self) -> nat;

    /// Name of the limb's scalar type on the device.
    spec fn spec_opencl_type() -> Seq<char>;

    /// Type suffix and register constraint of the limb in inline PTX.
    spec fn spec_ptx_info() -> (Seq<char>, Seq<char>);

    /// A limb is 32 or 64 bits wide.
    proof fn width_is_known()
        ensures
            Self::spec_bits() == 32 || Self::spec_bits() == 64,
    ;

    fn zero() -> (limb: Self)
        ensures
            limb.spec_value() == 0,
    ;

    fn new(val: Self::LimbType) -> (limb: Self)
        ensures
            limb.spec_value() == Self::word_value(val),
    ;

    fn value(&self) -> (val: Self::LimbType)
        ensures
            Self::word_value(val) == self.spec_value(),
    ;

    /// The limb as a 64-bit number, for rendering.
    fn to_u64(&self) -> (val: u64)
        ensures
            val as nat == self.spec_value(),
    ;

    fn bits() -> (bits: usize)
        ensures
            bits as nat == Self::spec_bits(),
    ;

    fn ptx_info() -> (info: (&'static str, &'static str))
        ensures
            info.0@ == Self::spec_ptx_info().0,
            info.1@ == Self::spec_ptx_info().1,
    ;

    fn opencl_type() -> (name: &'static str)
        ensures
            name@ == Self::spec_opencl_type(),
    ;

    /// Cuts a host integer, given as 64-bit words in little-endian order,
    /// into limbs, least significant first.
    fn limbs_of(value: &Vec<u64>) -> (limbs: Vec<Self>)
        requires
            value.len() * limbs_per_word(Self::spec_bits()) <= usize::MAX,
        ensures
            limbs@.len() == value@.len() * limbs_per_word(Self::spec_bits()),
            forall|i: int|
                0 <= i < limbs@.len() ==> (#[trigger] limbs@[i]).spec_value() == limb_at(
                    value@,
                    Self::spec_bits(),
                    i,
                ),
    ;
}

/// The numbers held by a sequence of limbs.
pub open spec fn limb_values<L: Limb>(limbs: Seq<L>) -> Seq<nat> {
    Seq::new(limbs.len(), |i: int| limbs[i].spec_value())
}

/// A 32-bit limb.
#[derive(Clone, Copy)]
pub struct Limb32(u32);

/// A 64-bit limb.
#[derive(Clone, Copy)]
pub struct Limb64(u64);

impl Limb for Limb32 {
    type LimbType = u32;

    open spec fn spec_bits() -> nat {
        32
    }

    open spec fn word_value(word: u32) -> nat {
        word as nat
    }

    closed spec fn spec_value(&self) -> nat {
        self.0 as nat
    }

    open spec fn spec_opencl_type() -> Seq<char> {
        "uint"@
    }

    open spec fn spec_ptx_info() -> (Seq<char>, Seq<char>) {
        ("u32"@, "r"@)
    }

    proof fn width_is_known() {
    }

    fn zero() -> (limb: Self) {
        Limb32(0)
    }

    fn new(val: u32) -> (limb: Self) {
        Limb32(val)
    }

    fn value(&self) -> (val: u32) {
        self.0
    }

    fn to_u64(&self) -> (val: u64) {
        self.0 as u64
    }

    fn bits() -> (bits: usize) {
        32
    }

    fn ptx_info() -> (info: (&'static str, &'static str)) {
        ("u32", "r")
    }

    fn opencl_type() -> (name: &'static str) {
        "uint"
    }

    fn limbs_of(value: &Vec<u64>) -> (limbs: Vec<Self>) {
        let mut limbs: Vec<Limb32> = Vec::new();
        let mut i: usize = 0;
        while i < value.len()
            invariant
                i <= value.len(),
                value.len() * 2 <= usize::MAX,
                limbs.len() == 2 * i,
                forall|k: int| 0 <= k < limbs.len() ==> (#[trigger] limbs@[k]).spec_value() == limb_at(value@, 32, k),
            decreases value.len() - i,
        {
            let word = value[i];
            let low = (word & 0xffff_ffff) as u32;
            let high = (word >> 32) as u32;
            proof {
                lemma2_to64();
                assert(pow2(0) == 1 && pow2(32) == 0x1_0000_0000);
                assert((word & 0xffff_ffff) as u32 == word % 0x1_0000_0000) by (bit_vector);
                assert((word >> 32) as u32 == (word / 0x1_0000_0000) % 0x1_0000_0000) by (bit_vector);
                assert((2 * i) / 2 == i && (2 * i) % 2 == 0);
                assert((2 * i + 1) / 2 == i && (2 * i + 1) % 2 == 1);
                assert(word as nat / 1 == word as nat);
                assert(limb_at(value@, 32, 2 * i) == low as nat);
                assert(limb_at(value@, 32, 2 * i + 1) == high as nat);
            }
            limbs.push(Limb32(low));
            limbs.push(Limb32(high));
            i += 1;
        }
        limbs
    }
}

impl Limb for Limb64 {
    type LimbType = u64;

    open spec fn spec_bits() -> nat {
        64
    }

    open spec fn word_value(word: u64) -> nat {
        word as nat
    }

    closed spec fn spec_value(&self) -> nat {
        self.0 as nat
    }

    open spec fn spec_opencl_type() -> Seq<char> {
        "ulong"@
    }

    open spec fn spec_ptx_info() -> (Seq<char>, Seq<char>) {
        ("u64"@, "l"@)
    }

    proof fn width_is_known() {
    }

    fn zero() -> (limb: Self) {
        Limb64(0)
    }

    fn new(val: u64) -> (limb: Self) {
        Limb64(val)
    }

    fn value(&self) -> (val: u64) {
        self.0
    }

    fn to_u64(&self) -> (val: u64) {
        self.0
    }

    fn bits() -> (bits: usize) {
        64
    }

    fn ptx_info() -> (info: (&'static str, &'static str)) {
        ("u64", "l")
    }

    fn opencl_type() -> (name: &'static str) {
        "ulong"
    }

    fn limbs_of(value: &Vec<u64>) -> (limbs: Vec<Self>) {
        let mut limbs: Vec<Limb64> = Vec::new();
        let mut i: usize = 0;
        while i < value.len()
            invariant
                i <= value.len(),
                limbs.len() == i,
                forall|k: int| 0 <= k < limbs.len() ==> (#[trigger] limbs@[k]).spec_value() == limb_at(value@, 64, k),
            decreases value.len() - i,
        {
            let word = value[i];
            proof {
                lemma2_to64();
                lemma2_to64_rest();
                assert(pow2(0) == 1 && pow2(64) == 0x1_0000_0000_0000_0000);
                assert(limbs_per_word(64) == 1);
                assert(i as int / 1 == i && i as int % 1 == 0);
                assert(word as nat / 1 == word as nat);
                assert(word as nat % 0x1_0000_0000_0000_0000 == word as nat);
                assert(limb_at(value@, 64, i as int) == word as nat);
            }
            limbs.push(Limb64(word));
            i += 1;
        }
        assert(limbs_per_word(64) == 1);
        limbs
    }
}

} // verus!
