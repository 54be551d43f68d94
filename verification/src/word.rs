//! 256-bit stack words as big-endian byte strings.

use vstd::prelude::*;
use vstd::arithmetic::div_mod::lemma_fundamental_div_mod;

verus! {

/// `256^e`: the weight of a byte `e` places before the end of a big-endian
/// byte string.
pub open spec fn pow256(e: nat) -> nat
    decreases e,
{
    if e == 0 {
        1
    } else {
        256 * pow256((e - 1) as nat)
    }
}

/// Powers of 256 are positive.
pub proof fn lemma_pow256_pos(e: nat)
    ensures
        pow256(e) >= 1,
    decreases e,
{
    if e > 0 {
        lemma_pow256_pos((e - 1) as nat);
    }
}

/// Powers of 256 grow with the exponent.
pub proof fn lemma_pow256_increases(a: nat, b: nat)
    requires
        a <= b,
    ensures
        pow256(a) <= pow256(b),
    decreases b,
{
    if a < b {
        lemma_pow256_increases(a, (b - 1) as nat);
        lemma_pow256_pos((b - 1) as nat);
    }
}

/// `256^7`, the weight of the first of 8 big-endian bytes.
pub proof fn lemma_pow256_7()
    ensures
        pow256(7) == 0x100_0000_0000_0000,
{
    reveal_with_fuel(pow256, 8);
}

/// `256^8`, one past the largest 8-byte big-endian value.
pub proof fn lemma_pow256_8()
    ensures
        pow256(8) == 0x1_0000_0000_0000_0000,
{
    reveal_with_fuel(pow256, 9);
}

/// The big-endian integer a byte string denotes: the first byte is the most
/// significant.
pub open spec fn be_to_nat(s: Seq<u8>) -> nat
    decreases s.len(),
{
    if s.len() == 0 {
        0
    } else {
        be_to_nat(s.drop_last()) * 256 + s.last() as nat
    }
}

/// A byte string of zeros denotes zero.
pub proof fn lemma_be_to_nat_zeros(s: Seq<u8>)
    requires
        forall|i: int| 0 <= i < s.len() ==> s[i] == 0,
    ensures
        be_to_nat(s) == 0,
    decreases s.len(),
{
    if s.len() > 0 {
        lemma_be_to_nat_zeros(s.drop_last());
    }
}

/// A byte string denotes less than `256^len`.
pub proof fn lemma_be_to_nat_bound(s: Seq<u8>)
    ensures
        be_to_nat(s) < pow256(s.len()),
    decreases s.len(),
{
    if s.len() == 0 {
        assert(pow256(0) == 1);
    } else {
        lemma_be_to_nat_bound(s.drop_last());
        assert(pow256(s.len()) == 256 * pow256((s.len() - 1) as nat));
    }
}

/// Leading zero bytes do not change the denoted integer.
pub proof fn lemma_be_to_nat_skip_zeros(s: Seq<u8>, k: int)
    requires
        0 <= k <= s.len(),
        forall|i: int| 0 <= i < k ==> s[i] == 0,
    ensures
        be_to_nat(s) == be_to_nat(s.skip(k)),
    decreases s.len(),
{
    if k == s.len() {
        lemma_be_to_nat_zeros(s);
        assert(s.skip(k).len() == 0);
    } else if s.len() > 0 {
        let d = s.drop_last();
        lemma_be_to_nat_skip_zeros(d, k);
        assert(s.skip(k).drop_last() =~= d.skip(k));
        assert(s.skip(k).last() == s.last());
    } else {
        assert(s.skip(k) =~= s);
    }
}

/// Extending a slice of `s` by one byte at the back multiplies its value by
/// 256 and adds that byte.
pub proof fn lemma_be_to_nat_snoc(s: Seq<u8>, a: int, j: int)
    requires
        0 <= a <= j < s.len(),
    ensures
        be_to_nat(s.subrange(a, j + 1)) == be_to_nat(s.subrange(a, j)) * 256 + s[j],
{
    assert(s.subrange(a, j + 1).drop_last() =~= s.subrange(a, j));
    assert(s.subrange(a, j + 1).last() == s[j]);
}

/// Peeling the most significant byte off the front: it carries weight
/// `256^(len-1)`.
pub proof fn lemma_be_to_nat_first(s: Seq<u8>)
    requires
        s.len() > 0,
    ensures
        be_to_nat(s) == s[0] * pow256((s.len() - 1) as nat) + be_to_nat(s.skip(1)),
    decreases s.len(),
{
    reveal_with_fuel(be_to_nat, 3);
    if s.len() == 1 {
        assert(pow256(0) == 1);
        assert(s.drop_last().len() == 0);
        assert(s.skip(1).len() == 0);
        assert(s[0] * pow256(0) == s[0]) by (nonlinear_arith)
            requires
                pow256(0) == 1,
        {};
    } else {
        let d = s.drop_last();
        lemma_be_to_nat_first(d);
        assert(d.skip(1) =~= s.skip(1).drop_last());
        assert(s.skip(1).last() == s.last());
        assert(d[0] == s[0]);
        let e = (s.len() - 2) as nat;
        assert(pow256(e + 1) == 256 * pow256(e));
        assert(be_to_nat(s) == be_to_nat(d) * 256 + s.last());
        assert(be_to_nat(s.skip(1)) == be_to_nat(d.skip(1)) * 256 + s.last());
        assert(be_to_nat(d) == d[0] * pow256(e) + be_to_nat(d.skip(1)));
        assert(s[0] * (256 * pow256(e)) == (s[0] * pow256(e)) * 256) by (nonlinear_arith);
        assert((s[0] * pow256(e) + be_to_nat(d.skip(1))) * 256 == (s[0] * pow256(e)) * 256
            + be_to_nat(d.skip(1)) * 256);
    }
}

/// A 256-bit word, stored as its 32 big-endian bytes.
#[derive(Clone, Copy, Debug, PartialEq, Eq)]
pub struct Word {
    pub bytes: [u8; 32],
}

impl View for Word {
    type V = Seq<u8>;

    open spec fn view(&self) -> Seq<u8> {
        self.bytes@
    }
}

impl Word {
    /// The integer the word denotes: its bytes read as one big-endian number.
    pub open spec fn spec_value(self) -> nat {
        be_to_nat(self@)
    }

    /// The word's value fits in 64 bits: its 24 leading bytes are zero.
    pub open spec fn fits_u64(self) -> bool {
        forall|i: int| 0 <= i < 24 ==> self@[i] == 0
    }

    /// A word whose value fits in 64 bits denotes less than `2^64`.
    pub proof fn lemma_fits_u64_value(self)
        requires
            self.fits_u64(),
        ensures
            self.spec_value() < 0x1_0000_0000_0000_0000,
            self.spec_value() == be_to_nat(self@.skip(24)),
    {
        lemma_be_to_nat_skip_zeros(self@, 24);
        lemma_be_to_nat_bound(self@.skip(24));
        lemma_pow256_8();
    }

    /// Builds a word from exactly 32 big-endian bytes.
    pub fn from_big_endian(bytes: &Vec<u8>) -> (r: Word)
        requires
            bytes@.len() == 32,
        ensures
            r@ == bytes@,
    {
        let mut b = [0u8; 32];
        let mut i: usize = 0;
        while i < 32
            invariant
                0 <= i <= 32,
                bytes@.len() == 32,
                b@.len() == 32,
                forall|j: int| 0 <= j < i ==> b@[j] == bytes@[j],
            decreases 32 - i,
        {
            b[i] = bytes[i];
            i += 1;
        }
        let r = Word { bytes: b };
        proof {
            assert(r@ =~= bytes@);
        }
        r
    }

    /// Builds the word that denotes `v`: 24 zero bytes, then the 8 big-endian
    /// bytes of `v`.
    pub fn from_u64(v: u64) -> (r: Word)
        ensures
            r.fits_u64(),
            r.spec_value() == v,
    {
        let mut b = [0u8; 32];
        let mut cur: u64 = v;
        let mut j: usize = 32;
        proof {
            assert(pow256(0) == 1);
            assert(b@.skip(32).len() == 0);
            assert(be_to_nat(b@.skip(32)) == 0);
            assert(cur * pow256(0) == cur) by (nonlinear_arith)
                requires
                    pow256(0) == 1,
            {};
        }
        while j > 24
            invariant
                24 <= j <= 32,
                b@.len() == 32,
                forall|i: int| 0 <= i < j ==> b@[i] == 0,
                be_to_nat(b@.skip(j as int)) + cur * pow256((32 - j) as nat) == v,
            decreases j,
        {
            let ghost pre = b@;
            let ghost e = (32 - j) as nat;
            let ghost c0 = cur as int;
            j -= 1;
            let byte = (cur % 256) as u8;
            b[j] = byte;
            cur = cur / 256;
            proof {
                lemma_pow256_pos(e);
                let p = pow256(e) as int;
                let s = b@.skip(j as int);
                assert(s.len() > 0);
                assert(s[0] == byte);
                assert(s.skip(1) =~= pre.skip(j + 1));
                lemma_be_to_nat_first(s);
                assert(pow256(e + 1) == 256 * pow256(e));
                lemma_fundamental_div_mod(c0, 256);
                assert(cur == c0 / 256);
                assert(byte * p + (c0 / 256) * (256 * p) == c0 * p) by (nonlinear_arith)
                    requires
                        byte == c0 % 256,
                        c0 == 256 * (c0 / 256) + c0 % 256,
                        p >= 0,
                {};
            }
        }
        let r = Word { bytes: b };
        proof {
            lemma_pow256_8();
            if cur >= 1 {
                assert(cur * pow256(8) >= pow256(8)) by (nonlinear_arith)
                    requires
                        cur >= 1,
                {};
                assert(false);
            }
            assert(cur == 0);
            assert(cur * pow256(8) == 0) by (nonlinear_arith)
                requires
                    cur == 0,
            {};
            lemma_be_to_nat_skip_zeros(r@, 24);
        }
        r
    }

    /// Whether two words hold the same bytes.
    pub fn eq_bytes(&self, other: &Word) -> (r: bool)
        ensures
            r <==> self@ == other@,
    {
        let mut i: usize = 0;
        while i < 32
            invariant
                0 <= i <= 32,
                forall|j: int| 0 <= j < i ==> self@[j] == other@[j],
            decreases 32 - i,
        {
            if self.bytes[i] != other.bytes[i] {
                return false;
            }
            i += 1;
        }
        proof {
            assert(self@ =~= other@);
        }
        true
    }

    /// The word's low 64 bits: its last 8 bytes read as a big-endian number.
    ///
    /// For a word that fits in 64 bits this is the word's whole value.
    pub fn low_u64(&self) -> (r: u64)
        ensures
            r == be_to_nat(self@.skip(24)),
            self.fits_u64() ==> r == self.spec_value(),
    {
        let mut acc: u64 = 0;
        let mut j: usize = 24;
        proof {
            assert(self@.subrange(24, 24).len() == 0);
        }
        while j < 32
            invariant
                24 <= j <= 32,
                self@.len() == 32,
                acc == be_to_nat(self@.subrange(24, j as int)),
            decreases 32 - j,
        {
            proof {
                lemma_be_to_nat_bound(self@.subrange(24, j as int));
                lemma_pow256_increases((j - 24) as nat, 7);
                lemma_pow256_7();
                lemma_be_to_nat_snoc(self@, 24, j as int);
            }
            acc = acc * 256 + (self.bytes[j] as u64);
            j += 1;
        }
        proof {
            assert(self@.subrange(24, 32) =~= self@.skip(24));
            if self.fits_u64() {
                self.lemma_fits_u64_value();
            }
        }
        acc
    }
}

} // verus!
