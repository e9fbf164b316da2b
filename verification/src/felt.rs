//! Elements of the prime field with modulus `2^64 - 2^32 + 1` in which note
//! inputs, storage words and account identifiers are written, and words of
//! four such elements.

use vstd::prelude::*;

verus! {

/// The field modulus `p = 2^64 - 2^32 + 1`.
pub const MODULUS: u64 = 0xFFFF_FFFF_0000_0001;

/// `x` reduced into `[0, p)`.
pub open spec fn mod_p(x: int) -> int {
    x % (MODULUS as int)
}

/// A field element, held by its canonical value in `[0, MODULUS)`.
#[derive(Clone, Copy, Debug, PartialEq, Eq, Structural)]
pub struct Felt {
    value: u64,
}

/// Four field elements.
pub type Word = [Felt; 4];

impl Felt {
    #[verifier::type_invariant]
    spec fn is_canonical(self) -> bool {
        self.value < MODULUS
    }

    /// The canonical value of the element.
    pub closed spec fn val(self) -> int {
        self.value as int
    }

    /// The element `value mod p`.
    pub fn new(value: u64) -> (f: Felt)
        ensures
            f.val() == mod_p(value as int),
    {
        Felt { value: value % MODULUS }
    }

    /// The element whose canonical value is `value`, if `value < p`.
    pub fn from_canonical(value: u64) -> (f: Option<Felt>)
        ensures
            f is Some <==> value < MODULUS,
            f matches Some(e) ==> e.val() == value,
    {
        if value < MODULUS {
            Some(Felt { value })
        } else {
            None
        }
    }

    pub fn zero() -> (f: Felt)
        ensures
            f.val() == 0,
    {
        Felt { value: 0 }
    }

    pub fn one() -> (f: Felt)
        ensures
            f.val() == 1,
    {
        Felt { value: 1 }
    }

    /// The canonical value of the element, below `p`.
    pub fn as_canonical_u64(&self) -> (v: u64)
        ensures
            v == self.val(),
            v < MODULUS,
    {
        proof {
            use_type_invariant(self);
        }
        self.value
    }

    /// Field addition: `(self + rhs) mod p`.
    pub fn field_add(self, rhs: Felt) -> (sum: Felt)
        ensures
            sum.val() == mod_p(self.val() + rhs.val()),
    {
        proof {
            use_type_invariant(&self);
            use_type_invariant(&rhs);
        }
        let s = self.value as u128 + rhs.value as u128;
        let r = s % (MODULUS as u128);
        Felt { value: r as u64 }
    }
}

/// Two elements with the same canonical value are the same element.
pub proof fn lemma_felt_val_injective(a: Felt, b: Felt)
    requires
        a.val() == b.val(),
    ensures
        a == b,
{
}

} // verus!
