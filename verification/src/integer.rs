//! Arbitrary-precision signed integers, held as a sign and base 2^32 digits.
use num_bigint::BigInt;
use num_traits::ToPrimitive;
use vstd::prelude::*;

verus! {

/// The sign of an [`Integer`]; zero has the sign `NoSign`.
#[derive(Clone, Copy, Debug, PartialEq, Eq, Structural)]
pub enum Sign {
    Minus,
    NoSign,
    Plus,
}

/// The natural number that base 2^32 digits stand for, least significant digit first.
pub open spec fn magnitude(digits: Seq<u32>) -> nat
    decreases digits.len(),
{
    if digits.len() == 0 {
        0
    } else {
        digits[0] as nat + 0x1_0000_0000 * magnitude(digits.drop_first())
    }
}

/// The integer that a sign and a magnitude stand for. With `NoSign` it is zero
/// whatever the magnitude.
pub open spec fn signed(sign: Sign, magnitude: nat) -> int {
    match sign {
        Sign::Minus => -(magnitude as int),
        Sign::NoSign => 0,
        Sign::Plus => magnitude as int,
    }
}

/// Digits without a leading zero: the most significant digit, which stands last, is not 0.
pub open spec fn canonical(digits: Seq<u32>) -> bool {
    digits.len() > 0 ==> digits.last() != 0
}

/// Digits with a zero pushed on top stand for the same number.
pub proof fn lemma_magnitude_push_zero(digits: Seq<u32>)
    ensures
        magnitude(digits.push(0)) == magnitude(digits),
    decreases digits.len(),
{
    if digits.len() == 0 {
        assert(digits.push(0).drop_first() =~= Seq::<u32>::empty());
        assert(magnitude(digits.push(0).drop_first()) == 0);
    } else {
        assert(digits.push(0).drop_first() =~= digits.drop_first().push(0));
        lemma_magnitude_push_zero(digits.drop_first());
    }
}

/// Canonical digits, unless there are none, stand for a positive number.
pub proof fn lemma_magnitude_positive(digits: Seq<u32>)
    requires
        digits.len() > 0,
        digits.last() != 0,
    ensures
        magnitude(digits) > 0,
    decreases digits.len(),
{
    if digits.len() > 1 {
        let rest = digits.drop_first();
        assert(rest.last() == digits.last());
        lemma_magnitude_positive(rest);
        assert(0x1_0000_0000 * magnitude(rest) > 0) by (nonlinear_arith)
            requires
                magnitude(rest) > 0,
        ;
    }
}

/// Every natural number has one canonical digit sequence only.
pub proof fn lemma_magnitude_injective(a: Seq<u32>, b: Seq<u32>)
    requires
        canonical(a),
        canonical(b),
        magnitude(a) == magnitude(b),
    ensures
        a == b,
    decreases a.len(),
{
    if a.len() == 0 {
        if b.len() > 0 {
            lemma_magnitude_positive(b);
        }
        assert(a =~= b);
    } else if b.len() == 0 {
        lemma_magnitude_positive(a);
    } else {
        let ra = a.drop_first();
        let rb = b.drop_first();
        let ma = magnitude(ra);
        let mb = magnitude(rb);
        assert(a[0] as nat + 0x1_0000_0000 * ma == b[0] as nat + 0x1_0000_0000 * mb);
        assert(a[0] == b[0] && ma == mb) by (nonlinear_arith)
            requires
                a[0] as nat + 0x1_0000_0000 * ma == b[0] as nat + 0x1_0000_0000 * mb,
                a[0] < 0x1_0000_0000,
                b[0] < 0x1_0000_0000,
        ;
        if ra.len() > 0 {
            assert(ra.last() == a.last());
        }
        if rb.len() > 0 {
            assert(rb.last() == b.last());
        }
        lemma_magnitude_injective(ra, rb);
        assert(a =~= seq![a[0]] + ra);
        assert(b =~= seq![b[0]] + rb);
    }
}

/// An arbitrary-precision signed integer.
#[derive(Debug, PartialEq, Eq)]
pub struct Integer {
    sign: Sign,
    digits: Vec<u32>,
}

impl View for Integer {
    type V = int;

    /// The mathematical integer that the value stands for.
    closed spec fn view(&self) -> int {
        signed(self.sign, magnitude(self.digits@))
    }
}

impl Integer {
    /// The representation is normal: no leading zero digit, and the sign is
    /// `NoSign` exactly when there is no digit. Each integer has one such
    /// representation.
    pub closed spec fn wf(&self) -> bool {
        &&& canonical(self.digits@)
        &&& (self.sign == Sign::NoSign <==> self.digits@.len() == 0)
    }

    /// The sign that the value is held with.
    pub closed spec fn spec_sign(&self) -> Sign {
        self.sign
    }

    /// The digits that the value is held with.
    pub closed spec fn spec_digits(&self) -> Seq<u32> {
        self.digits@
    }

    /// The view is the signed magnitude of the parts.
    pub proof fn lemma_view_of_parts(&self)
        ensures
            self@ == signed(self.spec_sign(), magnitude(self.spec_digits())),
            self.wf() <==> canonical(self.spec_digits()) && (self.spec_sign() == Sign::NoSign
                <==> self.spec_digits().len() == 0),
    {
    }

    /// Two well-formed integers with the same value have the same parts.
    pub proof fn lemma_value_determines_parts(&self, other: &Integer)
        requires
            self.wf(),
            other.wf(),
            self@ == other@,
        ensures
            self.spec_sign() == other.spec_sign(),
            self.spec_digits() == other.spec_digits(),
    {
        if self.digits@.len() > 0 {
            lemma_magnitude_positive(self.digits@);
        }
        if other.digits@.len() > 0 {
            lemma_magnitude_positive(other.digits@);
        }
        lemma_magnitude_injective(self.digits@, other.digits@);
    }

    /// Builds the integer with the given sign and base 2^32 digits, least
    /// significant first. Leading zero digits are dropped; with `NoSign`, or
    /// with a magnitude of zero, the result is zero.
    pub fn new(sign: Sign, digits: Vec<u32>) -> (r: Integer)
        ensures
            r.wf(),
            r@ == signed(sign, magnitude(digits@)),
    {
        let mut digits = digits;
        let ghost given = digits@;
        if sign == Sign::NoSign {
            digits.clear();
            return Integer { sign, digits };
        }
        while digits.len() > 0 && digits[digits.len() - 1] == 0
            invariant
                magnitude(digits@) == magnitude(given),
            decreases digits.len(),
        {
            proof {
                let shorter = digits@.drop_last();
                assert(digits@ =~= shorter.push(0));
                lemma_magnitude_push_zero(shorter);
            }
            digits.pop();
        }
        if digits.len() == 0 {
            Integer { sign: Sign::NoSign, digits }
        } else {
            Integer { sign, digits }
        }
    }

    /// The sign: `NoSign` for zero.
    pub fn sign(&self) -> (r: Sign)
        ensures
            r == self.spec_sign(),
    {
        self.sign
    }

    /// The base 2^32 digits of the magnitude, least significant first.
    pub fn digits(&self) -> (r: &Vec<u32>)
        ensures
            r@ == self.spec_digits(),
    {
        &self.digits
    }

    /// Whether two integers have the same value.
    pub fn equals(&self, other: &Integer) -> (r: bool)
        requires
            self.wf(),
            other.wf(),
        ensures
            r == (self@ == other@),
    {
        proof {
            if self@ == other@ {
                self.lemma_value_determines_parts(other);
            }
        }
        if self.sign != other.sign || self.digits.len() != other.digits.len() {
            return false;
        }
        let mut i: usize = 0;
        while i < self.digits.len()
            invariant
                i <= self.digits.len(),
                self.digits.len() == other.digits.len(),
                forall|j: int| 0 <= j < i ==> self.digits@[j] == other.digits@[j],
                self@ == other@ ==> self.digits@ == other.digits@,
            decreases self.digits.len() - i,
        {
            if self.digits[i] != other.digits[i] {
                return false;
            }
            i += 1;
        }
        assert(self.digits@ =~= other.digits@);
        true
    }

    /// The value as a machine-sized count, where it is one.
    ///
    /// Trusted: rebuilds the value with `num_bigint::BigInt::from_slice` and
    /// calls `num_traits::ToPrimitive::to_usize` on it. `from_slice` reads the
    /// digits least significant first and takes `NoSign` for zero; `to_usize`
    /// gives the value where it lies between 0 and `usize::MAX`, and `None`
    /// for a negative or a larger one.
    #[verifier::external_body]
    pub(crate) fn to_usize(&self) -> (r: Option<usize>)
        ensures
            r == (if 0 <= self@ <= usize::MAX {
                Some(self@ as usize)
            } else {
                None::<usize>
            }),
    {
        let sign = match self.sign {
            Sign::Minus => num_bigint::Sign::Minus,
            Sign::NoSign => num_bigint::Sign::NoSign,
            Sign::Plus => num_bigint::Sign::Plus,
        };
        BigInt::from_slice(sign, &self.digits).to_usize()
    }

    /// The integer with the value of a machine-sized count.
    ///
    /// Trusted: calls `num_bigint::BigInt::from` on the count and takes the
    /// result apart with `BigInt::to_u32_digits`, which gives the sign
    /// (`NoSign` for zero) and the base 2^32 digits, least significant first
    /// and without a leading zero.
    #[verifier::external_body]
    pub(crate) fn from_usize(n: usize) -> (r: Integer)
        ensures
            r.wf(),
            r@ == n,
    {
        let (sign, digits) = BigInt::from(n).to_u32_digits();
        let sign = match sign {
            num_bigint::Sign::Minus => Sign::Minus,
            num_bigint::Sign::NoSign => Sign::NoSign,
            num_bigint::Sign::Plus => Sign::Plus,
        };
        Integer { sign, digits }
    }

    /// A copy with the same value.
    pub fn duplicate(&self) -> (r: Integer)
        ensures
            r@ == self@,
            r.wf() == self.wf(),
    {
        let digits = self.digits.clone();
        assert(digits@ =~= self.digits@);
        Integer { sign: self.sign, digits }
    }
}

} // verus!
