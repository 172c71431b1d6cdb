use vstd::prelude::*;

use ark_bn254::Fr;
use ark_ff::{BigInteger256, PrimeField};
use vstd::arithmetic::div_mod::lemma_fundamental_div_mod_converse;

verus! {

/// The order of BN254's scalar field.
pub open spec fn modulus() -> nat {
    limbs_value(
        4891460686036598785u64,
        2896914383306846353u64,
        13281191951274694749u64,
        3486998266802970665u64,
    )
}

/// The number that four 64-bit limbs spell, least significant first.
pub open spec fn limbs_value(l0: u64, l1: u64, l2: u64, l3: u64) -> nat {
    let b: nat = 0x1_0000_0000_0000_0000;
    (l0 + b * (l1 + b * (l2 + b * l3))) as nat
}

/// An element of BN254's scalar field: its canonical residue, in four 64-bit
/// limbs, least significant first.
#[derive(Clone, Copy, Debug, PartialEq, Eq, Structural)]
pub struct Fe {
    pub l0: u64,
    pub l1: u64,
    pub l2: u64,
    pub l3: u64,
}

/// The element one.
pub open spec fn one_value() -> Fe {
    Fe { l0: 1, l1: 0, l2: 0, l3: 0 }
}

/// The element `-1`.
pub open spec fn minus_one_value() -> Fe {
    Fe {
        l0: 4891460686036598784u64,
        l1: 2896914383306846353u64,
        l2: 13281191951274694749u64,
        l3: 3486998266802970665u64,
    }
}

impl Fe {
    /// The element whose low limb is `v`.
    pub open spec fn from_u64_spec(v: u64) -> Fe {
        Fe { l0: v, l1: 0, l2: 0, l3: 0 }
    }

    /// The residue that the limbs spell.
    pub open spec fn val(self) -> nat {
        limbs_value(self.l0, self.l1, self.l2, self.l3)
    }

    /// The limbs spell a residue below the modulus.
    pub open spec fn wf(self) -> bool {
        self.val() < modulus()
    }

    /// The element `v`.
    pub fn from_u64(v: u64) -> (r: Fe)
        ensures
            r == (Fe { l0: v, l1: 0, l2: 0, l3: 0 }),
            r.wf(),
            r.val() == v,
    {
        Fe { l0: v, l1: 0, l2: 0, l3: 0 }
    }

    pub fn zero() -> (r: Fe)
        ensures
            r == Fe::from_u64_spec(0),
            r.wf(),
            r.val() == 0,
    {
        Fe::from_u64(0)
    }

    pub fn one() -> (r: Fe)
        ensures
            r == one_value(),
            r == Fe::from_u64_spec(1),
            r.wf(),
            r.val() == 1,
    {
        Fe::from_u64(1)
    }

    /// The element `-1`, that is `modulus() - 1`.
    pub fn minus_one() -> (r: Fe)
        ensures
            r == minus_one_value(),
            r.wf(),
            r.val() == modulus() - 1,
    {
        Fe {
            l0: 4891460686036598784u64,
            l1: 2896914383306846353u64,
            l2: 13281191951274694749u64,
            l3: 3486998266802970665u64,
        }
    }
}

/// Two elements with the same residue have the same limbs.
pub proof fn lemma_val_injective(x: Fe, y: Fe)
    requires
        x.val() == y.val(),
    ensures
        x == y,
{
    let b: int = 0x1_0000_0000_0000_0000;
    let hx = x.l1 + b * (x.l2 + b * x.l3);
    let hy = y.l1 + b * (y.l2 + b * y.l3);
    assert(x.val() == hx * b + x.l0) by (nonlinear_arith)
        requires
            x.val() == x.l0 + b * hx,
    ;
    assert(y.val() == hy * b + y.l0) by (nonlinear_arith)
        requires
            y.val() == y.l0 + b * hy,
    ;
    lemma_fundamental_div_mod_converse(x.val() as int, b, hx, x.l0 as int);
    lemma_fundamental_div_mod_converse(y.val() as int, b, hy, y.l0 as int);
    let mx = x.l2 + b * x.l3;
    let my = y.l2 + b * y.l3;
    assert(hx == mx * b + x.l1) by (nonlinear_arith)
        requires
            hx == x.l1 + b * mx,
    ;
    assert(hy == my * b + y.l1) by (nonlinear_arith)
        requires
            hy == y.l1 + b * my,
    ;
    lemma_fundamental_div_mod_converse(hx, b, mx, x.l1 as int);
    lemma_fundamental_div_mod_converse(hy, b, my, y.l1 as int);
    assert(mx == x.l3 * b + x.l2) by (nonlinear_arith)
        requires
            mx == x.l2 + b * x.l3,
    ;
    assert(my == y.l3 * b + y.l2) by (nonlinear_arith)
        requires
            my == y.l2 + b * y.l3,
    ;
    lemma_fundamental_div_mod_converse(mx, b, x.l3 as int, x.l2 as int);
    lemma_fundamental_div_mod_converse(my, b, y.l3 as int, y.l2 as int);
}

/// Relies on ark-ff's `PrimeField::from_repr` and `into_repr` for `Fr`, and on
/// `Fr`'s `+`: the sum modulo the field's order, as a canonical residue.
#[verifier::external_body]
pub fn fe_add(x: Fe, y: Fe) -> (r: Fe)
    requires
        x.wf(),
        y.wf(),
    ensures
        r.wf(),
        r.val() == (x.val() + y.val()) % modulus(),
{
    let a = Fr::from_repr(BigInteger256([x.l0, x.l1, x.l2, x.l3])).unwrap();
    let b = Fr::from_repr(BigInteger256([y.l0, y.l1, y.l2, y.l3])).unwrap();
    let s = (a + b).into_repr().0;
    Fe { l0: s[0], l1: s[1], l2: s[2], l3: s[3] }
}

/// Relies on ark-ff's `PrimeField::from_repr` and `into_repr` for `Fr`, and on
/// `Fr`'s `*`: the product modulo the field's order, as a canonical residue.
#[verifier::external_body]
pub fn fe_mul(x: Fe, y: Fe) -> (r: Fe)
    requires
        x.wf(),
        y.wf(),
    ensures
        r.wf(),
        r.val() == (x.val() * y.val()) % modulus(),
{
    let a = Fr::from_repr(BigInteger256([x.l0, x.l1, x.l2, x.l3])).unwrap();
    let b = Fr::from_repr(BigInteger256([y.l0, y.l1, y.l2, y.l3])).unwrap();
    let p = (a * b).into_repr().0;
    Fe { l0: p[0], l1: p[1], l2: p[2], l3: p[3] }
}

} // verus!
