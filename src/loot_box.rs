use vstd::prelude::*;

use crate::circuit::ConstraintBuilder;
use crate::field::{Fe, minus_one_value, one_value};
use crate::gadget::{
    all_bits,
    all_wf,
    bits_differ_upto,
    build_xor_circuit,
    xor_fold_gates,
    xor_output_gate,
};

verus! {

/// The number of bits that each player's number contributes.
pub const NUM_BITS: usize = 3;

/// Bit `i` of `x`, 0 or 1.
pub open spec fn bit_of(x: i32, i: int) -> u64 {
    ((x >> (i as u32)) & 1i32) as u64
}

/// The first `n` bits of `x`, least significant first, as field elements.
pub open spec fn bits_seq(x: i32, n: int) -> Seq<Fe> {
    Seq::new(n as nat, |i: int| Fe { l0: bit_of(x, i), l1: 0, l2: 0, l3: 0 })
}

/// The claimed output for inputs `a` and `b`: 1 when `a XOR b` is `0b111`.
pub open spec fn expected_output_spec(a: i32, b: i32) -> nat {
    if a ^ b == 7 {
        1
    } else {
        0
    }
}

/// The public-input vector of the XOR circuit: the constant one, the bit pairs
/// `a[i], b[i]` in order, then the inputs -1 and 1.
pub open spec fn public_input_seq(a: Seq<Fe>, b: Seq<Fe>) -> Seq<Fe> {
    Seq::new(
        (2 * a.len() + 3) as nat,
        |i: int|
            if i == 0 {
                one_value()
            } else if i == 2 * a.len() + 1 {
                minus_one_value()
            } else if i == 2 * a.len() + 2 {
                one_value()
            } else if i % 2 == 1 {
                a[(i - 1) / 2]
            } else {
                b[(i - 2) / 2]
            },
    )
}

/// The first `n` bits of `x`, each as 0 or 1.
pub fn input_bits(x: i32, n: usize) -> (r: Vec<Fe>)
    requires
        n <= 32,
    ensures
        r@ == bits_seq(x, n as int),
        all_bits(r@),
        all_wf(r@),
{
    let mut r: Vec<Fe> = Vec::new();
    let mut i: usize = 0;
    while i < n
        invariant
            0 <= i <= n <= 32,
            r@ == bits_seq(x, i as int),
            all_bits(r@),
            all_wf(r@),
        decreases n - i,
    {
        let s = i as u32;
        let bit = (x >> s) & 1i32;
        assert(bit == 0 || bit == 1) by (bit_vector)
            requires
                bit == (x >> s) & 1i32,
        ;
        r.push(Fe::from_u64(bit as u64));
        assert(r@ =~= bits_seq(x, i as int + 1));
        i = i + 1;
    }
    r
}

/// 1 when `a XOR b` is `0b111`, else 0.
pub fn expected_output(a: i32, b: i32) -> (r: Fe)
    ensures
        r.wf(),
        r.val() == expected_output_spec(a, b),
        r == Fe::from_u64_spec(expected_output_spec(a, b) as u64),
{
    if a ^ b == 7 {
        Fe::one()
    } else {
        Fe::zero()
    }
}

/// The public inputs that a verifier holds for the XOR circuit on `a_val`, `b_val`.
pub fn public_inputs(a_val: &Vec<Fe>, b_val: &Vec<Fe>) -> (r: Vec<Fe>)
    requires
        b_val@.len() >= a_val@.len(),
        a_val@.len() <= (usize::MAX - 3) / 2,
    ensures
        r@ == public_input_seq(a_val@, b_val@),
{
    let n = a_val.len();
    let mut r: Vec<Fe> = vec![Fe::one()];
    let mut i: usize = 0;
    while i < n
        invariant
            0 <= i <= n,
            n == a_val@.len(),
            n <= (usize::MAX - 3) / 2,
            b_val@.len() >= n,
            r@ == public_input_seq(a_val@, b_val@).subrange(0, 2 * i + 1),
        decreases n - i,
    {
        r.push(a_val[i]);
        r.push(b_val[i]);
        assert(r@ =~= public_input_seq(a_val@, b_val@).subrange(0, 2 * i + 3));
        i = i + 1;
    }
    r.push(Fe::minus_one());
    r.push(Fe::one());
    assert(r@ =~= public_input_seq(a_val@, b_val@));
    r
}

/// For numbers of three bits, every bit of `a` differs from that of `b`
/// exactly when `a XOR b == 0b111`: so the XOR circuit on their bits outputs 1
/// exactly in the winning case.
pub proof fn lemma_reveal_matches_xor(a: i32, b: i32)
    requires
        0 <= a < 8,
        0 <= b < 8,
    ensures
        bits_differ_upto(bits_seq(a, 3), bits_seq(b, 3), 3) <==> a ^ b == 7,
{
    let d = bits_differ_upto(bits_seq(a, 3), bits_seq(b, 3), 3);
    assert(bits_seq(a, 3)[0].val() == bit_of(a, 0) && bits_seq(a, 3)[1].val() == bit_of(a, 1) && bits_seq(a, 3)[2].val() == bit_of(a, 2));
    assert(bits_seq(b, 3)[0].val() == bit_of(b, 0) && bits_seq(b, 3)[1].val() == bit_of(b, 1) && bits_seq(b, 3)[2].val() == bit_of(b, 2));
    assert(0 <= ((a >> 0u32) & 1i32) <= 1 && 0 <= ((a >> 1u32) & 1i32) <= 1 && 0 <= ((a >> 2u32)
        & 1i32) <= 1 && 0 <= ((b >> 0u32) & 1i32) <= 1 && 0 <= ((b >> 1u32) & 1i32) <= 1 && 0 <= ((b
        >> 2u32) & 1i32) <= 1) by (bit_vector);
    assert(((a >> 0u32) & 1i32) != ((b >> 0u32) & 1i32) && ((a >> 1u32) & 1i32) != ((b >> 1u32)
        & 1i32) && ((a >> 2u32) & 1i32) != ((b >> 2u32) & 1i32) <==> a ^ b == 7) by (bit_vector)
        requires
            0 <= a < 8,
            0 <= b < 8,
    ;
    if d {
        assert(bits_seq(a, 3)[0].val() != bits_seq(b, 3)[0].val());
        assert(bits_seq(a, 3)[1].val() != bits_seq(b, 3)[1].val());
        assert(bits_seq(a, 3)[2].val() != bits_seq(b, 3)[2].val());
    }
}

/// Builds the reveal circuit for the two players' numbers: the XOR circuit on
/// their three low bits, with one output. It is 1 exactly when those bits all
/// differ, which for numbers below 8 means `a XOR b == 7`.
pub fn build_reveal_circuit(input_a: i32, input_b: i32) -> (r: ConstraintBuilder)
    ensures
        r.wf(),
        r.outputs@.len() == 1,
        r.inputs@ == public_input_seq(
            bits_seq(input_a, NUM_BITS as int),
            bits_seq(input_b, NUM_BITS as int),
        ),
        r.witnesses@.len() == 7 * NUM_BITS - 1,
        r.witness_gates@ == xor_fold_gates(1, NUM_BITS as int, 0, NUM_BITS as int),
        r.output_gates@ == seq![xor_output_gate(1, NUM_BITS as int, 0)],
        r.num_vars() == 9 * NUM_BITS + 3,
        r.outputs@[0].val() == (if bits_differ_upto(
            bits_seq(input_a, NUM_BITS as int),
            bits_seq(input_b, NUM_BITS as int),
            NUM_BITS as int,
        ) {
            1nat
        } else {
            0nat
        }),
        0 <= input_a < 8 && 0 <= input_b < 8 ==> r.outputs@[0].val() == expected_output_spec(
            input_a,
            input_b,
        ),
{
    let a_val = input_bits(input_a, NUM_BITS);
    let b_val = input_bits(input_b, NUM_BITS);
    let ghost (av, bv) = (a_val@, b_val@);
    let mut cb = ConstraintBuilder::new();
    let ghost c0 = cb;
    let res = build_xor_circuit(&mut cb, a_val, b_val);
    proof {
        assert(cb.inputs@[0] == c0.inputs@[0]);
        assert forall|i: int| 0 <= i < 2 * NUM_BITS + 3 implies cb.inputs@[i]
            == public_input_seq(av, bv)[i] by {
            if 1 <= i < 2 * NUM_BITS + 1 {
                if i % 2 == 1 {
                    let j = (i - 1) / 2;
                    assert(1 + 2 * j == i);
                    assert(cb.inputs@[1 + 2 * j] == av[j]);
                } else {
                    let j = (i - 2) / 2;
                    assert(2 + 2 * j == i);
                    assert(cb.inputs@[1 + 2 * j] == av[j]);
                }
            }
        }
        assert(cb.inputs@ =~= public_input_seq(av, bv));
        assert(cb.witness_gates@ =~= xor_fold_gates(1, NUM_BITS as int, 0, NUM_BITS as int));
        assert(cb.output_gates@ =~= seq![xor_output_gate(1, NUM_BITS as int, 0)]);
        if 0 <= input_a < 8 && 0 <= input_b < 8 {
            lemma_reveal_matches_xor(input_a, input_b);
        }
    }
    cb
}

} // verus!
