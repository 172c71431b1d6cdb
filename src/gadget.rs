use vstd::prelude::*;

use crate::circuit::{
    ConstraintBuilder,
    Gate,
    GateKind,
    Variable,
    VariableKind,
    Wire,
    lemma_extends_trans,
    lemma_known_kept,
};
use crate::error::{CompilationError, Error};
use crate::field::{Fe, minus_one_value, modulus, one_value};
use vstd::arithmetic::div_mod::{lemma_add_mod_noop, lemma_mul_mod_noop, lemma_small_mod};

verus! {

/// The value that the XOR gadget computes from `a`, `c` and the value `m` of
/// its "minus one" input: `c*c + 2*a*c*m + a` in the field, which is
/// `a + c - 2ac` when `m == -1`, and so `a XOR c` on bits.
pub open spec fn xor_gadget_value(a: nat, c: nat, m: nat) -> nat {
    (c * c + 2 * a * c * m + a) % modulus()
}

pub open spec fn is_bit(x: Fe) -> bool {
    x.val() == 0 || x.val() == 1
}

pub open spec fn all_bits(s: Seq<Fe>) -> bool {
    forall|i: int| 0 <= i < s.len() ==> is_bit(#[trigger] s[i])
}

pub open spec fn all_wf(s: Seq<Fe>) -> bool {
    forall|i: int| 0 <= i < s.len() ==> (#[trigger] s[i]).wf()
}

/// Every one of the first `n` positions of `a` differs from that of `b`.
pub open spec fn bits_differ_upto(a: Seq<Fe>, b: Seq<Fe>, n: int) -> bool {
    forall|i: int| 0 <= i < n ==> (#[trigger] a[i]).val() != b[i].val()
}

pub open spec fn input_wire(i: int) -> Wire {
    Wire { kind: VariableKind::Input, index: i as usize }
}

pub open spec fn witness_wire(i: int) -> Wire {
    Wire { kind: VariableKind::Witness, index: i as usize }
}

/// The six gates of one XOR gadget on wires `a`, `c` and `m`, whose results
/// are the witnesses from number `base` on: `-a`, `c - a`, `(c - a)c`, `-ac`,
/// `(c - a)c - ac`, and that plus `a`.
pub open spec fn xor_gadget_gates(a: Wire, c: Wire, m: Wire, base: int) -> Seq<Gate> {
    seq![
        Gate { kind: GateKind::Mul, left: a, right: m },
        Gate { kind: GateKind::Add, left: c, right: witness_wire(base) },
        Gate { kind: GateKind::Mul, left: witness_wire(base + 1), right: c },
        Gate { kind: GateKind::Mul, left: witness_wire(base), right: c },
        Gate { kind: GateKind::Add, left: witness_wire(base + 2), right: witness_wire(base + 3) },
        Gate { kind: GateKind::Add, left: witness_wire(base + 4), right: a },
    ]
}

proof fn lemma_gadget_chain(a: nat, c: nat, m: nat)
    requires
        a < modulus(),
        c < modulus(),
        m < modulus(),
    ensures
        ({
            let p = modulus() as int;
            let (ai, ci, mi) = (a as int, c as int, m as int);
            let neg_a = (ai * mi) % p;
            let b = (ci + neg_a) % p;
            let bc = (b * ci) % p;
            let neg_ac = (neg_a * ci) % p;
            let bcac = (bc + neg_ac) % p;
            (bcac + ai) % p == xor_gadget_value(a, c, m) as int
        }),
{
    let p = modulus() as int;
    let (ai, ci, mi) = (a as int, c as int, m as int);
    lemma_small_mod(a, modulus());
    lemma_small_mod(c, modulus());
    let neg_a = (ai * mi) % p;
    lemma_add_mod_noop(ci, ai * mi, p);
    let b = (ci + neg_a) % p;
    assert(b == (ci + ai * mi) % p);
    lemma_mul_mod_noop(ci + ai * mi, ci, p);
    let x = (ci + ai * mi) * ci;
    let bc = (b * ci) % p;
    assert(bc == x % p);
    lemma_mul_mod_noop(ai * mi, ci, p);
    let y = ai * mi * ci;
    let neg_ac = (neg_a * ci) % p;
    assert(neg_ac == y % p);
    lemma_add_mod_noop(x, y, p);
    let bcac = (bc + neg_ac) % p;
    assert(bcac == (x + y) % p);
    lemma_add_mod_noop(x + y, ai, p);
    assert((bcac + ai) % p == (x + y + ai) % p);
    assert(x + y + ai == ci * ci + 2 * ai * ci * mi + ai) by (nonlinear_arith)
        requires
            x == (ci + ai * mi) * ci,
            y == ai * mi * ci,
    ;
    assert(ci * ci + 2 * ai * ci * mi + ai >= 0) by (nonlinear_arith)
        requires
            ai >= 0,
            ci >= 0,
            mi >= 0,
    ;
}

proof fn lemma_xor_on_bits(a: Fe, c: Fe)
    requires
        is_bit(a),
        is_bit(c),
    ensures
        xor_gadget_value(a.val(), c.val(), (modulus() - 1) as nat) == (if a.val() != c.val() {
            1nat
        } else {
            0nat
        }),
{
    let p = modulus() as int;
    let (ai, ci) = (a.val() as int, c.val() as int);
    let m = p - 1;
    lemma_small_mod(0, modulus());
    lemma_small_mod(1, modulus());
    if ai == 1 && ci == 1 {
        assert(ci * ci + 2 * ai * ci * m + ai == 2 * p) by (nonlinear_arith)
            requires
                ai == 1,
                ci == 1,
                m == p - 1,
        ;
        vstd::arithmetic::div_mod::lemma_mod_multiples_basic(2, p);
    } else {
        assert(ci * ci + 2 * ai * ci * m + ai == (if ai != ci {
            1int
        } else {
            0int
        })) by (nonlinear_arith)
            requires
                ai == 0 || ai == 1,
                ci == 0 || ci == 1,
                !(ai == 1 && ci == 1),
        ;
    }
}

proof fn lemma_product_of_bits(x: Fe, y: Fe)
    requires
        is_bit(x),
        is_bit(y),
    ensures
        (x.val() * y.val()) % modulus() == (if x.val() == 1 && y.val() == 1 {
            1nat
        } else {
            0nat
        }),
{
    lemma_small_mod(0, modulus());
    lemma_small_mod(1, modulus());
    let (xv, yv) = (x.val() as int, y.val() as int);
    assert(xv * yv == (if xv == 1 && yv == 1 {
        1int
    } else {
        0int
    })) by (nonlinear_arith)
        requires
            xv == 0 || xv == 1,
            yv == 0 || yv == 1,
    ;
}

/// Adds the six gates of one XOR: `a + c - 2ac` for `minus_one == -1`.
///
/// The gates chain through new witnesses. It fails, changing nothing, exactly
/// when one of the three operands is not a variable of the circuit.
pub fn enforce_xor(
    cb: &mut ConstraintBuilder,
    a: &Variable,
    c: &Variable,
    minus_one: &Variable,
) -> (r: Result<Variable, Error>)
    requires
        old(cb).wf(),
    ensures
        final(cb).wf(),
        final(cb).extends(old(cb)),
        final(cb).inputs@ == old(cb).inputs@,
        final(cb).outputs@ == old(cb).outputs@,
        final(cb).output_gates@ == old(cb).output_gates@,
        final(cb).labels@ == old(cb).labels@,
        r is Err <==> !(old(cb).known(*a) && old(cb).known(*c) && old(cb).known(*minus_one)),
        r is Err ==> r->Err_0 == Error::Compilation(CompilationError::UnknownVariable),
        r is Err ==> *final(cb) == *old(cb),
        r is Ok ==> {
            let w = old(cb).witnesses@.len() as int;
            &&& r->Ok_0.kind == VariableKind::Witness
            &&& r->Ok_0.index == w + 5
            &&& r->Ok_0.value.val() == xor_gadget_value(
                a.value.val(),
                c.value.val(),
                minus_one.value.val(),
            )
            &&& final(cb).known(r->Ok_0)
            &&& final(cb).witnesses@.len() == w + 6
            &&& final(cb).witness_gates@ == old(cb).witness_gates@ + xor_gadget_gates(
                a.wire(),
                c.wire(),
                minus_one.wire(),
                w,
            )
        },
{
    if !(cb.is_known(a) && cb.is_known(c) && cb.is_known(minus_one)) {
        return Err(Error::Compilation(CompilationError::UnknownVariable));
    }
    let ghost c0 = *cb;
    let neg_a = match cb.enforce_constraint(a, minus_one, GateKind::Mul, VariableKind::Witness) {
        Ok(v) => v,
        Err(e) => {
            return Err(e);
        },
    };
    let ghost c1 = *cb;
    proof {
        lemma_known_kept(c0, c1, *c);
        lemma_known_kept(c0, c1, *a);
    }
    let b = match cb.enforce_constraint(c, &neg_a, GateKind::Add, VariableKind::Witness) {
        Ok(v) => v,
        Err(e) => {
            return Err(e);
        },
    };
    let ghost c2 = *cb;
    proof {
        lemma_extends_trans(c0, c1, c2);
        lemma_known_kept(c0, c2, *c);
        lemma_known_kept(c1, c2, neg_a);
    }
    let bc = match cb.enforce_constraint(&b, c, GateKind::Mul, VariableKind::Witness) {
        Ok(v) => v,
        Err(e) => {
            return Err(e);
        },
    };
    let ghost c3 = *cb;
    proof {
        lemma_extends_trans(c0, c2, c3);
        lemma_known_kept(c1, c3, neg_a);
        lemma_known_kept(c0, c3, *c);
    }
    let neg_ac = match cb.enforce_constraint(&neg_a, c, GateKind::Mul, VariableKind::Witness) {
        Ok(v) => v,
        Err(e) => {
            return Err(e);
        },
    };
    let ghost c4 = *cb;
    proof {
        lemma_extends_trans(c0, c3, c4);
        lemma_known_kept(c3, c4, bc);
    }
    let bcac = match cb.enforce_constraint(&bc, &neg_ac, GateKind::Add, VariableKind::Witness) {
        Ok(v) => v,
        Err(e) => {
            return Err(e);
        },
    };
    let ghost c5 = *cb;
    proof {
        lemma_extends_trans(c0, c4, c5);
        lemma_known_kept(c0, c5, *a);
    }
    let r = cb.enforce_constraint(&bcac, a, GateKind::Add, VariableKind::Witness);
    proof {
        lemma_extends_trans(c0, c5, *cb);
        let w = c0.witnesses@.len() as int;
        assert(neg_a.wire() == witness_wire(w));
        assert(b.wire() == witness_wire(w + 1));
        assert(bc.wire() == witness_wire(w + 2));
        assert(neg_ac.wire() == witness_wire(w + 3));
        assert(bcac.wire() == witness_wire(w + 4));
        assert(cb.witness_gates@ =~= old(cb).witness_gates@ + xor_gadget_gates(
            a.wire(),
            c.wire(),
            minus_one.wire(),
            w,
        ));
        assert(c0.inputs@[0] == one_value());
        assert(a.value.wf() && c.value.wf() && minus_one.value.wf()) by {
            match a.kind {
                VariableKind::Input => assert(c0.inputs@[a.index as int].wf()),
                VariableKind::Witness => assert(c0.witnesses@[a.index as int].wf()),
                VariableKind::Output => assert(c0.outputs@[a.index as int].wf()),
            }
            match c.kind {
                VariableKind::Input => assert(c0.inputs@[c.index as int].wf()),
                VariableKind::Witness => assert(c0.witnesses@[c.index as int].wf()),
                VariableKind::Output => assert(c0.outputs@[c.index as int].wf()),
            }
            match minus_one.kind {
                VariableKind::Input => assert(c0.inputs@[minus_one.index as int].wf()),
                VariableKind::Witness => assert(c0.witnesses@[minus_one.index as int].wf()),
                VariableKind::Output => assert(c0.outputs@[minus_one.index as int].wf()),
            }
        }
        lemma_gadget_chain(a.value.val(), c.value.val(), minus_one.value.val());
    }
    r
}

pub open spec fn digit(d: nat) -> char {
    if d == 0 {
        '0'
    } else if d == 1 {
        '1'
    } else if d == 2 {
        '2'
    } else if d == 3 {
        '3'
    } else if d == 4 {
        '4'
    } else if d == 5 {
        '5'
    } else if d == 6 {
        '6'
    } else if d == 7 {
        '7'
    } else if d == 8 {
        '8'
    } else {
        '9'
    }
}

/// The decimal digits of `i`, most significant first.
pub open spec fn decimal(i: nat) -> Seq<char>
    decreases i,
{
    if i < 10 {
        seq![digit(i)]
    } else {
        decimal(i / 10).push(digit(i % 10))
    }
}

/// Relies on std's `format!` with `usize`'s `Display`: `prefix` followed by the
/// decimal digits of `i`.
#[verifier::external_body]
fn indexed_label(prefix: &str, i: usize) -> (r: String)
    ensures
        r@ == prefix@ + decimal(i as nat),
{
    format!("{}{}", prefix, i)
}

/// The witness gates of the XOR circuit on `n` bit pairs once its first `i`
/// pairs are in: its inputs are numbered from `l`, its witnesses from `w`. Each
/// pair after the first adds a gadget and the product that folds it in.
pub open spec fn xor_fold_gates(l: int, n: int, w: int, i: int) -> Seq<Gate>
    decreases i,
{
    if i <= 1 {
        xor_gadget_gates(input_wire(l), input_wire(l + 1), input_wire(l + 2 * n), w)
    } else {
        xor_fold_gates(l, n, w, i - 1) + xor_gadget_gates(
            input_wire(l + 2 * (i - 1)),
            input_wire(l + 2 * (i - 1) + 1),
            input_wire(l + 2 * n),
            w + 7 * (i - 1) - 1,
        ) + seq![
            Gate {
                kind: GateKind::Mul,
                left: witness_wire(w + 7 * (i - 1) - 2),
                right: witness_wire(w + 7 * (i - 1) + 4),
            },
        ]
    }
}

/// The output gate of the XOR circuit: the fold of every pair times the input one.
pub open spec fn xor_output_gate(l: int, n: int, w: int) -> Gate {
    Gate {
        kind: GateKind::Mul,
        left: witness_wire(w + 7 * n - 2),
        right: input_wire(l + 2 * n + 1),
    }
}

/// Builds the circuit that checks, bit by bit, that `a_val` and `b_val` differ
/// everywhere: one XOR gadget per bit pair, the results folded by products, and
/// one output gate that multiplies the fold by one.
///
/// Declares, after those already there, the inputs `a0, b0, a1, b1, ...,
/// minus_one, one` with values `a_val[0], b_val[0], ..., -1, 1`. It adds one
/// output and never fails.
pub fn build_xor_circuit(cb: &mut ConstraintBuilder, a_val: Vec<Fe>, b_val: Vec<Fe>) -> (r:
    Result<(), Error>)
    requires
        old(cb).wf(),
        a_val@.len() >= 1,
        b_val@.len() >= a_val@.len(),
        all_wf(a_val@),
        all_wf(b_val@),
    ensures
        final(cb).wf(),
        r is Ok,
        ({
            let n = a_val@.len() as int;
            let l = old(cb).inputs@.len() as int;
            let w = old(cb).witnesses@.len() as int;
            let o = old(cb).labels@.len() as int;
            &&& final(cb).extends(old(cb))
            &&& final(cb).inputs@.len() == l + 2 * n + 2
            &&& forall|j: int|
                0 <= j < n ==> final(cb).inputs@[l + 2 * j] == #[trigger] a_val@[j]
                    && final(cb).inputs@[l + 2 * j + 1] == b_val@[j]
            &&& final(cb).inputs@[l + 2 * n] == minus_one_value()
            &&& final(cb).inputs@[l + 2 * n + 1] == one_value()
            &&& final(cb).witnesses@.len() == w + 7 * n - 1
            &&& final(cb).witness_gates@ == old(cb).witness_gates@ + xor_fold_gates(l, n, w, n)
            &&& final(cb).output_gates@ == old(cb).output_gates@.push(xor_output_gate(l, n, w))
            &&& final(cb).outputs@.len() == old(cb).outputs@.len() + 1
            &&& final(cb).labels@.len() == o + 2 * n + 2
            &&& forall|j: int|
                0 <= j < n ==> (#[trigger] final(cb).labels@[o + 2 * j])@ == "a"@ + decimal(
                    j as nat,
                ) && final(cb).labels@[o + 2 * j + 1]@ == "b"@ + decimal(j as nat)
            &&& final(cb).labels@[o + 2 * n]@ == "minus_one"@
            &&& final(cb).labels@[o + 2 * n + 1]@ == "one"@
            &&& all_bits(a_val@) && all_bits(b_val@) ==> final(cb).outputs@.last().val() == (
            if bits_differ_upto(a_val@, b_val@, n) {
                1nat
            } else {
                0nat
            })
        }),
{
    let ghost c0 = *cb;
    let ghost l = c0.inputs@.len() as int;
    let ghost w = c0.witnesses@.len() as int;
    let ghost o = c0.labels@.len() as int;
    let n = a_val.len();
    let mut a: Vec<Variable> = Vec::new();
    let mut b: Vec<Variable> = Vec::new();
    let mut i: usize = 0;
    while i < n
        invariant
            cb.wf(),
            c0 == *old(cb),
            c0.wf(),
            l == c0.inputs@.len(),
            w == c0.witnesses@.len(),
            o == c0.labels@.len(),
            0 <= i <= n,
            n == a_val@.len(),
            b_val@.len() >= n,
            all_wf(a_val@),
            all_wf(b_val@),
            cb.extends(&c0),
            cb.witnesses@ == c0.witnesses@,
            cb.witness_gates@ == c0.witness_gates@,
            cb.outputs@ == c0.outputs@,
            cb.output_gates@ == c0.output_gates@,
            cb.inputs@.len() == l + 2 * i,
            cb.labels@.len() == o + 2 * i,
            forall|k: int| 0 <= k < o ==> #[trigger] cb.labels@[k] == c0.labels@[k],
            a@.len() == i,
            b@.len() == i,
            forall|j: int|
                0 <= j < i ==> cb.known(#[trigger] a@[j]) && a@[j].value == a_val@[j] && a@[j].wire()
                    == input_wire(l + 2 * j) && cb.known(b@[j]) && b@[j].value == b_val@[j]
                    && b@[j].wire() == input_wire(l + 2 * j + 1),
            forall|j: int|
                0 <= j < i ==> (#[trigger] cb.labels@[o + 2 * j])@ == "a"@ + decimal(j as nat)
                    && cb.labels@[o + 2 * j + 1]@ == "b"@ + decimal(j as nat),
        decreases n - i,
    {
        let ghost before = *cb;
        let la = indexed_label("a", i);
        let va = match cb.new_input_variable(la.as_str(), a_val[i]) {
            Ok(v) => v,
            Err(e) => {
                return Err(e);
            },
        };
        let ghost mid = *cb;
        let lb = indexed_label("b", i);
        let vb = match cb.new_input_variable(lb.as_str(), b_val[i]) {
            Ok(v) => v,
            Err(e) => {
                return Err(e);
            },
        };
        proof {
            lemma_extends_trans(before, mid, *cb);
            lemma_extends_trans(c0, before, *cb);
            lemma_known_kept(mid, *cb, va);
            assert forall|j: int| 0 <= j < i implies cb.known(#[trigger] a@[j]) && cb.known(b@[j]) by {
                lemma_known_kept(before, *cb, a@[j]);
                lemma_known_kept(before, *cb, b@[j]);
            }
            assert forall|k: int| 0 <= k < o + 2 * i implies #[trigger] cb.labels@[k]
                == before.labels@[k] by {
                assert(cb.labels@.drop_last()[k] == mid.labels@[k]);
                assert(mid.labels@.drop_last()[k] == before.labels@[k]);
            }
            assert(cb.labels@.drop_last()[o + 2 * i] == mid.labels@[o + 2 * i]);
            assert(cb.labels@[o + 2 * i]@ == "a"@ + decimal(i as nat));
            assert(cb.labels@[o + 2 * i + 1]@ == "b"@ + decimal(i as nat));
        }
        a.push(va);
        b.push(vb);
        i = i + 1;
    }
    let ghost c_in = *cb;
    let minus_one = match cb.new_input_variable("minus_one", Fe::minus_one()) {
        Ok(v) => v,
        Err(e) => {
            return Err(e);
        },
    };
    let ghost c_m = *cb;
    let one = match cb.new_input_variable("one", Fe::one()) {
        Ok(v) => v,
        Err(e) => {
            return Err(e);
        },
    };
    let ghost c1 = *cb;
    proof {
        lemma_extends_trans(c_in, c_m, c1);
        lemma_extends_trans(c0, c_in, c1);
        lemma_known_kept(c_m, c1, minus_one);
        assert forall|j: int| 0 <= j < n implies c1.known(#[trigger] a@[j]) && c1.known(b@[j]) by {
            lemma_known_kept(c_in, c1, a@[j]);
            lemma_known_kept(c_in, c1, b@[j]);
        }
        assert forall|k: int| 0 <= k < o + 2 * n implies #[trigger] c1.labels@[k]
            == c_in.labels@[k] by {
            assert(c1.labels@.drop_last()[k] == c_m.labels@[k]);
            assert(c_m.labels@.drop_last()[k] == c_in.labels@[k]);
        }
        assert(c1.labels@.drop_last()[o + 2 * n] == c_m.labels@[o + 2 * n]);
    }
    let ghost bits = all_bits(a_val@) && all_bits(b_val@);
    proof {
        if bits {
            assert(is_bit(a_val@[0]));
            assert(is_bit(b_val@[0]));
        }
        assert(c1.known(a@[0]) && c1.known(b@[0]));
    }
    let mut out = match enforce_xor(cb, &a[0], &b[0], &minus_one) {
        Ok(v) => v,
        Err(e) => {
            return Err(e);
        },
    };
    proof {
        if bits {
            lemma_xor_on_bits(a_val@[0], b_val@[0]);
        }
        assert(cb.witness_gates@ =~= c0.witness_gates@ + xor_fold_gates(l, n as int, w, 1));
    }
    let mut i: usize = 1;
    while i < n
        invariant
            cb.wf(),
            c0 == *old(cb),
            1 <= i <= n,
            n == a_val@.len(),
            b_val@.len() >= n,
            l == c0.inputs@.len(),
            w == c0.witnesses@.len(),
            c1.wf(),
            c1.extends(&c0),
            c1.witnesses@ == c0.witnesses@,
            c1.witness_gates@ == c0.witness_gates@,
            c1.outputs@ == c0.outputs@,
            c1.output_gates@ == c0.output_gates@,
            c1.inputs@.len() == l + 2 * n + 2,
            cb.extends(&c1),
            cb.labels@ == c1.labels@,
            cb.inputs@ == c1.inputs@,
            cb.outputs@ == c1.outputs@,
            cb.output_gates@ == c1.output_gates@,
            cb.witnesses@.len() == w + 7 * i - 1,
            cb.witness_gates@ == c0.witness_gates@ + xor_fold_gates(l, n as int, w, i as int),
            cb.known(out),
            out.wire() == witness_wire(w + 7 * i - 2),
            a@.len() == n,
            b@.len() == n,
            forall|j: int|
                0 <= j < n ==> c1.known(#[trigger] a@[j]) && a@[j].value == a_val@[j] && a@[j].wire()
                    == input_wire(l + 2 * j) && c1.known(b@[j]) && b@[j].value == b_val@[j]
                    && b@[j].wire() == input_wire(l + 2 * j + 1),
            c1.known(minus_one),
            minus_one.value == minus_one_value(),
            minus_one.wire() == input_wire(l + 2 * n),
            c1.known(one),
            one.value == one_value(),
            one.wire() == input_wire(l + 2 * n + 1),
            bits == (all_bits(a_val@) && all_bits(b_val@)),
            bits ==> is_bit(out.value) && out.value.val() == (if bits_differ_upto(
                a_val@,
                b_val@,
                i as int,
            ) {
                1nat
            } else {
                0nat
            }),
        decreases n - i,
    {
        let ghost before = *cb;
        proof {
            lemma_known_kept(c1, before, a@[i as int]);
            lemma_known_kept(c1, before, b@[i as int]);
            lemma_known_kept(c1, before, minus_one);
            if bits {
                assert(is_bit(a_val@[i as int]));
                assert(is_bit(b_val@[i as int]));
            }
        }
        let x = match enforce_xor(cb, &a[i], &b[i], &minus_one) {
            Ok(v) => v,
            Err(e) => {
                return Err(e);
            },
        };
        let ghost mid = *cb;
        proof {
            lemma_known_kept(before, mid, out);
            lemma_extends_trans(c1, before, mid);
            if bits {
                lemma_xor_on_bits(a_val@[i as int], b_val@[i as int]);
            }
        }
        let folded = match cb.enforce_constraint(&out, &x, GateKind::Mul, VariableKind::Witness) {
            Ok(v) => v,
            Err(e) => {
                return Err(e);
            },
        };
        proof {
            lemma_extends_trans(c1, mid, *cb);
            assert(cb.witness_gates@ =~= c0.witness_gates@ + xor_fold_gates(
                l,
                n as int,
                w,
                i as int + 1,
            ));
            if bits {
                lemma_product_of_bits(out.value, x.value);
                if bits_differ_upto(a_val@, b_val@, i as int + 1) {
                    assert(bits_differ_upto(a_val@, b_val@, i as int));
                } else if bits_differ_upto(a_val@, b_val@, i as int) {
                    assert(a_val@[i as int].val() == b_val@[i as int].val());
                }
            }
        }
        out = folded;
        i = i + 1;
    }
    let ghost before = *cb;
    proof {
        lemma_known_kept(c1, before, one);
    }
    match cb.enforce_constraint(&out, &one, GateKind::Mul, VariableKind::Output) {
        Ok(_) => {},
        Err(e) => {
            return Err(e);
        },
    }
    proof {
        lemma_extends_trans(c1, before, *cb);
        lemma_extends_trans(c0, c1, *cb);
        assert forall|j: int| 0 <= j < n implies cb.inputs@[l + 2 * j] == #[trigger] a_val@[j]
            && cb.inputs@[l + 2 * j + 1] == b_val@[j] by {
            assert(c1.known(a@[j]));
            assert(c1.known(b@[j]));
        }
        if bits {
            lemma_small_mod(out.value.val(), modulus());
        }
    }
    Ok(())
}

} // verus!
