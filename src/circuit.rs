use vstd::prelude::*;

use crate::error::{CompilationError, Error};
use crate::field::{Fe, fe_add, fe_mul, modulus, one_value};

verus! {

/// The role of a variable in the witness vector.
#[derive(Clone, Copy, Debug, PartialEq, Eq, Structural)]
pub enum VariableKind {
    Input,
    Witness,
    Output,
}

#[derive(Clone, Copy, Debug, PartialEq, Eq, Structural)]
pub enum GateKind {
    Add,
    Mul,
}

/// A reference to a variable: its kind and its position among the variables of
/// that kind, in the order they were made.
#[derive(Clone, Copy, Debug, PartialEq, Eq, Structural)]
pub struct Wire {
    pub kind: VariableKind,
    pub index: usize,
}

/// Handle to a variable: its kind, its position among the variables of that
/// kind, and its value.
#[derive(Clone, Copy, Debug, PartialEq, Eq, Structural)]
pub struct Variable {
    pub kind: VariableKind,
    pub index: usize,
    pub value: Fe,
}

impl Variable {
    pub open spec fn wire(self) -> Wire {
        Wire { kind: self.kind, index: self.index }
    }
}

/// A two-operand gate; its result is the witness or output that it introduced.
#[derive(Clone, Copy, Debug, PartialEq, Eq, Structural)]
pub struct Gate {
    pub kind: GateKind,
    pub left: Wire,
    pub right: Wire,
}

/// The value of a gate's result, in the field: the sum or the product of its operands.
pub open spec fn gate_value(kind: GateKind, x: nat, y: nat) -> nat {
    match kind {
        GateKind::Add => (x + y) % modulus(),
        GateKind::Mul => (x * y) % modulus(),
    }
}

/// A circuit under construction, over BN254's scalar field.
///
/// Variables of each kind are numbered in the order they were made. Input 0
/// is the constant one. Each witness and each output is the result of one gate.
pub struct ConstraintBuilder {
    /// The values of the inputs; the first is the constant one.
    pub inputs: Vec<Fe>,
    /// The labels of the declared inputs (all but the constant), in order.
    pub labels: Vec<String>,
    /// The gates that produce the witnesses, one per witness.
    pub witness_gates: Vec<Gate>,
    pub witnesses: Vec<Fe>,
    /// The gates that produce the outputs, one per output.
    pub output_gates: Vec<Gate>,
    pub outputs: Vec<Fe>,
}

/// A variable stays known in every circuit that extends the one it belongs to.
pub proof fn lemma_known_kept(prev: ConstraintBuilder, next: ConstraintBuilder, v: Variable)
    requires
        next.extends(&prev),
        prev.known(v),
    ensures
        next.known(v),
{
    match v.kind {
        VariableKind::Input => assert(next.inputs@[v.index as int] == prev.inputs@[v.index as int]),
        VariableKind::Witness => assert(next.witnesses@[v.index as int]
            == prev.witnesses@[v.index as int]),
        VariableKind::Output => assert(next.outputs@[v.index as int]
            == prev.outputs@[v.index as int]),
    }
}

pub proof fn lemma_extends_trans(a: ConstraintBuilder, b: ConstraintBuilder, c: ConstraintBuilder)
    requires
        b.extends(&a),
        c.extends(&b),
    ensures
        c.extends(&a),
{
}

impl ConstraintBuilder {
    /// The rows reserved for the constant and the declared inputs.
    pub open spec fn num_input_rows(&self) -> int {
        self.inputs@.len() as int
    }

    pub open spec fn num_vars(&self) -> int {
        (self.inputs@.len() + self.witnesses@.len() + self.outputs@.len()) as int
    }

    /// The wire names a variable that exists.
    pub open spec fn in_range(&self, w: Wire) -> bool {
        match w.kind {
            VariableKind::Input => w.index < self.inputs@.len(),
            VariableKind::Witness => w.index < self.witnesses@.len(),
            VariableKind::Output => w.index < self.outputs@.len(),
        }
    }

    pub open spec fn value_of(&self, w: Wire) -> Fe {
        match w.kind {
            VariableKind::Input => self.inputs@[w.index as int],
            VariableKind::Witness => self.witnesses@[w.index as int],
            VariableKind::Output => self.outputs@[w.index as int],
        }
    }

    /// The column of a variable in the witness vector: inputs first, then
    /// witnesses, then outputs, each kind in the order it was made.
    pub open spec fn column(&self, w: Wire) -> int {
        match w.kind {
            VariableKind::Input => w.index as int,
            VariableKind::Witness => self.inputs@.len() + w.index,
            VariableKind::Output => self.inputs@.len() + self.witnesses@.len() + w.index,
        }
    }

    /// The witness vector: every value, by column.
    pub open spec fn z(&self) -> Seq<Fe> {
        self.inputs@ + self.witnesses@ + self.outputs@
    }

    /// Gate number `k` of kind `kind` read only variables made before it, and
    /// its result holds the sum or product of their values.
    pub open spec fn gate_wf(&self, g: Gate, kind: VariableKind, k: int, result: Fe) -> bool {
        &&& self.in_range(g.left)
        &&& self.in_range(g.right)
        &&& g.left.kind == kind ==> g.left.index < k
        &&& g.right.kind == kind ==> g.right.index < k
        &&& result.val() == gate_value(
            g.kind,
            self.value_of(g.left).val(),
            self.value_of(g.right).val(),
        )
    }

    pub open spec fn wf(&self) -> bool {
        &&& self.inputs@.len() >= 1
        &&& self.inputs@[0] == one_value()
        &&& self.labels@.len() + 1 == self.inputs@.len()
        &&& self.witnesses@.len() == self.witness_gates@.len()
        &&& self.outputs@.len() == self.output_gates@.len()
        &&& forall|i: int| 0 <= i < self.inputs@.len() ==> (#[trigger] self.inputs@[i]).wf()
        &&& forall|i: int| 0 <= i < self.witnesses@.len() ==> (#[trigger] self.witnesses@[i]).wf()
        &&& forall|i: int| 0 <= i < self.outputs@.len() ==> (#[trigger] self.outputs@[i]).wf()
        &&& forall|k: int|
            0 <= k < self.witness_gates@.len() ==> self.gate_wf(
                #[trigger] self.witness_gates@[k],
                VariableKind::Witness,
                k,
                self.witnesses@[k],
            )
        &&& forall|k: int|
            0 <= k < self.output_gates@.len() ==> self.gate_wf(
                #[trigger] self.output_gates@[k],
                VariableKind::Output,
                k,
                self.outputs@[k],
            )
    }

    /// `v` names a variable of this circuit, with its value.
    pub open spec fn known(&self, v: Variable) -> bool {
        &&& self.in_range(v.wire())
        &&& self.value_of(v.wire()) == v.value
    }

    /// `self` keeps every variable and gate of `prev`, in place.
    pub open spec fn extends(&self, prev: &Self) -> bool {
        &&& prev.inputs@.len() <= self.inputs@.len()
        &&& prev.witnesses@.len() <= self.witnesses@.len()
        &&& prev.outputs@.len() <= self.outputs@.len()
        &&& prev.witness_gates@.len() <= self.witness_gates@.len()
        &&& prev.output_gates@.len() <= self.output_gates@.len()
        &&& forall|i: int| 0 <= i < prev.inputs@.len() ==> self.inputs@[i] == #[trigger] prev.inputs@[i]
        &&& forall|i: int|
            0 <= i < prev.witnesses@.len() ==> self.witnesses@[i] == #[trigger] prev.witnesses@[i]
        &&& forall|i: int|
            0 <= i < prev.outputs@.len() ==> self.outputs@[i] == #[trigger] prev.outputs@[i]
        &&& forall|k: int|
            0 <= k < prev.witness_gates@.len() ==> self.witness_gates@[k]
                == #[trigger] prev.witness_gates@[k]
        &&& forall|k: int|
            0 <= k < prev.output_gates@.len() ==> self.output_gates@[k]
                == #[trigger] prev.output_gates@[k]
    }

    /// A circuit that holds only the constant one.
    pub fn new() -> (r: ConstraintBuilder)
        ensures
            r.wf(),
            r.inputs@ == seq![one_value()],
            r.witnesses@.len() == 0,
            r.outputs@.len() == 0,
            r.labels@.len() == 0,
    {
        ConstraintBuilder {
            inputs: vec![Fe::one()],
            labels: Vec::new(),
            witness_gates: Vec::new(),
            witnesses: Vec::new(),
            output_gates: Vec::new(),
            outputs: Vec::new(),
        }
    }

    /// The number of variables, the constant included.
    pub fn num_variables(&self) -> (r: usize)
        requires
            self.num_vars() <= usize::MAX,
        ensures
            r == self.num_vars(),
    {
        self.inputs.len() + self.witnesses.len() + self.outputs.len()
    }

    /// The value of the last output, if there is one.
    pub fn output_value(&self) -> (r: Option<Fe>)
        ensures
            r == (if self.outputs@.len() > 0 {
                Some(self.outputs@.last())
            } else {
                None::<Fe>
            }),
    {
        let n = self.outputs.len();
        if n > 0 {
            Some(self.outputs[n - 1])
        } else {
            None
        }
    }

    /// Tells whether `v` names a variable of this circuit, with its value.
    pub fn is_known(&self, v: &Variable) -> (r: bool)
        ensures
            r == self.known(*v),
    {
        match v.kind {
            VariableKind::Input => v.index < self.inputs.len() && self.inputs[v.index] == v.value,
            VariableKind::Witness => v.index < self.witnesses.len() && self.witnesses[v.index]
                == v.value,
            VariableKind::Output => v.index < self.outputs.len() && self.outputs[v.index]
                == v.value,
        }
    }

    /// The witness vector: inputs, then witnesses, then outputs.
    pub fn witness_vector(&self) -> (r: Vec<Fe>)
        ensures
            r@ == self.z(),
    {
        let mut r: Vec<Fe> = Vec::new();
        let mut i: usize = 0;
        while i < self.inputs.len()
            invariant
                0 <= i <= self.inputs@.len(),
                r@ == self.inputs@.subrange(0, i as int),
            decreases self.inputs@.len() - i,
        {
            r.push(self.inputs[i]);
            assert(r@ =~= self.inputs@.subrange(0, i as int + 1));
            i = i + 1;
        }
        let mut i: usize = 0;
        while i < self.witnesses.len()
            invariant
                0 <= i <= self.witnesses@.len(),
                r@ == self.inputs@ + self.witnesses@.subrange(0, i as int),
            decreases self.witnesses@.len() - i,
        {
            r.push(self.witnesses[i]);
            assert(r@ =~= self.inputs@ + self.witnesses@.subrange(0, i as int + 1));
            i = i + 1;
        }
        let mut i: usize = 0;
        while i < self.outputs.len()
            invariant
                0 <= i <= self.outputs@.len(),
                r@ == self.inputs@ + self.witnesses@ + self.outputs@.subrange(0, i as int),
            decreases self.outputs@.len() - i,
        {
            r.push(self.outputs[i]);
            assert(r@ =~= self.inputs@ + self.witnesses@ + self.outputs@.subrange(0, i as int + 1));
            i = i + 1;
        }
        assert(self.inputs@.subrange(0, self.inputs@.len() as int) =~= self.inputs@);
        assert(self.witnesses@.subrange(0, self.witnesses@.len() as int) =~= self.witnesses@);
        assert(self.outputs@.subrange(0, self.outputs@.len() as int) =~= self.outputs@);
        r
    }

    /// Declares an input with the given label and value.
    pub fn new_input_variable(&mut self, name: &str, value: Fe) -> (r: Result<Variable, Error>)
        requires
            old(self).wf(),
            value.wf(),
        ensures
            final(self).wf(),
            final(self).extends(old(self)),
            r is Ok,
            r->Ok_0 == (Variable { kind: VariableKind::Input, index: r->Ok_0.index, value }),
            r->Ok_0.index == old(self).inputs@.len(),
            final(self).inputs@ == old(self).inputs@.push(value),
            final(self).witnesses@ == old(self).witnesses@,
            final(self).outputs@ == old(self).outputs@,
            final(self).witness_gates@ == old(self).witness_gates@,
            final(self).output_gates@ == old(self).output_gates@,
            final(self).labels@.len() == old(self).labels@.len() + 1,
            final(self).labels@.last()@ == name@,
            final(self).labels@.drop_last() == old(self).labels@,
    {
        let index = self.inputs.len();
        self.inputs.push(value);
        let label = name.to_string();
        proof {
            vstd::string::to_string_from_display_ensures_for_str(name, label);
        }
        self.labels.push(label);
        proof {
            let o = *old(self);
            assert forall|k: int| 0 <= k < self.witness_gates@.len() implies self.gate_wf(
                #[trigger] self.witness_gates@[k],
                VariableKind::Witness,
                k,
                self.witnesses@[k],
            ) by {
                assert(o.gate_wf(o.witness_gates@[k], VariableKind::Witness, k, o.witnesses@[k]));
                let g = o.witness_gates@[k];
                assert(self.value_of(g.left) == o.value_of(g.left));
                assert(self.value_of(g.right) == o.value_of(g.right));
            }
            assert forall|k: int| 0 <= k < self.output_gates@.len() implies self.gate_wf(
                #[trigger] self.output_gates@[k],
                VariableKind::Output,
                k,
                self.outputs@[k],
            ) by {
                assert(o.gate_wf(o.output_gates@[k], VariableKind::Output, k, o.outputs@[k]));
                let g = o.output_gates@[k];
                assert(self.value_of(g.left) == o.value_of(g.left));
                assert(self.value_of(g.right) == o.value_of(g.right));
            }
        }
        Ok(Variable { kind: VariableKind::Input, index, value })
    }

    /// Appends one gate on two known variables and returns its result, a new
    /// witness or output. Fails, leaving the circuit as it was, when an operand
    /// is unknown or when `result_kind` is `Input`.
    pub fn enforce_constraint(
        &mut self,
        left: &Variable,
        right: &Variable,
        kind: GateKind,
        result_kind: VariableKind,
    ) -> (r: Result<Variable, Error>)
        requires
            old(self).wf(),
        ensures
            final(self).wf(),
            final(self).extends(old(self)),
            final(self).labels@ == old(self).labels@,
            final(self).inputs@ == old(self).inputs@,
            r is Ok <==> old(self).known(*left) && old(self).known(*right) && result_kind
                != VariableKind::Input,
            r is Err ==> *final(self) == *old(self),
            !(old(self).known(*left) && old(self).known(*right)) ==> r == Err::<Variable, Error>(
                Error::Compilation(CompilationError::UnknownVariable),
            ),
            old(self).known(*left) && old(self).known(*right) && result_kind
                == VariableKind::Input ==> r == Err::<Variable, Error>(
                Error::Compilation(CompilationError::InputAsGateResult),
            ),
            r is Ok ==> {
                let g = Gate { kind, left: left.wire(), right: right.wire() };
                let v = r->Ok_0;
                &&& v.kind == result_kind
                &&& v.value.val() == gate_value(kind, left.value.val(), right.value.val())
                &&& result_kind == VariableKind::Witness ==> {
                    &&& v.index == old(self).witnesses@.len()
                    &&& final(self).witnesses@ == old(self).witnesses@.push(v.value)
                    &&& final(self).witness_gates@ == old(self).witness_gates@.push(g)
                    &&& final(self).outputs@ == old(self).outputs@
                    &&& final(self).output_gates@ == old(self).output_gates@
                }
                &&& result_kind == VariableKind::Output ==> {
                    &&& v.index == old(self).outputs@.len()
                    &&& final(self).outputs@ == old(self).outputs@.push(v.value)
                    &&& final(self).output_gates@ == old(self).output_gates@.push(g)
                    &&& final(self).witnesses@ == old(self).witnesses@
                    &&& final(self).witness_gates@ == old(self).witness_gates@
                }
            },
    {
        if !(self.is_known(left) && self.is_known(right)) {
            return Err(Error::Compilation(CompilationError::UnknownVariable));
        }
        if result_kind == VariableKind::Input {
            return Err(Error::Compilation(CompilationError::InputAsGateResult));
        }
        let value = match kind {
            GateKind::Add => fe_add(left.value, right.value),
            GateKind::Mul => fe_mul(left.value, right.value),
        };
        let g = Gate {
            kind,
            left: Wire { kind: left.kind, index: left.index },
            right: Wire { kind: right.kind, index: right.index },
        };
        let ghost o = *self;
        let index;
        if result_kind == VariableKind::Witness {
            index = self.witnesses.len();
            self.witnesses.push(value);
            self.witness_gates.push(g);
        } else {
            index = self.outputs.len();
            self.outputs.push(value);
            self.output_gates.push(g);
        }
        proof {
            assert(self.value_of(g.left) == o.value_of(g.left));
            assert(self.value_of(g.right) == o.value_of(g.right));
            assert forall|k: int| 0 <= k < self.witness_gates@.len() implies self.gate_wf(
                #[trigger] self.witness_gates@[k],
                VariableKind::Witness,
                k,
                self.witnesses@[k],
            ) by {
                if k < o.witness_gates@.len() {
                    assert(o.gate_wf(o.witness_gates@[k], VariableKind::Witness, k, o.witnesses@[k]));
                    let h = o.witness_gates@[k];
                    assert(self.value_of(h.left) == o.value_of(h.left));
                    assert(self.value_of(h.right) == o.value_of(h.right));
                }
            }
            assert forall|k: int| 0 <= k < self.output_gates@.len() implies self.gate_wf(
                #[trigger] self.output_gates@[k],
                VariableKind::Output,
                k,
                self.outputs@[k],
            ) by {
                if k < o.output_gates@.len() {
                    assert(o.gate_wf(o.output_gates@[k], VariableKind::Output, k, o.outputs@[k]));
                    let h = o.output_gates@[k];
                    assert(self.value_of(h.left) == o.value_of(h.left));
                    assert(self.value_of(h.right) == o.value_of(h.right));
                }
            }
        }
        Ok(Variable { kind: result_kind, index, value })
    }
}

} // verus!
