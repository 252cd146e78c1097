//! The circuit form of a commitment scheme: cells, the constraints that a
//! scheme emits over them, and what it means for an assignment to satisfy
//! them.
//!
//! A constraint names a relation among cells. How a proving system lays the
//! relation out in gates and rows is its own business.

use crate::error::CommitmentError;
use crate::field::FieldElement;
use crate::pedersen::{bytes_equal, copy_bytes, lemma_bytes_deep_view};
use crate::scheme::{spec_verify, CommitmentScheme};
use vstd::prelude::*;

verus! {

/// A cell of a circuit, by its number.
#[derive(Clone, Copy, Debug, PartialEq, Eq, Structural)]
pub struct Variable {
    pub index: usize,
}

/// A relation that the circuit enforces among its cells.
#[derive(Debug)]
pub enum Constraint {
    /// The cell `commitment` holds the commitment to the scalars in the
    /// cells `values` under the scalar in the cell `randomness`.
    Opening { values: Vec<Variable>, randomness: Variable, commitment: Variable },
    /// The two cells hold the same.
    Equal { left: Variable, right: Variable },
}

/// What a cell holds.
#[derive(Debug)]
pub enum Cell {
    Scalar { value: FieldElement },
    Commitment { bytes: Vec<u8> },
}

/// What a cell holds, as a mathematical value.
pub enum CellValue {
    Scalar { value: nat },
    Commitment { bytes: Seq<u8> },
}

/// A constraint over cell numbers.
pub enum ConstraintView {
    Opening { values: Seq<int>, randomness: int, commitment: int },
    Equal { left: int, right: int },
}

impl View for Cell {
    type V = CellValue;

    open spec fn view(&self) -> CellValue {
        match self {
            Cell::Scalar { value } => CellValue::Scalar { value: value.value() },
            Cell::Commitment { bytes } => CellValue::Commitment { bytes: bytes@ },
        }
    }
}

/// The numbers of the cells `variables`.
pub open spec fn indices(variables: Seq<Variable>) -> Seq<int> {
    Seq::new(variables.len(), |i: int| variables[i].index as int)
}

impl View for Constraint {
    type V = ConstraintView;

    open spec fn view(&self) -> ConstraintView {
        match self {
            Constraint::Opening { values, randomness, commitment } => ConstraintView::Opening {
                values: indices(values@),
                randomness: randomness.index as int,
                commitment: commitment.index as int,
            },
            Constraint::Equal { left, right } => ConstraintView::Equal {
                left: left.index as int,
                right: right.index as int,
            },
        }
    }
}

/// The values that an assignment gives to the cells of a circuit.
pub open spec fn assignment_view(cells: Seq<Cell>) -> Seq<CellValue> {
    Seq::new(cells.len(), |i: int| cells[i]@)
}

/// Every cell named is a cell of the assignment and holds a scalar.
pub open spec fn holds_scalars(assignment: Seq<CellValue>, cells: Seq<int>) -> bool {
    forall|i: int|
        0 <= i < cells.len() ==> 0 <= (#[trigger] cells[i]) < assignment.len()
            && assignment[cells[i]] is Scalar
}

/// The scalars in the cells named, in order.
pub open spec fn scalars_at(assignment: Seq<CellValue>, cells: Seq<int>) -> Seq<nat> {
    Seq::new(cells.len(), |i: int| assignment[cells[i]]->value)
}

/// The opening relation: the three groups of cells hold scalars, a scalar
/// and a commitment, and the commitment is the scheme's commitment to the
/// scalars under the randomness.
pub open spec fn opening_holds<S>(
    scheme: S,
    assignment: Seq<CellValue>,
    values: Seq<int>,
    randomness: int,
    commitment: int,
) -> bool where
    S: CommitmentScheme<
        Commitment = Vec<u8>,
        CommittedValue = Vec<FieldElement>,
        Randomness = FieldElement,
    >,
 {
    &&& holds_scalars(assignment, values)
    &&& 0 <= randomness < assignment.len()
    &&& assignment[randomness] is Scalar
    &&& 0 <= commitment < assignment.len()
    &&& assignment[commitment] is Commitment
    &&& spec_verify(
        scheme.spec_commit(scalars_at(assignment, values), assignment[randomness]->value),
        assignment[commitment]->bytes,
    )
}

/// Whether the assignment satisfies one constraint.
pub open spec fn constraint_holds<S>(
    scheme: S,
    assignment: Seq<CellValue>,
    constraint: ConstraintView,
) -> bool where
    S: CommitmentScheme<
        Commitment = Vec<u8>,
        CommittedValue = Vec<FieldElement>,
        Randomness = FieldElement,
    >,
 {
    match constraint {
        ConstraintView::Opening { values, randomness, commitment } => opening_holds(
            scheme,
            assignment,
            values,
            randomness,
            commitment,
        ),
        ConstraintView::Equal { left, right } => {
            &&& 0 <= left < assignment.len()
            &&& 0 <= right < assignment.len()
            &&& assignment[left] == assignment[right]
        },
    }
}

/// Whether the circuit accepts the assignment: every constraint holds.
pub open spec fn accepts<S>(
    scheme: S,
    constraints: Seq<ConstraintView>,
    assignment: Seq<CellValue>,
) -> bool where
    S: CommitmentScheme<
        Commitment = Vec<u8>,
        CommittedValue = Vec<FieldElement>,
        Randomness = FieldElement,
    >,
 {
    forall|i: int|
        0 <= i < constraints.len() ==> constraint_holds(scheme, assignment, #[trigger] constraints[i])
}

/// A circuit under construction, as a mathematical value: how many cells
/// it has, and the constraints over them.
pub struct CircuitView {
    pub cells: nat,
    pub constraints: Seq<ConstraintView>,
}

/// Every cell named is one of the first `cells` cells.
pub open spec fn cells_in_scope(named: Seq<int>, cells: nat) -> bool {
    forall|i: int| 0 <= i < named.len() ==> 0 <= (#[trigger] named[i]) < cells
}

/// The constraint names cells among the first `cells` only.
pub open spec fn in_scope(constraint: ConstraintView, cells: nat) -> bool {
    match constraint {
        ConstraintView::Opening { values, randomness, commitment } => {
            &&& cells_in_scope(values, cells)
            &&& 0 <= randomness < cells
            &&& 0 <= commitment < cells
        },
        ConstraintView::Equal { left, right } => 0 <= left < cells && 0 <= right < cells,
    }
}

/// Every constraint of the circuit names cells of the circuit only.
pub open spec fn well_scoped(circuit: CircuitView) -> bool {
    forall|i: int|
        0 <= i < circuit.constraints.len() ==> in_scope(
            #[trigger] circuit.constraints[i],
            circuit.cells,
        )
}

/// The circuit with one more cell.
pub open spec fn with_cell(circuit: CircuitView) -> CircuitView {
    CircuitView { cells: circuit.cells + 1, constraints: circuit.constraints }
}

/// The circuit with one more constraint.
pub open spec fn with_constraint(circuit: CircuitView, constraint: ConstraintView) -> CircuitView {
    CircuitView { cells: circuit.cells, constraints: circuit.constraints.push(constraint) }
}

/// The circuit after a commitment was constrained: a new cell, the last,
/// bound by the opening relation to the cells of value and randomness.
pub open spec fn commitment_circuit(circuit: CircuitView, values: Seq<int>, randomness: int) -> CircuitView {
    with_constraint(
        with_cell(circuit),
        ConstraintView::Opening { values, randomness, commitment: circuit.cells as int },
    )
}

/// The circuit after a verification was constrained: a commitment is
/// constrained afresh, and the cell `commitment` is bound to equal it.
pub open spec fn verification_circuit(
    circuit: CircuitView,
    commitment: int,
    values: Seq<int>,
    randomness: int,
) -> CircuitView {
    with_constraint(
        commitment_circuit(circuit, values, randomness),
        ConstraintView::Equal { left: commitment, right: circuit.cells as int },
    )
}

/// Collects and checks the constraints of a circuit.
pub struct ConstraintBuilder {
    capacity: usize,
    cells: usize,
    constraints: Vec<Constraint>,
}

impl View for ConstraintBuilder {
    type V = CircuitView;

    closed spec fn view(&self) -> CircuitView {
        CircuitView {
            cells: self.cells as nat,
            constraints: Seq::new(self.constraints@.len(), |i: int| self.constraints@[i]@),
        }
    }
}

impl ConstraintBuilder {
    #[verifier::type_invariant]
    spec fn well_formed(self) -> bool {
        &&& self.cells <= self.capacity
        &&& well_scoped(self@)
    }

    /// The number of cells that the builder has room for.
    pub closed spec fn spec_capacity(self) -> nat {
        self.capacity as nat
    }

    /// A builder with room for `capacity` cells, and nothing in it.
    pub fn new(capacity: usize) -> (builder: Self)
        ensures
            builder.spec_capacity() == capacity,
            builder@.cells == 0,
            builder@.constraints == Seq::<ConstraintView>::empty(),
    {
        let builder = ConstraintBuilder { capacity, cells: 0, constraints: Vec::new() };
        proof {
            assert(builder@.constraints =~= Seq::<ConstraintView>::empty());
        }
        builder
    }

    /// The number of cells that the builder has room for.
    pub fn capacity(&self) -> (capacity: usize)
        ensures
            capacity == self.spec_capacity(),
    {
        self.capacity
    }

    /// The number of cells allocated so far.
    pub fn cells(&self) -> (cells: usize)
        ensures
            cells == self@.cells,
            cells <= self.spec_capacity(),
            well_scoped(self@),
    {
        proof {
            use_type_invariant(self);
        }
        self.cells
    }

    /// The number of constraints emitted so far.
    pub fn constraint_count(&self) -> (count: usize)
        ensures
            count == self@.constraints.len(),
    {
        self.constraints.len()
    }

    /// Whether `variable` is a cell of this builder.
    pub fn has_cell(&self, variable: Variable) -> (known: bool)
        ensures
            known == (variable.index < self@.cells),
    {
        variable.index < self.cells
    }

    /// Whether every one of `variables` is a cell of this builder.
    pub fn has_cells(&self, variables: &[Variable]) -> (known: bool)
        ensures
            known == cells_in_scope(indices(variables@), self@.cells),
    {
        let mut i: usize = 0;
        while i < variables.len()
            invariant
                i <= variables.len(),
                cells_in_scope(indices(variables@).take(i as int), self@.cells),
            decreases variables.len() - i,
        {
            if variables[i].index >= self.cells {
                proof {
                    assert(indices(variables@)[i as int] == variables@[i as int].index);
                }
                return false;
            }
            proof {
                let all = indices(variables@);
                assert forall|j: int| 0 <= j < all.take(i + 1).len() implies 0 <= (
                #[trigger] all.take(i + 1)[j]) < self@.cells by {
                    if j < i {
                        assert(all.take(i as int)[j] == all[j]);
                    }
                }
            }
            i = i + 1;
        }
        proof {
            assert(indices(variables@).take(variables@.len() as int) =~= indices(variables@));
        }
        true
    }

    /// Allocates a cell, the next in number.
    ///
    /// Fails with `SynthesisError`, and leaves the builder as it was,
    /// exactly where there is no room for another cell.
    pub fn allocate(&mut self) -> (r: Result<Variable, CommitmentError>)
        ensures
            final(self).spec_capacity() == old(self).spec_capacity(),
            r is Ok <==> old(self)@.cells < old(self).spec_capacity(),
            r matches Ok(variable) ==> variable.index == old(self)@.cells && final(self)@
                == with_cell(old(self)@),
            r matches Err(e) ==> e == CommitmentError::SynthesisError && final(self)@ == old(
                self,
            )@,
    {
        proof {
            use_type_invariant(&*self);
        }
        if self.cells >= self.capacity {
            return Err(CommitmentError::SynthesisError);
        }
        let variable = Variable { index: self.cells };
        let ghost before = self@;
        proof {
            assert forall|i: int| 0 <= i < before.constraints.len() implies in_scope(
                #[trigger] before.constraints[i],
                before.cells + 1,
            ) by {
                lemma_scope_grows(before.constraints[i], before.cells, before.cells + 1);
            }
        }
        self.cells = self.cells + 1;
        proof {
            assert(self@.constraints =~= before.constraints);
        }
        Ok(variable)
    }

    /// Emits a constraint over cells of this builder.
    fn emit(&mut self, constraint: Constraint)
        requires
            in_scope(constraint@, old(self)@.cells),
        ensures
            final(self).spec_capacity() == old(self).spec_capacity(),
            final(self)@ == with_constraint(old(self)@, constraint@),
    {
        proof {
            use_type_invariant(&*self);
        }
        let ghost before = self@;
        let ghost added = constraint@;
        let mut constraints: Vec<Constraint> = Vec::new();
        proof {
            assert(Seq::new(constraints@.len(), |i: int| constraints@[i]@)
                =~= Seq::<ConstraintView>::empty());
        }
        core::mem::swap(&mut self.constraints, &mut constraints);
        constraints.push(constraint);
        proof {
            let after = before.constraints.push(added);
            assert forall|i: int| 0 <= i < after.len() implies in_scope(
                #[trigger] after[i],
                before.cells,
            ) by {
                if i < before.constraints.len() {
                    assert(after[i] == before.constraints[i]);
                }
            }
            assert(Seq::new(constraints@.len(), |i: int| constraints@[i]@) =~= after);
        }
        core::mem::swap(&mut self.constraints, &mut constraints);
    }

    /// Binds the cell `commitment` to hold the commitment to the scalars in
    /// `values` under the scalar in `randomness`.
    ///
    /// Fails with `SynthesisError`, and leaves the builder as it was,
    /// exactly where one of the cells is not a cell of this builder.
    pub fn constrain_opening(
        &mut self,
        values: &[Variable],
        randomness: Variable,
        commitment: Variable,
    ) -> (r: Result<(), CommitmentError>)
        ensures
            final(self).spec_capacity() == old(self).spec_capacity(),
            r is Ok <==> in_scope(
                ConstraintView::Opening {
                    values: indices(values@),
                    randomness: randomness.index as int,
                    commitment: commitment.index as int,
                },
                old(self)@.cells,
            ),
            r is Ok ==> final(self)@ == with_constraint(
                old(self)@,
                ConstraintView::Opening {
                    values: indices(values@),
                    randomness: randomness.index as int,
                    commitment: commitment.index as int,
                },
            ),
            r matches Err(e) ==> e == CommitmentError::SynthesisError && final(self)@ == old(
                self,
            )@,
    {
        if !self.has_cells(values) || !self.has_cell(randomness) || !self.has_cell(commitment) {
            return Err(CommitmentError::SynthesisError);
        }
        let mut named: Vec<Variable> = Vec::new();
        let mut i: usize = 0;
        while i < values.len()
            invariant
                i <= values.len(),
                named@ == values@.take(i as int),
            decreases values.len() - i,
        {
            named.push(values[i]);
            proof {
                assert(values@.take(i + 1) =~= values@.take(i as int).push(values@[i as int]));
            }
            i = i + 1;
        }
        proof {
            assert(values@.take(values@.len() as int) =~= values@);
        }
        self.emit(Constraint::Opening { values: named, randomness, commitment });
        Ok(())
    }

    /// Binds two cells to hold the same.
    ///
    /// Fails with `SynthesisError`, and leaves the builder as it was,
    /// exactly where one of the cells is not a cell of this builder.
    pub fn constrain_equal(&mut self, left: Variable, right: Variable) -> (r: Result<
        (),
        CommitmentError,
    >)
        ensures
            final(self).spec_capacity() == old(self).spec_capacity(),
            r is Ok <==> left.index < old(self)@.cells && right.index < old(self)@.cells,
            r is Ok ==> final(self)@ == with_constraint(
                old(self)@,
                ConstraintView::Equal { left: left.index as int, right: right.index as int },
            ),
            r matches Err(e) ==> e == CommitmentError::SynthesisError && final(self)@ == old(
                self,
            )@,
    {
        if !self.has_cell(left) || !self.has_cell(right) {
            return Err(CommitmentError::SynthesisError);
        }
        self.emit(Constraint::Equal { left, right });
        Ok(())
    }
}

/// A constraint over some cells is a constraint over more cells.
pub proof fn lemma_scope_grows(constraint: ConstraintView, cells: nat, more: nat)
    requires
        in_scope(constraint, cells),
        cells <= more,
    ensures
        in_scope(constraint, more),
{
    match constraint {
        ConstraintView::Opening { values, randomness, commitment } => {
            assert forall|i: int| 0 <= i < values.len() implies 0 <= (#[trigger] values[i])
                < more by {
                assert(0 <= values[i] < cells);
            }
        },
        ConstraintView::Equal { left, right } => {},
    }
}

/// Whether a commitment over the cells named can be constrained in the
/// circuit: the cells are cells of the circuit, and there is room for the
/// cell of the commitment.
pub open spec fn can_constrain(circuit: CircuitView, capacity: nat, values: Seq<int>, randomness: int) -> bool {
    &&& cells_in_scope(values, circuit.cells)
    &&& 0 <= randomness < circuit.cells
    &&& circuit.cells < capacity
}

/// Constrains a commitment to the scalars in `values` under the scalar in
/// `randomness`, and hands out its cell.
///
/// Fails with `SynthesisError`, and leaves the builder as it was, exactly
/// where a cell named is not a cell of the builder or the builder has no
/// room for another cell.
pub fn constrain_commitment_cells(
    cs: &mut ConstraintBuilder,
    values: &[Variable],
    randomness: Variable,
) -> (r: Result<Variable, CommitmentError>)
    ensures
        final(cs).spec_capacity() == old(cs).spec_capacity(),
        r is Ok <==> can_constrain(
            old(cs)@,
            old(cs).spec_capacity(),
            indices(values@),
            randomness.index as int,
        ),
        r matches Ok(commitment) ==> commitment.index == old(cs)@.cells && final(cs)@
            == commitment_circuit(old(cs)@, indices(values@), randomness.index as int),
        r matches Err(e) ==> e == CommitmentError::SynthesisError && final(cs)@ == old(cs)@,
{
    if !cs.has_cells(values) || !cs.has_cell(randomness) || cs.cells() >= cs.capacity() {
        return Err(CommitmentError::SynthesisError);
    }
    let ghost before = cs@;
    let commitment = match cs.allocate() {
        Ok(variable) => variable,
        Err(e) => {
            return Err(e);
        },
    };
    proof {
        let named = indices(values@);
        assert forall|i: int| 0 <= i < named.len() implies 0 <= (#[trigger] named[i])
            < before.cells + 1 by {
            assert(0 <= named[i] < before.cells);
        }
    }
    match cs.constrain_opening(values, randomness, commitment) {
        Ok(_) => Ok(commitment),
        Err(e) => Err(e),
    }
}

/// Constrains the cell `commitment` to hold the commitment to the scalars
/// in `values` under the scalar in `randomness`.
///
/// A commitment that does not match makes the circuit reject; it is no
/// error here. Fails with `SynthesisError`, and leaves the builder as it
/// was, exactly where a cell named is not a cell of the builder or the
/// builder has no room for another cell.
pub fn constrain_verification_cells(
    cs: &mut ConstraintBuilder,
    commitment: Variable,
    values: &[Variable],
    randomness: Variable,
) -> (r: Result<(), CommitmentError>)
    ensures
        final(cs).spec_capacity() == old(cs).spec_capacity(),
        r is Ok <==> commitment.index < old(cs)@.cells && can_constrain(
            old(cs)@,
            old(cs).spec_capacity(),
            indices(values@),
            randomness.index as int,
        ),
        r is Ok ==> final(cs)@ == verification_circuit(
            old(cs)@,
            commitment.index as int,
            indices(values@),
            randomness.index as int,
        ),
        r matches Err(e) ==> e == CommitmentError::SynthesisError && final(cs)@ == old(cs)@,
{
    if !cs.has_cell(commitment) {
        return Err(CommitmentError::SynthesisError);
    }
    let fresh = match constrain_commitment_cells(cs, values, randomness) {
        Ok(variable) => variable,
        Err(e) => {
            return Err(e);
        },
    };
    cs.constrain_equal(commitment, fresh)
}

/// The circuit form of a commitment scheme: what it emits into a builder.
pub trait CommitmentCircuit {
    /// A commitment inside the circuit.
    type CircuitCommitment;

    /// A committed value inside the circuit.
    type CircuitValue;

    /// A randomness inside the circuit.
    type CircuitRandomness;

    /// The cell of a commitment.
    spec fn commitment_cell(commitment: &Self::CircuitCommitment) -> int;

    /// The cells of a value, in order.
    spec fn value_cells(value: &Self::CircuitValue) -> Seq<int>;

    /// The cell of a randomness.
    spec fn randomness_cell(randomness: &Self::CircuitRandomness) -> int;

    /// Whether this circuit form can lay out a value of `members` cells.
    spec fn takes(&self, members: nat) -> bool;

    /// Emits the constraints that force a new cell to hold the commitment
    /// that the native scheme computes for the value and the randomness.
    ///
    /// Fails with `SynthesisError`, and emits nothing, exactly where the
    /// value cannot be laid out, a cell is not a cell of the builder, or
    /// the builder has no room.
    fn constrain_commitment(
        &self,
        cs: &mut ConstraintBuilder,
        value: &Self::CircuitValue,
        randomness: &Self::CircuitRandomness,
    ) -> (r: Result<Self::CircuitCommitment, CommitmentError>)
        ensures
            final(cs).spec_capacity() == old(cs).spec_capacity(),
            r is Ok <==> self.takes(Self::value_cells(value).len()) && can_constrain(
                old(cs)@,
                old(cs).spec_capacity(),
                Self::value_cells(value),
                Self::randomness_cell(randomness),
            ),
            r matches Ok(commitment) ==> Self::commitment_cell(&commitment) == old(cs)@.cells
                && final(cs)@ == commitment_circuit(
                old(cs)@,
                Self::value_cells(value),
                Self::randomness_cell(randomness),
            ),
            r matches Err(e) ==> e == CommitmentError::SynthesisError && final(cs)@ == old(cs)@,
    ;

    /// Emits the constraints that force `commitment` to be the commitment
    /// to the value under the randomness. Where it is not, the circuit
    /// rejects: that is no error.
    ///
    /// Fails with `SynthesisError`, and emits nothing, exactly where the
    /// value cannot be laid out, a cell is not a cell of the builder, or
    /// the builder has no room.
    fn constrain_verification(
        &self,
        cs: &mut ConstraintBuilder,
        commitment: &Self::CircuitCommitment,
        value: &Self::CircuitValue,
        randomness: &Self::CircuitRandomness,
    ) -> (r: Result<(), CommitmentError>)
        ensures
            final(cs).spec_capacity() == old(cs).spec_capacity(),
            r is Ok <==> self.takes(Self::value_cells(value).len()) && 0 <= Self::commitment_cell(
                commitment,
            ) < old(cs)@.cells && can_constrain(
                old(cs)@,
                old(cs).spec_capacity(),
                Self::value_cells(value),
                Self::randomness_cell(randomness),
            ),
            r is Ok ==> final(cs)@ == verification_circuit(
                old(cs)@,
                Self::commitment_cell(commitment),
                Self::value_cells(value),
                Self::randomness_cell(randomness),
            ),
            r matches Err(e) ==> e == CommitmentError::SynthesisError && final(cs)@ == old(cs)@,
    ;
}

/// Whether two cells hold the same.
pub fn cells_equal(left: &Cell, right: &Cell) -> (same: bool)
    ensures
        same == (left@ == right@),
{
    match left {
        Cell::Scalar { value: a } => match right {
            Cell::Scalar { value: b } => {
                proof {
                    if a.value() == b.value() {
                        FieldElement::lemma_value_injective(*a, *b);
                    }
                }
                *a == *b
            },
            Cell::Commitment { .. } => false,
        },
        Cell::Commitment { bytes: a } => match right {
            Cell::Scalar { .. } => false,
            Cell::Commitment { bytes: b } => bytes_equal(a, b),
        },
    }
}

/// The scalars in the cells named, or nothing where one of them is no cell
/// of the assignment or holds no scalar.
pub fn read_scalars(assignment: &[Cell], cells: &Vec<Variable>) -> (scalars: Option<
    Vec<FieldElement>,
>)
    ensures
        scalars is Some <==> holds_scalars(assignment_view(assignment@), indices(cells@)),
        scalars matches Some(read) ==> read.deep_view() == scalars_at(
            assignment_view(assignment@),
            indices(cells@),
        ),
{
    let ghost given = assignment_view(assignment@);
    let ghost named = indices(cells@);
    let mut read: Vec<FieldElement> = Vec::new();
    let mut i: usize = 0;
    while i < cells.len()
        invariant
            i <= cells.len(),
            given == assignment_view(assignment@),
            named == indices(cells@),
            holds_scalars(given, named.take(i as int)),
            read.len() == i,
            forall|j: int| 0 <= j < i ==> read[j].value() == given[named[j]]->value,
        decreases cells.len() - i,
    {
        let index = cells[i].index;
        proof {
            assert(named[i as int] == index);
        }
        if index >= assignment.len() {
            return None;
        }
        match &assignment[index] {
            Cell::Scalar { value } => {
                read.push(*value);
            },
            Cell::Commitment { .. } => {
                proof {
                    assert(given[index as int] == assignment@[index as int]@);
                }
                return None;
            },
        }
        proof {
            assert(given[index as int] == assignment@[index as int]@);
            assert forall|j: int| 0 <= j < named.take(i + 1).len() implies 0 <= (
            #[trigger] named.take(i + 1)[j]) < given.len() && given[named.take(i + 1)[j]]
                is Scalar by {
                if j < i {
                    assert(named.take(i as int)[j] == named[j]);
                }
            }
        }
        i = i + 1;
    }
    proof {
        assert(named.take(cells@.len() as int) =~= named);
        assert(read.deep_view() =~= scalars_at(given, named));
    }
    Some(read)
}

/// Whether the assignment satisfies the constraint, the opening relation
/// being decided by the native `verify` of `scheme`.
pub fn check_constraint<S>(scheme: &S, assignment: &[Cell], constraint: &Constraint) -> (ok:
    bool) where
    S: CommitmentScheme<
        Commitment = Vec<u8>,
        CommittedValue = Vec<FieldElement>,
        Randomness = FieldElement,
    >,

    ensures
        ok == constraint_holds(*scheme, assignment_view(assignment@), constraint@),
{
    let ghost given = assignment_view(assignment@);
    match constraint {
        Constraint::Opening { values, randomness, commitment } => {
            let scalars = match read_scalars(assignment, values) {
                Some(read) => read,
                None => {
                    return false;
                },
            };
            if randomness.index >= assignment.len() || commitment.index >= assignment.len() {
                return false;
            }
            proof {
                assert(given[randomness.index as int] == assignment@[randomness.index as int]@);
                assert(given[commitment.index as int] == assignment@[commitment.index as int]@);
            }
            match &assignment[randomness.index] {
                Cell::Commitment { .. } => false,
                Cell::Scalar { value: blind } => match &assignment[commitment.index] {
                    Cell::Scalar { .. } => false,
                    Cell::Commitment { bytes } => {
                        proof {
                            lemma_bytes_deep_view(*bytes);
                        }
                        scheme.verify(bytes, &scalars, blind)
                    },
                },
            }
        },
        Constraint::Equal { left, right } => {
            if left.index >= assignment.len() || right.index >= assignment.len() {
                return false;
            }
            proof {
                assert(given[left.index as int] == assignment@[left.index as int]@);
                assert(given[right.index as int] == assignment@[right.index as int]@);
            }
            cells_equal(&assignment[left.index], &assignment[right.index])
        },
    }
}

impl ConstraintBuilder {
    /// Whether the circuit accepts the assignment: it gives a value to
    /// every cell, and every constraint holds of it.
    pub fn check<S>(&self, scheme: &S, assignment: &[Cell]) -> (ok: bool) where
        S: CommitmentScheme<
            Commitment = Vec<u8>,
            CommittedValue = Vec<FieldElement>,
            Randomness = FieldElement,
        >,

        ensures
            ok == (assignment@.len() == self@.cells && accepts(
                *scheme,
                self@.constraints,
                assignment_view(assignment@),
            )),
    {
        if assignment.len() != self.cells {
            return false;
        }
        let mut i: usize = 0;
        while i < self.constraints.len()
            invariant
                i <= self.constraints.len(),
                forall|j: int|
                    0 <= j < i ==> constraint_holds(
                        *scheme,
                        assignment_view(assignment@),
                        #[trigger] self@.constraints[j],
                    ),
            decreases self.constraints.len() - i,
        {
            proof {
                assert(self@.constraints[i as int] == self.constraints@[i as int]@);
            }
            if !check_constraint(scheme, assignment, &self.constraints[i]) {
                return false;
            }
            i = i + 1;
        }
        true
    }
}

/// A constraint over the cells of an assignment holds of the assignment
/// with one more cell exactly where it holds of the assignment.
pub proof fn lemma_more_cells_change_nothing<S>(
    scheme: S,
    assignment: Seq<CellValue>,
    fresh: CellValue,
    constraint: ConstraintView,
) where
    S: CommitmentScheme<
        Commitment = Vec<u8>,
        CommittedValue = Vec<FieldElement>,
        Randomness = FieldElement,
    >,

    requires
        in_scope(constraint, assignment.len()),
    ensures
        constraint_holds(scheme, assignment.push(fresh), constraint) == constraint_holds(
            scheme,
            assignment,
            constraint,
        ),
{
    let more = assignment.push(fresh);
    match constraint {
        ConstraintView::Opening { values, randomness, commitment } => {
            assert forall|i: int| 0 <= i < values.len() implies more[#[trigger] values[i]]
                == assignment[values[i]] by {}
            assert(holds_scalars(more, values) == holds_scalars(assignment, values)) by {
                if holds_scalars(assignment, values) {
                    assert forall|i: int| 0 <= i < values.len() implies 0 <= (
                    #[trigger] values[i]) < more.len() && more[values[i]] is Scalar by {}
                }
                if holds_scalars(more, values) {
                    assert forall|i: int| 0 <= i < values.len() implies 0 <= (
                    #[trigger] values[i]) < assignment.len() && assignment[values[i]]
                        is Scalar by {
                        assert(more[values[i]] is Scalar);
                    }
                }
            }
            assert(scalars_at(more, values) =~= scalars_at(assignment, values));
        },
        ConstraintView::Equal { left, right } => {},
    }
}

/// Cross-mode equivalence. Take a circuit and an assignment that it
/// accepts, and constrain the verification of the commitment in one cell
/// against the scalars in others. Then the circuit accepts the assignment,
/// completed by some value of the one new cell, exactly where the native
/// `verify` accepts what the cells hold: a commitment that does not match
/// leaves no assignment that the circuit accepts. Where there is one, the
/// new cell holds the commitment itself.
pub proof fn lemma_circuit_accepts_what_verify_accepts<S>(
    scheme: S,
    circuit: CircuitView,
    commitment: int,
    values: Seq<int>,
    randomness: int,
    assignment: Seq<CellValue>,
) where
    S: CommitmentScheme<
        Commitment = Vec<u8>,
        CommittedValue = Vec<FieldElement>,
        Randomness = FieldElement,
    >,

    requires
        well_scoped(circuit),
        assignment.len() == circuit.cells,
        accepts(scheme, circuit.constraints, assignment),
        0 <= commitment < circuit.cells,
        cells_in_scope(values, circuit.cells),
        0 <= randomness < circuit.cells,
    ensures
        (exists|fresh: CellValue|
            accepts(
                scheme,
                verification_circuit(circuit, commitment, values, randomness).constraints,
                #[trigger] assignment.push(fresh),
            )) <==> opening_holds(scheme, assignment, values, randomness, commitment),
        accepts(
            scheme,
            verification_circuit(circuit, commitment, values, randomness).constraints,
            assignment.push(assignment[commitment]),
        ) <==> opening_holds(scheme, assignment, values, randomness, commitment),
{
    let after = verification_circuit(circuit, commitment, values, randomness).constraints;
    let n = circuit.cells as int;
    let count = circuit.constraints.len() as int;
    let opening = ConstraintView::Opening { values, randomness, commitment: n };
    let equal = ConstraintView::Equal { left: commitment, right: n };
    assert(after[count] == opening);
    assert(after[count + 1] == equal);
    if opening_holds(scheme, assignment, values, randomness, commitment) {
        let fresh = assignment[commitment];
        let more = assignment.push(fresh);
        assert forall|i: int| 0 <= i < after.len() implies constraint_holds(
            scheme,
            more,
            #[trigger] after[i],
        ) by {
            if i < count {
                assert(after[i] == circuit.constraints[i]);
                lemma_more_cells_change_nothing(scheme, assignment, fresh, after[i]);
            } else if i == count {
                assert forall|j: int| 0 <= j < values.len() implies 0 <= (#[trigger] values[j])
                    < more.len() && more[values[j]] is Scalar by {}
                assert(scalars_at(more, values) =~= scalars_at(assignment, values));
            } else {
            }
        }
    }
    if exists|fresh: CellValue| accepts(scheme, after, #[trigger] assignment.push(fresh)) {
        let fresh = choose|fresh: CellValue| accepts(scheme, after, #[trigger] assignment.push(fresh));
        let more = assignment.push(fresh);
        assert(constraint_holds(scheme, more, after[count]));
        assert(constraint_holds(scheme, more, after[count + 1]));
        assert forall|j: int| 0 <= j < values.len() implies 0 <= (#[trigger] values[j])
            < assignment.len() && assignment[values[j]] is Scalar by {
            assert(more[values[j]] is Scalar);
        }
        assert(scalars_at(more, values) =~= scalars_at(assignment, values));
        assert(more[commitment] == assignment[commitment]);
        assert(more[randomness] == assignment[randomness]);
    }
}

/// Verifies an opening the long way round: lays out a circuit with a cell
/// for each scalar of the value, one for the randomness and one for the
/// commitment, constrains the verification, and asks whether the circuit
/// accepts what was given. The answer is that of the native `verify`.
///
/// Fails with `SynthesisError` exactly where the value leaves no room for
/// the three other cells.
pub fn verify_in_circuit<S>(
    scheme: &S,
    commitment: &Vec<u8>,
    value: &Vec<FieldElement>,
    randomness: &FieldElement,
) -> (r: Result<bool, CommitmentError>) where
    S: CommitmentScheme<
        Commitment = Vec<u8>,
        CommittedValue = Vec<FieldElement>,
        Randomness = FieldElement,
    >,

    ensures
        r is Ok <==> value.len() + 3 <= usize::MAX,
        r matches Ok(accepted) ==> accepted == spec_verify(
            scheme.spec_commit(value.deep_view(), randomness.value()),
            commitment.deep_view(),
        ),
        r matches Err(e) ==> e == CommitmentError::SynthesisError,
{
    if value.len() > usize::MAX - 3 {
        return Err(CommitmentError::SynthesisError);
    }
    let members = value.len();
    let mut cs = ConstraintBuilder::new(members + 3);
    let mut variables: Vec<Variable> = Vec::new();
    let mut cells: Vec<Cell> = Vec::new();
    let mut i: usize = 0;
    while i < members
        invariant
            i <= members,
            members == value.len(),
            members + 3 <= usize::MAX,
            cs.spec_capacity() == members + 3,
            cs@.cells == i,
            cs@.constraints == Seq::<ConstraintView>::empty(),
            variables.len() == i,
            cells.len() == i,
            forall|j: int| 0 <= j < i ==> (#[trigger] variables[j]).index == j,
            forall|j: int|
                0 <= j < i ==> (#[trigger] cells[j])@ == (CellValue::Scalar {
                    value: value[j].value(),
                }),
        decreases members - i,
    {
        match cs.allocate() {
            Ok(variable) => {
                variables.push(variable);
                cells.push(Cell::Scalar { value: value[i] });
            },
            Err(e) => {
                return Err(e);
            },
        }
        i = i + 1;
    }
    let blind = match cs.allocate() {
        Ok(variable) => variable,
        Err(e) => {
            return Err(e);
        },
    };
    let claimed = match cs.allocate() {
        Ok(variable) => variable,
        Err(e) => {
            return Err(e);
        },
    };
    cells.push(Cell::Scalar { value: *randomness });
    cells.push(Cell::Commitment { bytes: copy_bytes(commitment) });
    let ghost before = cs@;
    let ghost given = assignment_view(cells@);
    let ghost named = indices(variables@);
    proof {
        assert forall|j: int| 0 <= j < named.len() implies 0 <= (#[trigger] named[j])
            < before.cells by {
            assert(named[j] == variables[j].index);
        }
    }
    match constrain_verification_cells(&mut cs, claimed, variables.as_slice(), blind) {
        Ok(_) => {},
        Err(e) => {
            return Err(e);
        },
    }
    cells.push(Cell::Commitment { bytes: copy_bytes(commitment) });
    let accepted = cs.check(scheme, cells.as_slice());
    proof {
        lemma_bytes_deep_view(*commitment);
        assert(well_scoped(before));
        assert(accepts(*scheme, before.constraints, given));
        assert(given[claimed.index as int] == (CellValue::Commitment { bytes: commitment@ }));
        assert(given[blind.index as int] == (CellValue::Scalar { value: randomness.value() }));
        assert(assignment_view(cells@) =~= given.push(given[claimed.index as int]));
        lemma_circuit_accepts_what_verify_accepts(
            *scheme,
            before,
            claimed.index as int,
            named,
            blind.index as int,
            given,
        );
        assert forall|j: int| 0 <= j < named.len() implies 0 <= (#[trigger] named[j])
            < given.len() && given[named[j]] is Scalar by {
            assert(named[j] == variables[j].index);
            assert(given[j] == cells[j]@);
        }
        assert(scalars_at(given, named) =~= value.deep_view()) by {
            assert forall|j: int| 0 <= j < named.len() implies scalars_at(given, named)[j]
                == value.deep_view()[j] by {
                assert(named[j] == variables[j].index);
                assert(given[j] == cells[j]@);
            }
        }
    }
    Ok(accepted)
}

} // verus!
