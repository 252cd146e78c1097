//! The Halo2 backend: Pedersen commitments over the Vesta curve, as Halo2
//! computes them for its polynomials.

use crate::circuit::{
    constrain_commitment_cells, constrain_verification_cells, indices, CommitmentCircuit,
    ConstraintBuilder, Variable,
};
use crate::error::CommitmentError;
use crate::field::{limbs_value, FieldElement};
use crate::pedersen::{
    all_below, bytes_equal, capacity_of, check_all_below, committed_vector, copy_table,
    lemma_bytes_deep_view, lemma_padded_below, lemma_two_to_max, lemma_two_to_monotonic,
    pad_values, two_to, DEFAULT_LOG2_CAPACITY, MAX_LOG2_CAPACITY,
};
use crate::scheme::{CommitmentScheme, PedersenCommitment};
use halo2_proofs::pasta::group::{Curve, GroupEncoding};
use halo2_proofs::pasta::{EqAffine, Fp};
use halo2_proofs::plonk::{Advice, Column, ConstraintSystem, Selector};
use halo2_proofs::poly::commitment::{Blind, Params};
use halo2_proofs::poly::EvaluationDomain;
use vstd::prelude::*;

verus! {

/// The order of the scalar field of Vesta: the number of scalars that a
/// commitment of this backend can tell apart.
pub open spec fn vesta_scalar_order() -> nat {
    0x40000000000000000000000000000000224698fc094cf91b992d30ed00000001nat
}

/// The order of the scalar field of Vesta.
pub fn scalar_order() -> (order: FieldElement)
    ensures
        order.value() == vesta_scalar_order(),
{
    let order = FieldElement::from_limbs(
        0x992d30ed00000001,
        0x224698fc094cf91b,
        0,
        0x4000000000000000,
    );
    assert(limbs_value(0x992d30ed00000001, 0x224698fc094cf91b, 0, 0x4000000000000000)
        == vesta_scalar_order());
    order
}

/// The encodings of the first `2^k` generators that Halo2 derives for Vesta.
pub uninterp spec fn vesta_generators(k: nat) -> Seq<Seq<u8>>;

/// The encoding of the Vesta point that Halo2 commits to for the
/// coefficients `scalars` and the blinding factor `blind`, with parameters
/// of `2^k` generators.
pub uninterp spec fn vesta_commitment(k: nat, scalars: Seq<nat>, blind: nat) -> Seq<u8>;

/// `Params::<EqAffine>::new(k).get_g()`, each generator in its compressed
/// encoding.
///
/// Halo2 derives the generators by hashing to the curve under a fixed domain
/// separator, so they depend on `k` alone; there are `2^k` of them, and a
/// compressed point takes 32 bytes.
#[verifier::external_body]
fn vesta_bases(k: u32) -> (bases: Vec<Vec<u8>>)
    requires
        k <= MAX_LOG2_CAPACITY,
    ensures
        bases.deep_view() == vesta_generators(k as nat),
        bases.len() == two_to(k as nat),
        forall|i: int| 0 <= i < bases.len() ==> (#[trigger] bases[i]).len() == 32,
{
    Params::<EqAffine>::new(k).get_g().iter().map(|g| g.to_bytes().to_vec()).collect()
}

/// `Params::<EqAffine>::commit` on the polynomial with coefficients
/// `scalars` and the blinding factor `blind`, the point in its compressed
/// encoding.
///
/// The commitment is the sum of the generators scaled by the coefficients,
/// plus the blinding generator scaled by `blind`: a function of `k` and the
/// scalars alone. The scalars are handed over as integers below the order
/// of the field, which is how the field reads them without reducing; the
/// parameters ask for as many coefficients as generators.
#[verifier::external_body]
fn vesta_commit(k: u32, scalars: &Vec<FieldElement>, blind: &FieldElement) -> (point: Vec<u8>)
    requires
        k <= MAX_LOG2_CAPACITY,
        scalars.len() == two_to(k as nat),
        all_below(scalars.deep_view(), vesta_scalar_order()),
        blind.value() < vesta_scalar_order(),
    ensures
        point@ == vesta_commitment(k as nat, scalars.deep_view(), blind.value()),
        point.len() == 32,
{
    let coefficients: Vec<Fp> =
        scalars.iter().map(|s| Fp::from_raw([s.l0, s.l1, s.l2, s.l3])).collect();
    let polynomial = EvaluationDomain::<Fp>::new(1, k).coeff_from_vec(coefficients);
    let blind = Blind(Fp::from_raw([blind.l0, blind.l1, blind.l2, blind.l3]));
    Params::<EqAffine>::new(k).commit(&polynomial, blind).to_affine().to_bytes().to_vec()
}

/// The native Pedersen scheme of the Halo2 backend.
///
/// An instance is set up with `2^k` generators and commits to values of up
/// to `2^k - 1` scalars.
pub struct Halo2PedersenCommitment {
    log2_capacity: u32,
    capacity: usize,
    bases: Vec<Vec<u8>>,
}

impl Halo2PedersenCommitment {
    #[verifier::type_invariant]
    spec fn well_formed(self) -> bool {
        &&& self.log2_capacity <= MAX_LOG2_CAPACITY
        &&& self.capacity == two_to(self.log2_capacity as nat)
        &&& self.bases.deep_view() == vesta_generators(self.log2_capacity as nat)
    }

    /// The capacity exponent that the instance was set up with.
    pub closed spec fn spec_log2_capacity(self) -> nat {
        self.log2_capacity as nat
    }

    /// Sets up an instance with `2^log2_capacity` generators, or none where
    /// the exponent is over [`MAX_LOG2_CAPACITY`].
    pub fn new(log2_capacity: u32) -> (scheme: Option<Self>)
        ensures
            scheme is Some <==> log2_capacity <= MAX_LOG2_CAPACITY,
            scheme matches Some(s) ==> s.spec_log2_capacity() == log2_capacity,
    {
        if log2_capacity > MAX_LOG2_CAPACITY {
            return None;
        }
        Some(Self::with_exponent(log2_capacity))
    }

    /// Sets up an instance with the capacity that the factory hands out.
    pub fn standard() -> (scheme: Self)
        ensures
            scheme.spec_log2_capacity() == DEFAULT_LOG2_CAPACITY,
    {
        Self::with_exponent(DEFAULT_LOG2_CAPACITY)
    }

    fn with_exponent(log2_capacity: u32) -> (scheme: Self)
        requires
            log2_capacity <= MAX_LOG2_CAPACITY,
        ensures
            scheme.spec_log2_capacity() == log2_capacity,
    {
        let capacity = capacity_of(log2_capacity);
        let bases = vesta_bases(log2_capacity);
        Halo2PedersenCommitment { log2_capacity, capacity, bases }
    }

    /// The capacity exponent that the instance was set up with.
    pub fn log2_capacity(&self) -> (k: u32)
        ensures
            k == self.spec_log2_capacity(),
            k <= MAX_LOG2_CAPACITY,
    {
        proof {
            use_type_invariant(self);
        }
        self.log2_capacity
    }
}

impl CommitmentScheme for Halo2PedersenCommitment {
    type Commitment = Vec<u8>;

    type CommittedValue = Vec<FieldElement>;

    type Randomness = FieldElement;

    open spec fn spec_commit(&self, value: Seq<nat>, randomness: nat) -> Option<Seq<u8>> {
        match committed_vector(value, randomness, self.spec_log2_capacity(), vesta_scalar_order()) {
            Some(scalars) => Some(vesta_commitment(self.spec_log2_capacity(), scalars, randomness)),
            None => None,
        }
    }

    fn commit(&self, value: &Vec<FieldElement>, randomness: &FieldElement) -> (r: Result<
        Vec<u8>,
        CommitmentError,
    >) {
        proof {
            use_type_invariant(self);
        }
        let order = scalar_order();
        if value.len() >= self.capacity || !check_all_below(value, &order) || !randomness.is_below(
            &order,
        ) {
            return Err(CommitmentError::EncodingError);
        }
        let scalars = pad_values(value, self.capacity);
        proof {
            lemma_two_to_max();
            lemma_two_to_monotonic(self.log2_capacity as nat, MAX_LOG2_CAPACITY as nat);
            lemma_padded_below(value.deep_view(), self.capacity as nat, vesta_scalar_order());
        }
        let point = vesta_commit(self.log2_capacity, &scalars, randomness);
        proof {
            lemma_bytes_deep_view(point);
        }
        Ok(point)
    }

    fn verify(&self, commitment: &Vec<u8>, value: &Vec<FieldElement>, randomness: &FieldElement) -> (ok:
        bool) {
        proof {
            lemma_bytes_deep_view(*commitment);
        }
        match self.commit(value, randomness) {
            Ok(point) => {
                proof {
                    lemma_bytes_deep_view(point);
                }
                bytes_equal(&point, commitment)
            },
            Err(_) => false,
        }
    }
}

impl PedersenCommitment for Halo2PedersenCommitment {
    type Generators = Vec<Vec<u8>>;

    open spec fn spec_generators(&self) -> Seq<Seq<u8>> {
        vesta_generators(self.spec_log2_capacity())
    }

    fn generators(&self) -> (g: Vec<Vec<u8>>) {
        proof {
            use_type_invariant(self);
        }
        copy_table(&self.bases)
    }
}

/// A constraint system of Halo2 over the field of its circuits, in its
/// configuration phase. Verus sees nothing inside it.
#[verifier::external_body]
pub struct CircuitLayout {
    pub inner: ConstraintSystem<Fp>,
}

/// An advice column of a [`CircuitLayout`]. Verus sees nothing inside it.
#[verifier::external_body]
pub struct AdviceColumn {
    pub inner: Column<Advice>,
}

/// Halo2's selector.
#[verifier::external_type_specification]
#[verifier::external_body]
pub struct ExSelector(Selector);

/// The number of selectors that have been allocated in the layout.
pub uninterp spec fn selector_count(layout: CircuitLayout) -> nat;

/// The position of a selector among the selectors of its layout.
pub uninterp spec fn selector_index(selector: Selector) -> nat;

/// `ConstraintSystem::selector`: allocates a selector.
///
/// Halo2 numbers selectors in the order of their allocation: the new one
/// takes the number of those allocated before it, and the count goes up by
/// one.
#[verifier::external_body]
fn allocate_selector(meta: &mut CircuitLayout) -> (selector: Selector)
    ensures
        selector_index(selector) == selector_count(*old(meta)),
        selector_count(*final(meta)) == selector_count(*old(meta)) + 1,
{
    meta.inner.selector()
}

/// Where the Pedersen chip keeps its cells: a column for each member of
/// the value, one for the randomness, one for the commitment, and the
/// selector that switches the chip's gate on.
pub struct PedersenCommitmentConfig {
    value_columns: Vec<AdviceColumn>,
    randomness_column: AdviceColumn,
    commitment_column: AdviceColumn,
    selector: Selector,
}

impl PedersenCommitmentConfig {
    /// The columns of the value, in order.
    pub closed spec fn spec_value_columns(self) -> Seq<AdviceColumn> {
        self.value_columns@
    }

    /// The column of the randomness.
    pub closed spec fn spec_randomness_column(self) -> AdviceColumn {
        self.randomness_column
    }

    /// The column of the commitment.
    pub closed spec fn spec_commitment_column(self) -> AdviceColumn {
        self.commitment_column
    }

    /// The selector of the chip's gate.
    pub closed spec fn spec_selector(self) -> Selector {
        self.selector
    }

    /// The columns of the value, in order.
    pub fn value_columns(&self) -> (columns: &Vec<AdviceColumn>)
        ensures
            columns@ == self.spec_value_columns(),
    {
        &self.value_columns
    }

    /// The column of the randomness.
    pub fn randomness_column(&self) -> (column: &AdviceColumn)
        ensures
            *column == self.spec_randomness_column(),
    {
        &self.randomness_column
    }

    /// The column of the commitment.
    pub fn commitment_column(&self) -> (column: &AdviceColumn)
        ensures
            *column == self.spec_commitment_column(),
    {
        &self.commitment_column
    }

    /// The selector of the chip's gate.
    pub fn selector(&self) -> (selector: &Selector)
        ensures
            *selector == self.spec_selector(),
    {
        &self.selector
    }
}

/// The chip that constrains Pedersen commitments in a Halo2 circuit.
pub struct PedersenCommitmentChip {
    config: PedersenCommitmentConfig,
}

impl PedersenCommitmentChip {
    /// The configuration that the chip was constructed from.
    pub closed spec fn spec_config(self) -> PedersenCommitmentConfig {
        self.config
    }

    /// Lays the chip out: keeps the columns it is given and allocates the
    /// selector of its gate, the next one of the layout.
    pub fn configure(
        meta: &mut CircuitLayout,
        value_columns: Vec<AdviceColumn>,
        randomness_column: AdviceColumn,
        commitment_column: AdviceColumn,
    ) -> (config: PedersenCommitmentConfig)
        ensures
            config.spec_value_columns() == value_columns@,
            config.spec_randomness_column() == randomness_column,
            config.spec_commitment_column() == commitment_column,
            selector_index(config.spec_selector()) == selector_count(*old(meta)),
            selector_count(*final(meta)) == selector_count(*old(meta)) + 1,
    {
        let selector = allocate_selector(meta);
        PedersenCommitmentConfig { value_columns, randomness_column, commitment_column, selector }
    }

    /// The chip over a configuration.
    pub fn construct(config: PedersenCommitmentConfig) -> (chip: Self)
        ensures
            chip.spec_config() == config,
    {
        PedersenCommitmentChip { config }
    }

    /// The configuration that the chip was constructed from.
    pub fn config(&self) -> (config: &PedersenCommitmentConfig)
        ensures
            *config == self.spec_config(),
    {
        &self.config
    }
}

impl CommitmentCircuit for PedersenCommitmentChip {
    type CircuitCommitment = Variable;

    type CircuitValue = Vec<Variable>;

    type CircuitRandomness = Variable;

    open spec fn commitment_cell(commitment: &Variable) -> int {
        commitment.index as int
    }

    open spec fn value_cells(value: &Vec<Variable>) -> Seq<int> {
        indices(value@)
    }

    open spec fn randomness_cell(randomness: &Variable) -> int {
        randomness.index as int
    }

    /// The chip lays each member of a value out in a column of its own.
    open spec fn takes(&self, members: nat) -> bool {
        members <= self.spec_config().spec_value_columns().len()
    }

    fn constrain_commitment(
        &self,
        cs: &mut ConstraintBuilder,
        value: &Vec<Variable>,
        randomness: &Variable,
    ) -> (r: Result<Variable, CommitmentError>) {
        if value.len() > self.config.value_columns.len() {
            return Err(CommitmentError::SynthesisError);
        }
        constrain_commitment_cells(cs, value.as_slice(), *randomness)
    }

    fn constrain_verification(
        &self,
        cs: &mut ConstraintBuilder,
        commitment: &Variable,
        value: &Vec<Variable>,
        randomness: &Variable,
    ) -> (r: Result<(), CommitmentError>) {
        if value.len() > self.config.value_columns.len() {
            return Err(CommitmentError::SynthesisError);
        }
        constrain_verification_cells(cs, *commitment, value.as_slice(), *randomness)
    }
}

} // verus!
