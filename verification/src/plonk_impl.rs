//! The PLONK backend: Pedersen commitments over the Pallas curve, the other
//! curve of the cycle, whose scalars are the field of the PLONK circuits.

use crate::circuit::{
    can_constrain, commitment_circuit, constrain_commitment_cells, constrain_verification_cells,
    indices, verification_circuit, CommitmentCircuit, ConstraintBuilder, Variable,
};
use crate::error::CommitmentError;
use crate::field::{limbs_value, FieldElement};
use crate::pedersen::{
    all_below, bytes_equal, capacity_of, check_all_below, committed_vector, copy_table,
    lemma_bytes_deep_view, lemma_padded_below, lemma_two_to_max, lemma_two_to_monotonic,
    pad_values, two_to, DEFAULT_LOG2_CAPACITY, MAX_LOG2_CAPACITY,
};
use crate::scheme::{CommitmentScheme, PedersenCommitment};
use halo2_proofs::pasta::group::{Curve, GroupEncoding};
use halo2_proofs::pasta::{EpAffine, Fq};
use halo2_proofs::poly::commitment::{Blind, Params};
use halo2_proofs::poly::EvaluationDomain;
use vstd::prelude::*;

verus! {

/// The order of the scalar field of Pallas: the number of scalars that a
/// commitment of this backend can tell apart.
pub open spec fn pallas_scalar_order() -> nat {
    0x40000000000000000000000000000000224698fc0994a8dd8c46eb2100000001nat
}

/// The order of the scalar field of Pallas.
pub fn scalar_order() -> (order: FieldElement)
    ensures
        order.value() == pallas_scalar_order(),
{
    let order = FieldElement::from_limbs(
        0x8c46eb2100000001,
        0x224698fc0994a8dd,
        0,
        0x4000000000000000,
    );
    assert(limbs_value(0x8c46eb2100000001, 0x224698fc0994a8dd, 0, 0x4000000000000000)
        == pallas_scalar_order());
    order
}

/// The encodings of the first `2^k` generators that Halo2's parameters derive for Pallas.
pub uninterp spec fn pallas_generators(k: nat) -> Seq<Seq<u8>>;

/// The encoding of the Pallas point that Halo2's parameters commit to for the
/// coefficients `scalars` and the blinding factor `blind`, with parameters
/// of `2^k` generators.
pub uninterp spec fn pallas_commitment(k: nat, scalars: Seq<nat>, blind: nat) -> Seq<u8>;

/// `Params::<EpAffine>::new(k).get_g()`, each generator in its compressed
/// encoding.
///
/// Halo2's parameters derive the generators by hashing to the curve under a fixed domain
/// separator, so they depend on `k` alone; there are `2^k` of them, and a
/// compressed point takes 32 bytes.
#[verifier::external_body]
fn pallas_bases(k: u32) -> (bases: Vec<Vec<u8>>)
    requires
        k <= MAX_LOG2_CAPACITY,
    ensures
        bases.deep_view() == pallas_generators(k as nat),
        bases.len() == two_to(k as nat),
        forall|i: int| 0 <= i < bases.len() ==> (#[trigger] bases[i]).len() == 32,
{
    Params::<EpAffine>::new(k).get_g().iter().map(|g| g.to_bytes().to_vec()).collect()
}

/// `Params::<EpAffine>::commit` on the polynomial with coefficients
/// `scalars` and the blinding factor `blind`, the point in its compressed
/// encoding.
///
/// The commitment is the sum of the generators scaled by the coefficients,
/// plus the blinding generator scaled by `blind`: a function of `k` and the
/// scalars alone. The scalars are handed over as integers below the order
/// of the field, which is how the field reads them without reducing; the
/// parameters ask for as many coefficients as generators.
#[verifier::external_body]
fn pallas_commit(k: u32, scalars: &Vec<FieldElement>, blind: &FieldElement) -> (point: Vec<u8>)
    requires
        k <= MAX_LOG2_CAPACITY,
        scalars.len() == two_to(k as nat),
        all_below(scalars.deep_view(), pallas_scalar_order()),
        blind.value() < pallas_scalar_order(),
    ensures
        point@ == pallas_commitment(k as nat, scalars.deep_view(), blind.value()),
        point.len() == 32,
{
    let coefficients: Vec<Fq> =
        scalars.iter().map(|s| Fq::from_raw([s.l0, s.l1, s.l2, s.l3])).collect();
    let polynomial = EvaluationDomain::<Fq>::new(1, k).coeff_from_vec(coefficients);
    let blind = Blind(Fq::from_raw([blind.l0, blind.l1, blind.l2, blind.l3]));
    Params::<EpAffine>::new(k).commit(&polynomial, blind).to_affine().to_bytes().to_vec()
}

/// The native Pedersen scheme of the PLONK backend.
///
/// An instance is set up with `2^k` generators and commits to values of up
/// to `2^k - 1` scalars.
pub struct PlonkPedersenCommitment {
    log2_capacity: u32,
    capacity: usize,
    bases: Vec<Vec<u8>>,
}

impl PlonkPedersenCommitment {
    #[verifier::type_invariant]
    spec fn well_formed(self) -> bool {
        &&& self.log2_capacity <= MAX_LOG2_CAPACITY
        &&& self.capacity == two_to(self.log2_capacity as nat)
        &&& self.bases.deep_view() == pallas_generators(self.log2_capacity as nat)
    }

    /// The capacity exponent that the instance was set up with.
    pub closed spec fn spec_log2_capacity(self) -> nat {
        self.log2_capacity as nat
    }

    /// Sets up an instance with `2^log2_capacity` generators, or none where
    /// the exponent is over [`MAX_LOG2_CAPACITY`].
    pub fn new(log2_capacity: u32) -> (scheme: Option<Self>)
        ensures
            scheme is Some <==> log2_capacity <= MAX_LOG2_CAPACITY,
            scheme matches Some(s) ==> s.spec_log2_capacity() == log2_capacity,
    {
        if log2_capacity > MAX_LOG2_CAPACITY {
            return None;
        }
        Some(Self::with_exponent(log2_capacity))
    }

    /// Sets up an instance with the capacity that the factory hands out.
    pub fn standard() -> (scheme: Self)
        ensures
            scheme.spec_log2_capacity() == DEFAULT_LOG2_CAPACITY,
    {
        Self::with_exponent(DEFAULT_LOG2_CAPACITY)
    }

    fn with_exponent(log2_capacity: u32) -> (scheme: Self)
        requires
            log2_capacity <= MAX_LOG2_CAPACITY,
        ensures
            scheme.spec_log2_capacity() == log2_capacity,
    {
        let capacity = capacity_of(log2_capacity);
        let bases = pallas_bases(log2_capacity);
        PlonkPedersenCommitment { log2_capacity, capacity, bases }
    }

    /// The capacity exponent that the instance was set up with.
    pub fn log2_capacity(&self) -> (k: u32)
        ensures
            k == self.spec_log2_capacity(),
            k <= MAX_LOG2_CAPACITY,
    {
        proof {
            use_type_invariant(self);
        }
        self.log2_capacity
    }
}

impl CommitmentScheme for PlonkPedersenCommitment {
    type Commitment = Vec<u8>;

    type CommittedValue = Vec<FieldElement>;

    type Randomness = FieldElement;

    open spec fn spec_commit(&self, value: Seq<nat>, randomness: nat) -> Option<Seq<u8>> {
        match committed_vector(value, randomness, self.spec_log2_capacity(), pallas_scalar_order()) {
            Some(scalars) => Some(pallas_commitment(self.spec_log2_capacity(), scalars, randomness)),
            None => None,
        }
    }

    fn commit(&self, value: &Vec<FieldElement>, randomness: &FieldElement) -> (r: Result<
        Vec<u8>,
        CommitmentError,
    >) {
        proof {
            use_type_invariant(self);
        }
        let order = scalar_order();
        if value.len() >= self.capacity || !check_all_below(value, &order) || !randomness.is_below(
            &order,
        ) {
            return Err(CommitmentError::EncodingError);
        }
        let scalars = pad_values(value, self.capacity);
        proof {
            lemma_two_to_max();
            lemma_two_to_monotonic(self.log2_capacity as nat, MAX_LOG2_CAPACITY as nat);
            lemma_padded_below(value.deep_view(), self.capacity as nat, pallas_scalar_order());
        }
        let point = pallas_commit(self.log2_capacity, &scalars, randomness);
        proof {
            lemma_bytes_deep_view(point);
        }
        Ok(point)
    }

    fn verify(&self, commitment: &Vec<u8>, value: &Vec<FieldElement>, randomness: &FieldElement) -> (ok:
        bool) {
        proof {
            lemma_bytes_deep_view(*commitment);
        }
        match self.commit(value, randomness) {
            Ok(point) => {
                proof {
                    lemma_bytes_deep_view(point);
                }
                bytes_equal(&point, commitment)
            },
            Err(_) => false,
        }
    }
}

impl PedersenCommitment for PlonkPedersenCommitment {
    type Generators = Vec<Vec<u8>>;

    open spec fn spec_generators(&self) -> Seq<Seq<u8>> {
        pallas_generators(self.spec_log2_capacity())
    }

    fn generators(&self) -> (g: Vec<Vec<u8>>) {
        proof {
            use_type_invariant(self);
        }
        copy_table(&self.bases)
    }
}

/// The gadget that constrains Pedersen commitments in a PLONK circuit.
pub struct PedersenCommitmentGadget;

impl PedersenCommitmentGadget {
    /// Constrains a commitment to the scalars in `values` under the scalar
    /// in `randomness`, and hands out its cell, the next of the builder.
    ///
    /// Fails with `SynthesisError`, and emits nothing, exactly where a cell
    /// named is not a cell of the builder or the builder has no room for
    /// another cell.
    pub fn commit(cs: &mut ConstraintBuilder, values: &[Variable], randomness: Variable) -> (r:
        Result<Variable, CommitmentError>)
        ensures
            final(cs).spec_capacity() == old(cs).spec_capacity(),
            r is Ok <==> can_constrain(
                old(cs)@,
                old(cs).spec_capacity(),
                indices(values@),
                randomness.index as int,
            ),
            r matches Ok(commitment) ==> commitment.index == old(cs)@.cells && final(cs)@
                == commitment_circuit(old(cs)@, indices(values@), randomness.index as int),
            r matches Err(e) ==> e == CommitmentError::SynthesisError && final(cs)@ == old(cs)@,
    {
        constrain_commitment_cells(cs, values, randomness)
    }

    /// Constrains the cell `commitment` to hold the commitment to the
    /// scalars in `values` under the scalar in `randomness`. Where it does
    /// not, the circuit rejects: that is no error.
    ///
    /// Fails with `SynthesisError`, and emits nothing, exactly where a cell
    /// named is not a cell of the builder or the builder has no room for
    /// another cell.
    pub fn verify(
        cs: &mut ConstraintBuilder,
        commitment: Variable,
        values: &[Variable],
        randomness: Variable,
    ) -> (r: Result<(), CommitmentError>)
        ensures
            final(cs).spec_capacity() == old(cs).spec_capacity(),
            r is Ok <==> commitment.index < old(cs)@.cells && can_constrain(
                old(cs)@,
                old(cs).spec_capacity(),
                indices(values@),
                randomness.index as int,
            ),
            r is Ok ==> final(cs)@ == verification_circuit(
                old(cs)@,
                commitment.index as int,
                indices(values@),
                randomness.index as int,
            ),
            r matches Err(e) ==> e == CommitmentError::SynthesisError && final(cs)@ == old(cs)@,
    {
        constrain_verification_cells(cs, commitment, values, randomness)
    }
}

impl CommitmentCircuit for PedersenCommitmentGadget {
    type CircuitCommitment = Variable;

    type CircuitValue = Vec<Variable>;

    type CircuitRandomness = Variable;

    open spec fn commitment_cell(commitment: &Variable) -> int {
        commitment.index as int
    }

    open spec fn value_cells(value: &Vec<Variable>) -> Seq<int> {
        indices(value@)
    }

    open spec fn randomness_cell(randomness: &Variable) -> int {
        randomness.index as int
    }

    /// The gadget lays out a value of any length.
    open spec fn takes(&self, members: nat) -> bool {
        true
    }

    fn constrain_commitment(
        &self,
        cs: &mut ConstraintBuilder,
        value: &Vec<Variable>,
        randomness: &Variable,
    ) -> (r: Result<Variable, CommitmentError>) {
        Self::commit(cs, value.as_slice(), *randomness)
    }

    fn constrain_verification(
        &self,
        cs: &mut ConstraintBuilder,
        commitment: &Variable,
        value: &Vec<Variable>,
        randomness: &Variable,
    ) -> (r: Result<(), CommitmentError>) {
        Self::verify(cs, *commitment, value.as_slice(), *randomness)
    }
}

} // verus!
