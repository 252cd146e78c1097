//! The interface of a commitment scheme in its native form.

use crate::error::CommitmentError;
use vstd::prelude::*;

verus! {

/// A commitment scheme: a deterministic `commit` and the `verify` that
/// recomputes it.
///
/// The three associated types are the scheme's own; contracts speak of them
/// through their deep views. A commitment's deep view is its canonical
/// encoding as bytes.
pub trait CommitmentScheme {
    /// The public output of `commit`.
    type Commitment: DeepView<V = Seq<u8>>;

    /// The value that a commitment hides.
    type CommittedValue: DeepView;

    /// The blinding value of one commitment.
    type Randomness: DeepView;

    /// The commitment to `value` under `randomness`, or `None` where the
    /// scheme cannot represent one of them.
    spec fn spec_commit(
        &self,
        value: <Self::CommittedValue as DeepView>::V,
        randomness: <Self::Randomness as DeepView>::V,
    ) -> Option<Seq<u8>>;

    /// Commits to `value` under `randomness`.
    ///
    /// Fails with `EncodingError`, and only with it, exactly where the
    /// scheme cannot represent the value or the randomness.
    fn commit(&self, value: &Self::CommittedValue, randomness: &Self::Randomness) -> (r: Result<
        Self::Commitment,
        CommitmentError,
    >)
        ensures
            commit_outcome(
                self.spec_commit(value.deep_view(), randomness.deep_view()),
                deep_result::<Self::Commitment>(r),
            ),
    ;

    /// Whether `commitment` is the commitment to `value` under `randomness`.
    fn verify(
        &self,
        commitment: &Self::Commitment,
        value: &Self::CommittedValue,
        randomness: &Self::Randomness,
    ) -> (ok: bool)
        ensures
            ok == spec_verify(
                self.spec_commit(value.deep_view(), randomness.deep_view()),
                commitment.deep_view(),
            ),
    ;
}

/// A commitment scheme that is computed from a fixed, public set of
/// generators.
pub trait PedersenCommitment: CommitmentScheme {
    /// The generators as the scheme hands them out.
    type Generators: DeepView<V = Seq<Seq<u8>>>;

    /// The encodings of the generators of this instance. They depend on the
    /// instance alone, never on a value or a randomness.
    spec fn spec_generators(&self) -> Seq<Seq<u8>>;

    /// The generators of this instance.
    fn generators(&self) -> (g: Self::Generators)
        ensures
            g.deep_view() == self.spec_generators(),
    ;
}

/// The outcome of a `commit`, with the commitment as its bytes.
pub open spec fn deep_result<C: DeepView<V = Seq<u8>>>(r: Result<C, CommitmentError>) -> Result<
    Seq<u8>,
    CommitmentError,
> {
    match r {
        Ok(c) => Ok(c.deep_view()),
        Err(e) => Err(e),
    }
}

/// What `commit` owes: the commitment where there is one, `EncodingError`
/// where there is none.
pub open spec fn commit_outcome(expected: Option<Seq<u8>>, r: Result<Seq<u8>, CommitmentError>) -> bool {
    match expected {
        Some(c) => r == Ok::<Seq<u8>, CommitmentError>(c),
        None => r == Err::<Seq<u8>, CommitmentError>(CommitmentError::EncodingError),
    }
}

/// What `verify` answers: whether the bytes are those of the recomputed
/// commitment.
pub open spec fn spec_verify(expected: Option<Seq<u8>>, commitment: Seq<u8>) -> bool {
    expected == Some(commitment)
}

/// Correctness: a commitment that `commit` returned for a value and a
/// randomness is accepted by `verify` for the same value and randomness.
pub proof fn lemma_commit_then_verify<S: CommitmentScheme>(
    scheme: S,
    value: <S::CommittedValue as DeepView>::V,
    randomness: <S::Randomness as DeepView>::V,
    committed: Seq<u8>,
)
    requires
        commit_outcome(scheme.spec_commit(value, randomness), Ok(committed)),
    ensures
        spec_verify(scheme.spec_commit(value, randomness), committed),
{
}

/// Determinism: two runs of `commit` on the same value and randomness end
/// alike, and where they succeed they return the same bytes.
pub proof fn lemma_commit_deterministic<S: CommitmentScheme>(
    scheme: S,
    value: <S::CommittedValue as DeepView>::V,
    randomness: <S::Randomness as DeepView>::V,
    first: Result<Seq<u8>, CommitmentError>,
    second: Result<Seq<u8>, CommitmentError>,
)
    requires
        commit_outcome(scheme.spec_commit(value, randomness), first),
        commit_outcome(scheme.spec_commit(value, randomness), second),
    ensures
        first == second,
{
}

/// `verify` accepts at most one commitment for a value and a randomness.
pub proof fn lemma_verify_accepts_one<S: CommitmentScheme>(
    scheme: S,
    value: <S::CommittedValue as DeepView>::V,
    randomness: <S::Randomness as DeepView>::V,
    a: Seq<u8>,
    b: Seq<u8>,
)
    requires
        spec_verify(scheme.spec_commit(value, randomness), a),
        spec_verify(scheme.spec_commit(value, randomness), b),
    ensures
        a == b,
{
}

} // verus!
