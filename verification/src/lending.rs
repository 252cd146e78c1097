//! The application-facing operations of the lending protocol: commitments
//! to loan terms and to collateral, nullifiers, and the statement that a
//! committed basket covers a loan.

use crate::error::CommitmentError;
use crate::field::FieldElement;
use crate::protocol::{
    amounts_of, ids_of, loan_words, nullifier_words, ProtocolCommitments, TAG_LOAN, TAG_NULLIFIER,
};
use crate::encoding::push_framed;
use crate::scheme::{commit_outcome, deep_result, spec_verify, CommitmentScheme};
use crate::valuation::{check_sufficiency, sufficiency, Amount, AssetId, Price};
use vstd::prelude::*;

verus! {

/// What opens a collateral commitment: the basket, the owner's secret and
/// the randomness it was made with. It stays with the owner.
pub struct CollateralOpening {
    pub assets: Vec<(AssetId, Amount)>,
    pub owner_secret: Vec<u8>,
    pub randomness: FieldElement,
}

/// What a sufficiency proof states in public: the commitment, the loan, the
/// ratio and the prices. The basket is not part of it.
pub struct SufficiencyStatement {
    pub commitment: Seq<u8>,
    pub loan_amount: u64,
    pub collateralization_ratio: u64,
    pub prices: Seq<(AssetId, Price)>,
}

/// The record that a committed basket, at the prices given, covers a loan
/// at a ratio. It names the commitment and never the basket.
pub struct CollateralProof {
    commitment: Vec<u8>,
    loan_amount: u64,
    collateralization_ratio: u64,
    prices: Vec<(AssetId, Price)>,
}

impl View for CollateralProof {
    type V = SufficiencyStatement;

    closed spec fn view(&self) -> SufficiencyStatement {
        SufficiencyStatement {
            commitment: self.commitment@,
            loan_amount: self.loan_amount,
            collateralization_ratio: self.collateralization_ratio,
            prices: self.prices@,
        }
    }
}

impl CollateralProof {
    /// The commitment that the proof is about.
    pub fn commitment(&self) -> (c: &Vec<u8>)
        ensures
            c@ == self@.commitment,
    {
        &self.commitment
    }

    /// The loan that the basket covers.
    pub fn loan_amount(&self) -> (amount: u64)
        ensures
            amount == self@.loan_amount,
    {
        self.loan_amount
    }

    /// The ratio, in hundredths, at which the basket covers the loan.
    pub fn collateralization_ratio(&self) -> (ratio: u64)
        ensures
            ratio == self@.collateralization_ratio,
    {
        self.collateralization_ratio
    }

    /// The prices at which the basket was valued.
    pub fn prices(&self) -> (p: &Vec<(AssetId, Price)>)
        ensures
            p@ == self@.prices,
    {
        &self.prices
    }
}

/// The outcome of a proof construction, with the proof as its statement.
pub open spec fn proof_outcome(r: Result<CollateralProof, CommitmentError>) -> Result<
    SufficiencyStatement,
    CommitmentError,
> {
    match r {
        Ok(p) => Ok(p@),
        Err(e) => Err(e),
    }
}

/// What a proof construction owes. `expected` is the commitment that the
/// opening gives. An opening that does not open `commitment` makes the
/// constraints unsatisfiable; then an asset without a price, then a basket
/// worth too little, each fails in its own way; else the statement stands.
pub open spec fn sufficiency_proof(
    expected: Option<Seq<u8>>,
    commitment: Seq<u8>,
    assets: Seq<(AssetId, Amount)>,
    loan_amount: u64,
    collateralization_ratio: u64,
    prices: Seq<(AssetId, Price)>,
) -> Result<SufficiencyStatement, CommitmentError> {
    if !spec_verify(expected, commitment) {
        Err(CommitmentError::ConstraintUnsatisfiable)
    } else {
        match sufficiency(assets, loan_amount, collateralization_ratio, prices) {
            Err(e) => Err(e),
            Ok(_) => Ok(
                SufficiencyStatement { commitment, loan_amount, collateralization_ratio, prices },
            ),
        }
    }
}

/// Commitments to loan terms, and the nullifiers of loan positions.
pub trait LoanCommitment {
    /// The commitment to the loan terms over a collateral commitment, or
    /// `None` where it cannot be made.
    spec fn spec_loan_commitment(
        &self,
        loan_amount: u64,
        interest_rate: u64,
        collateral_commitment: Seq<u8>,
        randomness: nat,
    ) -> Option<Seq<u8>>;

    /// The nullifier of a loan position, or `None` where it cannot be made.
    /// It depends on the loan commitment and the borrower's secret alone.
    spec fn spec_nullifier(&self, loan_commitment: Seq<u8>, borrower_secret: Seq<u8>) -> Option<
        Seq<u8>,
    >;

    /// Commits to loan terms, bound to the collateral commitment given.
    fn commit_loan_details(
        &self,
        loan_amount: u64,
        interest_rate: u64,
        collateral_commitment: &[u8],
        randomness: &FieldElement,
    ) -> (r: Result<Vec<u8>, CommitmentError>)
        ensures
            commit_outcome(
                self.spec_loan_commitment(
                    loan_amount,
                    interest_rate,
                    collateral_commitment@,
                    randomness.value(),
                ),
                deep_result::<Vec<u8>>(r),
            ),
    ;

    /// Derives the nullifier of the loan position.
    fn create_loan_nullifier(&self, loan_commitment: &[u8], borrower_secret: &[u8]) -> (r: Result<
        Vec<u8>,
        CommitmentError,
    >)
        ensures
            commit_outcome(
                self.spec_nullifier(loan_commitment@, borrower_secret@),
                deep_result::<Vec<u8>>(r),
            ),
    ;
}

/// Commitments to collateral, and proofs that it covers a loan.
pub trait CollateralCommitment {
    /// The commitment to a basket and its owner's secret, or `None` where
    /// it cannot be made.
    spec fn spec_collateral_commitment(
        &self,
        assets: Seq<(AssetId, Amount)>,
        owner_secret: Seq<u8>,
        randomness: nat,
    ) -> Option<Seq<u8>>;

    /// Commits to a basket and its owner's secret under `randomness`.
    fn commit_collateral(
        &self,
        assets: &[(AssetId, Amount)],
        owner_secret: &[u8],
        randomness: &FieldElement,
    ) -> (r: Result<Vec<u8>, CommitmentError>)
        ensures
            commit_outcome(
                self.spec_collateral_commitment(assets@, owner_secret@, randomness.value()),
                deep_result::<Vec<u8>>(r),
            ),
    ;

    /// Establishes that the basket behind `collateral_commitment` covers the
    /// loan at the ratio, at the prices given.
    fn prove_sufficient_collateral(
        &self,
        collateral_commitment: &[u8],
        loan_amount: u64,
        collateralization_ratio: u64,
        oracle_prices: &[(AssetId, Price)],
        opening: &CollateralOpening,
    ) -> (r: Result<CollateralProof, CommitmentError>)
        ensures
            proof_outcome(r) == sufficiency_proof(
                self.spec_collateral_commitment(
                    opening.assets@,
                    opening.owner_secret@,
                    opening.randomness.value(),
                ),
                collateral_commitment@,
                opening.assets@,
                loan_amount,
                collateralization_ratio,
                oracle_prices@,
            ),
    ;
}

/// A copy of a slice.
pub fn copy_slice<T: Copy>(source: &[T]) -> (copy: Vec<T>)
    ensures
        copy@ == source@,
{
    let mut copy: Vec<T> = Vec::new();
    let mut i: usize = 0;
    while i < source.len()
        invariant
            i <= source.len(),
            copy@ == source@.take(i as int),
        decreases source.len() - i,
    {
        copy.push(source[i]);
        proof {
            assert(source@.take(i + 1) =~= source@.take(i as int).push(source@[i as int]));
        }
        i = i + 1;
    }
    proof {
        assert(source@.take(source@.len() as int) =~= source@);
    }
    copy
}

/// The asset identifiers and the amounts of a basket, each in order.
pub fn split_basket(assets: &[(AssetId, Amount)]) -> (lists: (Vec<AssetId>, Vec<Amount>))
    ensures
        lists.0@ == ids_of(assets@),
        lists.1@ == amounts_of(assets@),
{
    let mut ids: Vec<AssetId> = Vec::new();
    let mut amounts: Vec<Amount> = Vec::new();
    let mut i: usize = 0;
    while i < assets.len()
        invariant
            i <= assets.len(),
            ids@ == ids_of(assets@).take(i as int),
            amounts@ == amounts_of(assets@).take(i as int),
        decreases assets.len() - i,
    {
        let holding = assets[i];
        ids.push(holding.0);
        amounts.push(holding.1);
        proof {
            assert(ids_of(assets@).take(i + 1) =~= ids_of(assets@).take(i as int).push(holding.0));
            assert(amounts_of(assets@).take(i + 1) =~= amounts_of(assets@).take(i as int).push(
                holding.1,
            ));
        }
        i = i + 1;
    }
    proof {
        assert(ids_of(assets@).take(assets@.len() as int) =~= ids_of(assets@));
        assert(amounts_of(assets@).take(assets@.len() as int) =~= amounts_of(assets@));
    }
    (ids, amounts)
}

impl<
    C: CommitmentScheme<
        Commitment = Vec<u8>,
        CommittedValue = Vec<FieldElement>,
        Randomness = FieldElement,
    >,
> LoanCommitment for ProtocolCommitments<C> {
    open spec fn spec_loan_commitment(
        &self,
        loan_amount: u64,
        interest_rate: u64,
        collateral_commitment: Seq<u8>,
        randomness: nat,
    ) -> Option<Seq<u8>> {
        self.spec_scheme().spec_commit(
            loan_words(loan_amount, interest_rate, collateral_commitment),
            randomness,
        )
    }

    /// The commitment, under the randomness zero, to the loan commitment
    /// and the borrower's secret.
    open spec fn spec_nullifier(&self, loan_commitment: Seq<u8>, borrower_secret: Seq<u8>) -> Option<
        Seq<u8>,
    > {
        self.spec_scheme().spec_commit(nullifier_words(loan_commitment, borrower_secret), 0)
    }

    fn commit_loan_details(
        &self,
        loan_amount: u64,
        interest_rate: u64,
        collateral_commitment: &[u8],
        randomness: &FieldElement,
    ) -> (r: Result<Vec<u8>, CommitmentError>) {
        let mut value: Vec<FieldElement> = Vec::new();
        value.push(FieldElement::from_u64(TAG_LOAN));
        value.push(FieldElement::from_u64(loan_amount));
        value.push(FieldElement::from_u64(interest_rate));
        proof {
            assert(value.deep_view() =~= seq![
                TAG_LOAN as nat,
                loan_amount as nat,
                interest_rate as nat,
            ]);
        }
        push_framed(&mut value, collateral_commitment);
        self.scheme().commit(&value, randomness)
    }

    fn create_loan_nullifier(&self, loan_commitment: &[u8], borrower_secret: &[u8]) -> (r: Result<
        Vec<u8>,
        CommitmentError,
    >) {
        let mut value: Vec<FieldElement> = Vec::new();
        value.push(FieldElement::from_u64(TAG_NULLIFIER));
        proof {
            assert(value.deep_view() =~= seq![TAG_NULLIFIER as nat]);
        }
        push_framed(&mut value, loan_commitment);
        push_framed(&mut value, borrower_secret);
        let unblinded = FieldElement::zero();
        self.scheme().commit(&value, &unblinded)
    }
}

impl<
    C: CommitmentScheme<
        Commitment = Vec<u8>,
        CommittedValue = Vec<FieldElement>,
        Randomness = FieldElement,
    >,
> CollateralCommitment for ProtocolCommitments<C> {
    open spec fn spec_collateral_commitment(
        &self,
        assets: Seq<(AssetId, Amount)>,
        owner_secret: Seq<u8>,
        randomness: nat,
    ) -> Option<Seq<u8>> {
        self.spec_collateral(ids_of(assets), amounts_of(assets), owner_secret, randomness)
    }

    fn commit_collateral(
        &self,
        assets: &[(AssetId, Amount)],
        owner_secret: &[u8],
        randomness: &FieldElement,
    ) -> (r: Result<Vec<u8>, CommitmentError>) {
        let (ids, amounts) = split_basket(assets);
        ProtocolCommitments::commit_collateral(
            self,
            ids.as_slice(),
            amounts.as_slice(),
            owner_secret,
            randomness,
        )
    }

    fn prove_sufficient_collateral(
        &self,
        collateral_commitment: &[u8],
        loan_amount: u64,
        collateralization_ratio: u64,
        oracle_prices: &[(AssetId, Price)],
        opening: &CollateralOpening,
    ) -> (r: Result<CollateralProof, CommitmentError>) {
        let commitment = copy_slice(collateral_commitment);
        let (ids, amounts) = split_basket(opening.assets.as_slice());
        proof {
            crate::pedersen::lemma_bytes_deep_view(commitment);
        }
        let opens = self.verify_collateral_commitment(
            &commitment,
            ids.as_slice(),
            amounts.as_slice(),
            opening.owner_secret.as_slice(),
            &opening.randomness,
        );
        if !opens {
            return Err(CommitmentError::ConstraintUnsatisfiable);
        }
        match check_sufficiency(
            opening.assets.as_slice(),
            loan_amount,
            collateralization_ratio,
            oracle_prices,
        ) {
            Err(e) => Err(e),
            Ok(_) => {
                let prices = copy_slice(oracle_prices);
                Ok(CollateralProof { commitment, loan_amount, collateralization_ratio, prices })
            },
        }
    }
}

/// Stability: two runs of `commit_collateral` on the same basket, in the
/// same order, with the same secret and randomness, end alike.
pub proof fn lemma_collateral_commitment_stable<P: CollateralCommitment>(
    protocol: P,
    assets: Seq<(AssetId, Amount)>,
    owner_secret: Seq<u8>,
    randomness: nat,
    first: Result<Seq<u8>, CommitmentError>,
    second: Result<Seq<u8>, CommitmentError>,
)
    requires
        commit_outcome(protocol.spec_collateral_commitment(assets, owner_secret, randomness), first),
        commit_outcome(
            protocol.spec_collateral_commitment(assets, owner_secret, randomness),
            second,
        ),
    ensures
        first == second,
{
}

/// Determinism: two derivations of the nullifier of one loan commitment
/// with one borrower's secret end alike.
pub proof fn lemma_nullifier_deterministic<P: LoanCommitment>(
    protocol: P,
    loan_commitment: Seq<u8>,
    borrower_secret: Seq<u8>,
    first: Result<Seq<u8>, CommitmentError>,
    second: Result<Seq<u8>, CommitmentError>,
)
    requires
        commit_outcome(protocol.spec_nullifier(loan_commitment, borrower_secret), first),
        commit_outcome(protocol.spec_nullifier(loan_commitment, borrower_secret), second),
    ensures
        first == second,
{
}

} // verus!
