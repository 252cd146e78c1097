//! The protocol layer: commitments to collateral and to loan terms,
//! nullifiers, and the sufficiency statement, over any scheme that commits
//! to vectors of field elements.
//!
//! Two choices are fixed here. The order of a basket is part of what is
//! committed to: the same holdings in another order give another value.
//! And randomness is the caller's: nothing in this layer draws any.

use crate::encoding::{framed, lemma_framed_injective, push_framed};
use crate::error::CommitmentError;
use crate::field::FieldElement;
use crate::scheme::{commit_outcome, deep_result, spec_verify, CommitmentScheme};
use crate::valuation::{Amount, AssetId};
use vstd::prelude::*;

verus! {

/// The first word of an encoded basket.
pub const TAG_COLLATERAL: u64 = 1;

/// The first word of encoded loan terms.
pub const TAG_LOAN: u64 = 2;

/// The first word of what a nullifier is derived from.
pub const TAG_NULLIFIER: u64 = 3;

/// Asset identifiers and amounts in turn, in the order of the basket.
pub open spec fn interleaved(asset_types: Seq<AssetId>, amounts: Seq<Amount>) -> Seq<nat> {
    Seq::new(
        2 * asset_types.len(),
        |i: int|
            if i % 2 == 0 {
                asset_types[i / 2] as nat
            } else {
                amounts[i / 2] as nat
            },
    )
}

/// The words that stand for a basket and its owner's secret: the tag, the
/// number of holdings, the holdings, the secret framed.
pub open spec fn collateral_words(
    asset_types: Seq<AssetId>,
    amounts: Seq<Amount>,
    owner_secret: Seq<u8>,
) -> Seq<nat> {
    seq![TAG_COLLATERAL as nat, asset_types.len() as nat] + interleaved(asset_types, amounts)
        + framed(owner_secret)
}

/// The words that stand for loan terms bound to a collateral commitment.
pub open spec fn loan_words(loan_amount: u64, interest_rate: u64, collateral_commitment: Seq<u8>) -> Seq<
    nat,
> {
    seq![TAG_LOAN as nat, loan_amount as nat, interest_rate as nat] + framed(collateral_commitment)
}

/// The words that a nullifier is derived from.
pub open spec fn nullifier_words(loan_commitment: Seq<u8>, borrower_secret: Seq<u8>) -> Seq<nat> {
    seq![TAG_NULLIFIER as nat] + framed(loan_commitment) + framed(borrower_secret)
}

/// The asset identifiers of a basket, in order.
pub open spec fn ids_of(assets: Seq<(AssetId, Amount)>) -> Seq<AssetId> {
    Seq::new(assets.len(), |i: int| assets[i].0)
}

/// The amounts of a basket, in order.
pub open spec fn amounts_of(assets: Seq<(AssetId, Amount)>) -> Seq<Amount> {
    Seq::new(assets.len(), |i: int| assets[i].1)
}

/// Baskets with the same encoding are the same basket with the same secret:
/// in particular a basket in another order is encoded otherwise.
pub proof fn lemma_collateral_words_injective(
    types_a: Seq<AssetId>,
    amounts_a: Seq<Amount>,
    secret_a: Seq<u8>,
    types_b: Seq<AssetId>,
    amounts_b: Seq<Amount>,
    secret_b: Seq<u8>,
)
    requires
        types_a.len() == amounts_a.len(),
        types_b.len() == amounts_b.len(),
        collateral_words(types_a, amounts_a, secret_a) == collateral_words(
            types_b,
            amounts_b,
            secret_b,
        ),
    ensures
        types_a == types_b,
        amounts_a == amounts_b,
        secret_a == secret_b,
{
    let wa = collateral_words(types_a, amounts_a, secret_a);
    let wb = collateral_words(types_b, amounts_b, secret_b);
    let n = types_a.len() as int;
    assert(wa[1] == types_a.len());
    assert(wb[1] == types_b.len());
    assert forall|i: int| 0 <= i < n implies types_a[i] == types_b[i] && amounts_a[i]
        == amounts_b[i] by {
        assert(wa[2 + 2 * i] == interleaved(types_a, amounts_a)[2 * i]);
        assert(wb[2 + 2 * i] == interleaved(types_b, amounts_b)[2 * i]);
        assert(wa[2 + 2 * i + 1] == interleaved(types_a, amounts_a)[2 * i + 1]);
        assert(wb[2 + 2 * i + 1] == interleaved(types_b, amounts_b)[2 * i + 1]);
        assert((2 * i) / 2 == i && (2 * i) % 2 == 0);
        assert((2 * i + 1) / 2 == i && (2 * i + 1) % 2 == 1);
    }
    assert(types_a =~= types_b);
    assert(amounts_a =~= amounts_b);
    assert(framed(secret_a) =~= wa.subrange(2 + 2 * n, wa.len() as int));
    assert(framed(secret_b) =~= wb.subrange(2 + 2 * n, wb.len() as int));
    lemma_framed_injective(secret_a, secret_b);
}

/// Loan terms with the same encoding are the same terms over the same
/// collateral commitment.
pub proof fn lemma_loan_words_injective(
    loan_a: u64,
    rate_a: u64,
    collateral_a: Seq<u8>,
    loan_b: u64,
    rate_b: u64,
    collateral_b: Seq<u8>,
)
    requires
        loan_words(loan_a, rate_a, collateral_a) == loan_words(loan_b, rate_b, collateral_b),
    ensures
        loan_a == loan_b,
        rate_a == rate_b,
        collateral_a == collateral_b,
{
    let wa = loan_words(loan_a, rate_a, collateral_a);
    let wb = loan_words(loan_b, rate_b, collateral_b);
    assert(wa[1] == loan_a && wa[2] == rate_a);
    assert(wb[1] == loan_b && wb[2] == rate_b);
    assert(framed(collateral_a) =~= wa.subrange(3, wa.len() as int));
    assert(framed(collateral_b) =~= wb.subrange(3, wb.len() as int));
    lemma_framed_injective(collateral_a, collateral_b);
}

/// Nullifiers are derived from different words wherever the loan commitment
/// or the borrower's secret differs.
pub proof fn lemma_nullifier_words_injective(
    loan_a: Seq<u8>,
    secret_a: Seq<u8>,
    loan_b: Seq<u8>,
    secret_b: Seq<u8>,
)
    requires
        nullifier_words(loan_a, secret_a) == nullifier_words(loan_b, secret_b),
    ensures
        loan_a == loan_b,
        secret_a == secret_b,
{
    let wa = nullifier_words(loan_a, secret_a);
    let wb = nullifier_words(loan_b, secret_b);
    let fa = framed(loan_a);
    let fb = framed(loan_b);
    assert(wa[1] == fa[0] && fa[0] == loan_a.len());
    assert(wb[1] == fb[0] && fb[0] == loan_b.len());
    assert(fa.len() == fb.len());
    assert(fa =~= wa.subrange(1, 1 + fa.len() as int));
    assert(fb =~= wb.subrange(1, 1 + fb.len() as int));
    lemma_framed_injective(loan_a, loan_b);
    assert(framed(secret_a) =~= wa.subrange(1 + fa.len() as int, wa.len() as int));
    assert(framed(secret_b) =~= wb.subrange(1 + fb.len() as int, wb.len() as int));
    lemma_framed_injective(secret_a, secret_b);
}

/// The protocol's operations over the commitment scheme `C`.
pub struct ProtocolCommitments<C> {
    scheme: C,
}

impl<
    C: CommitmentScheme<
        Commitment = Vec<u8>,
        CommittedValue = Vec<FieldElement>,
        Randomness = FieldElement,
    >,
> ProtocolCommitments<C> {
    /// The protocol over `scheme`.
    pub fn new(scheme: C) -> (protocol: Self)
        ensures
            protocol.spec_scheme() == scheme,
    {
        ProtocolCommitments { scheme }
    }

    /// The scheme that the protocol commits with.
    pub closed spec fn spec_scheme(self) -> C {
        self.scheme
    }

    /// The scheme that the protocol commits with.
    pub fn scheme(&self) -> (scheme: &C)
        ensures
            *scheme == self.spec_scheme(),
    {
        &self.scheme
    }

    /// The commitment to a basket, or `None` where the lists differ in
    /// length or the scheme cannot represent the encoding.
    pub open spec fn spec_collateral(
        self,
        asset_types: Seq<AssetId>,
        amounts: Seq<Amount>,
        owner_secret: Seq<u8>,
        randomness: nat,
    ) -> Option<Seq<u8>> {
        if asset_types.len() == amounts.len() {
            self.spec_scheme().spec_commit(
                collateral_words(asset_types, amounts, owner_secret),
                randomness,
            )
        } else {
            None
        }
    }

    /// Encodes a basket and its owner's secret as the scheme's value.
    ///
    /// Fails with `EncodingError` exactly where the two lists differ in
    /// length.
    pub fn encode_collateral(asset_types: &[AssetId], amounts: &[Amount], owner_secret: &[u8]) -> (r:
        Result<Vec<FieldElement>, CommitmentError>)
        ensures
            r is Ok <==> asset_types@.len() == amounts@.len(),
            r matches Ok(value) ==> value.deep_view() == collateral_words(
                asset_types@,
                amounts@,
                owner_secret@,
            ),
            r matches Err(e) ==> e == CommitmentError::EncodingError,
    {
        if asset_types.len() != amounts.len() {
            return Err(CommitmentError::EncodingError);
        }
        let mut value: Vec<FieldElement> = Vec::new();
        value.push(FieldElement::from_u64(TAG_COLLATERAL));
        value.push(FieldElement::from_u64(asset_types.len() as u64));
        let ghost head = seq![TAG_COLLATERAL as nat, asset_types@.len() as nat];
        let ghost pairs = interleaved(asset_types@, amounts@);
        proof {
            assert(value.deep_view() =~= head + pairs.take(0));
        }
        let mut i: usize = 0;
        while i < asset_types.len()
            invariant
                i <= asset_types.len(),
                asset_types.len() == amounts.len(),
                pairs == interleaved(asset_types@, amounts@),
                head == seq![TAG_COLLATERAL as nat, asset_types@.len() as nat],
                value.deep_view() == head + pairs.take(2 * i),
            decreases asset_types.len() - i,
        {
            let ghost prior = value.deep_view();
            value.push(FieldElement::from_u64(asset_types[i]));
            value.push(FieldElement::from_u64(amounts[i]));
            proof {
                assert((2 * i) / 2 == i && (2 * i) % 2 == 0);
                assert((2 * i + 1) / 2 == i && (2 * i + 1) % 2 == 1);
                assert(pairs[2 * i] == asset_types@[i as int]);
                assert(pairs[2 * i + 1] == amounts@[i as int]);
                assert(value.deep_view() =~= prior.push(asset_types@[i as int] as nat).push(
                    amounts@[i as int] as nat,
                ));
                assert(pairs.take(2 * (i + 1)) =~= pairs.take(2 * i).push(pairs[2 * i]).push(
                    pairs[2 * i + 1],
                ));
                assert(value.deep_view() =~= head + pairs.take(2 * (i + 1)));
            }
            i = i + 1;
        }
        proof {
            assert(pairs.take(2 * i) =~= pairs);
        }
        push_framed(&mut value, owner_secret);
        Ok(value)
    }

    /// Commits to a basket and its owner's secret under `randomness`.
    ///
    /// Fails with `EncodingError` where the lists differ in length or the
    /// scheme cannot represent the encoding or the randomness.
    pub fn commit_collateral(
        &self,
        asset_types: &[AssetId],
        amounts: &[Amount],
        owner_secret: &[u8],
        randomness: &FieldElement,
    ) -> (r: Result<Vec<u8>, CommitmentError>)
        ensures
            commit_outcome(
                self.spec_collateral(
                    asset_types@,
                    amounts@,
                    owner_secret@,
                    randomness.value(),
                ),
                deep_result::<Vec<u8>>(r),
            ),
    {
        match Self::encode_collateral(asset_types, amounts, owner_secret) {
            Ok(value) => self.scheme.commit(&value, randomness),
            Err(e) => Err(e),
        }
    }

    /// Whether `commitment` is the commitment to the basket and the secret
    /// under `randomness`.
    pub fn verify_collateral_commitment(
        &self,
        commitment: &Vec<u8>,
        asset_types: &[AssetId],
        amounts: &[Amount],
        owner_secret: &[u8],
        randomness: &FieldElement,
    ) -> (ok: bool)
        ensures
            ok == spec_verify(
                self.spec_collateral(
                    asset_types@,
                    amounts@,
                    owner_secret@,
                    randomness.value(),
                ),
                commitment.deep_view(),
            ),
    {
        match Self::encode_collateral(asset_types, amounts, owner_secret) {
            Ok(value) => self.scheme.verify(commitment, &value, randomness),
            Err(_) => false,
        }
    }
}

/// Stability: two runs of `commit_collateral` on the same lists, in the
/// same order, with the same secret and randomness, end alike.
pub proof fn lemma_commit_collateral_stable<C>(
    protocol: ProtocolCommitments<C>,
    asset_types: Seq<AssetId>,
    amounts: Seq<Amount>,
    owner_secret: Seq<u8>,
    randomness: nat,
    first: Result<Seq<u8>, CommitmentError>,
    second: Result<Seq<u8>, CommitmentError>,
) where
    C: CommitmentScheme<
        Commitment = Vec<u8>,
        CommittedValue = Vec<FieldElement>,
        Randomness = FieldElement,
    >,

    requires
        commit_outcome(
            protocol.spec_collateral(asset_types, amounts, owner_secret, randomness),
            first,
        ),
        commit_outcome(
            protocol.spec_collateral(asset_types, amounts, owner_secret, randomness),
            second,
        ),
    ensures
        first == second,
{
}

/// A commitment that `commit_collateral` returned is accepted by
/// `verify_collateral_commitment` for the same lists, secret and
/// randomness.
pub proof fn lemma_commit_collateral_then_verify<C>(
    protocol: ProtocolCommitments<C>,
    asset_types: Seq<AssetId>,
    amounts: Seq<Amount>,
    owner_secret: Seq<u8>,
    randomness: nat,
    committed: Seq<u8>,
) where
    C: CommitmentScheme<
        Commitment = Vec<u8>,
        CommittedValue = Vec<FieldElement>,
        Randomness = FieldElement,
    >,

    requires
        commit_outcome(
            protocol.spec_collateral(asset_types, amounts, owner_secret, randomness),
            Ok(committed),
        ),
    ensures
        spec_verify(
            protocol.spec_collateral(asset_types, amounts, owner_secret, randomness),
            committed,
        ),
{
}

} // verus!
