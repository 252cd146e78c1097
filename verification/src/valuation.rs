//! The worth of a basket of collateral at oracle prices, and the test of
//! that worth against a loan.

use crate::error::CommitmentError;
use vstd::prelude::*;

verus! {

/// Names an asset.
pub type AssetId = u64;

/// A quantity of an asset.
pub type Amount = u64;

/// The price of one unit of an asset, as an oracle reports it.
pub type Price = u64;

/// The price listed for `asset`: that of the first entry that names it.
pub open spec fn price_of(prices: Seq<(AssetId, Price)>, asset: AssetId) -> Option<Price>
    decreases prices.len(),
{
    if prices.len() == 0 {
        None
    } else if prices[0].0 == asset {
        Some(prices[0].1)
    } else {
        price_of(prices.drop_first(), asset)
    }
}

/// Every asset of the basket has a price.
pub open spec fn all_priced(assets: Seq<(AssetId, Amount)>, prices: Seq<(AssetId, Price)>) -> bool {
    forall|i: int| 0 <= i < assets.len() ==> price_of(prices, (#[trigger] assets[i]).0) is Some
}

/// The worth of one holding: its amount times its price, nothing where the
/// asset has no price.
pub open spec fn holding_value(holding: (AssetId, Amount), prices: Seq<(AssetId, Price)>) -> nat {
    match price_of(prices, holding.0) {
        Some(price) => (holding.1 as nat) * (price as nat),
        None => 0,
    }
}

/// The worth of the basket: the sum of the worth of its holdings.
pub open spec fn basket_value(assets: Seq<(AssetId, Amount)>, prices: Seq<(AssetId, Price)>) -> nat
    decreases assets.len(),
{
    if assets.len() == 0 {
        0
    } else {
        basket_value(assets.drop_last(), prices) + holding_value(assets.last(), prices)
    }
}

/// Whether collateral worth `value` covers the loan at the ratio, which is
/// given in hundredths: 150 asks for one and a half times the loan.
pub open spec fn covers_loan(value: nat, loan_amount: u64, collateralization_ratio: u64) -> bool {
    100 * value >= (collateralization_ratio as nat) * (loan_amount as nat)
}

/// What the sufficiency test answers for a basket, a loan and prices.
pub open spec fn sufficiency(
    assets: Seq<(AssetId, Amount)>,
    loan_amount: u64,
    collateralization_ratio: u64,
    prices: Seq<(AssetId, Price)>,
) -> Result<(), CommitmentError> {
    if !all_priced(assets, prices) {
        Err(CommitmentError::MissingOraclePrice)
    } else if !covers_loan(basket_value(assets, prices), loan_amount, collateralization_ratio) {
        Err(CommitmentError::InsufficientCollateral)
    } else {
        Ok(())
    }
}

/// Looks up the price of `asset`.
pub fn find_price(prices: &[(AssetId, Price)], asset: AssetId) -> (price: Option<Price>)
    ensures
        price == price_of(prices@, asset),
{
    let mut i: usize = 0;
    proof {
        assert(prices@.subrange(0, prices@.len() as int) =~= prices@);
    }
    while i < prices.len()
        invariant
            i <= prices.len(),
            price_of(prices@, asset) == price_of(prices@.subrange(i as int, prices@.len() as int), asset),
        decreases prices.len() - i,
    {
        let entry = prices[i];
        proof {
            let rest = prices@.subrange(i as int, prices@.len() as int);
            assert(rest[0] == prices@[i as int]);
            assert(rest.drop_first() =~= prices@.subrange(i + 1, prices@.len() as int));
        }
        if entry.0 == asset {
            return Some(entry.1);
        }
        i = i + 1;
    }
    None
}

/// The worth of the basket, held at `u128::MAX` where it is larger, or
/// nothing where an asset has no price.
pub fn value_basket(assets: &[(AssetId, Amount)], prices: &[(AssetId, Price)]) -> (value: Option<
    u128,
>)
    ensures
        value is Some <==> all_priced(assets@, prices@),
        value matches Some(v) ==> v == if basket_value(assets@, prices@) <= u128::MAX {
            basket_value(assets@, prices@)
        } else {
            u128::MAX as nat
        },
{
    let mut total: u128 = 0;
    let mut i: usize = 0;
    proof {
        assert(assets@.take(0) =~= Seq::<(AssetId, Amount)>::empty());
    }
    while i < assets.len()
        invariant
            i <= assets.len(),
            all_priced(assets@.take(i as int), prices@),
            total == if basket_value(assets@.take(i as int), prices@) <= u128::MAX {
                basket_value(assets@.take(i as int), prices@)
            } else {
                u128::MAX as nat
            },
        decreases assets.len() - i,
    {
        let holding = assets[i];
        let ghost seen = assets@.take(i as int);
        let ghost next = assets@.take(i + 1);
        proof {
            assert(next.drop_last() =~= seen);
            assert(next.last() == assets@[i as int]);
        }
        match find_price(prices, holding.0) {
            None => {
                proof {
                    assert(assets@[i as int] == holding);
                    assert(price_of(prices@, assets@[i as int].0) is None);
                }
                return None;
            },
            Some(price) => {
                let amount: u128 = holding.1 as u128;
                let unit: u128 = price as u128;
                assert(amount * unit <= 0xffff_ffff_ffff_ffff * 0xffff_ffff_ffff_ffff)
                    by (nonlinear_arith)
                    requires
                        amount <= 0xffff_ffff_ffff_ffff,
                        unit <= 0xffff_ffff_ffff_ffff,
                ;
                let worth: u128 = amount * unit;
                proof {
                    assert(holding_value(next.last(), prices@) == worth);
                    assert forall|j: int| 0 <= j < next.len() implies price_of(
                        prices@,
                        (#[trigger] next[j]).0,
                    ) is Some by {
                        if j < i {
                            assert(seen[j] == next[j]);
                        }
                    }
                }
                total = match total.checked_add(worth) {
                    Some(sum) => sum,
                    None => u128::MAX,
                };
            },
        }
        i = i + 1;
    }
    proof {
        assert(assets@.take(assets@.len() as int) =~= assets@);
    }
    Some(total)
}

/// Tests a basket against a loan: every asset must have a price, and the
/// worth of the basket must cover the loan at the ratio.
pub fn check_sufficiency(
    assets: &[(AssetId, Amount)],
    loan_amount: u64,
    collateralization_ratio: u64,
    prices: &[(AssetId, Price)],
) -> (r: Result<(), CommitmentError>)
    ensures
        r == sufficiency(assets@, loan_amount, collateralization_ratio, prices@),
{
    match value_basket(assets, prices) {
        None => Err(CommitmentError::MissingOraclePrice),
        Some(value) => {
            let ratio: u128 = collateralization_ratio as u128;
            let loan: u128 = loan_amount as u128;
            assert(ratio * loan <= 0xffff_ffff_ffff_ffff * 0xffff_ffff_ffff_ffff)
                by (nonlinear_arith)
                requires
                    ratio <= 0xffff_ffff_ffff_ffff,
                    loan <= 0xffff_ffff_ffff_ffff,
            ;
            let required: u128 = ratio * loan;
            let whole: u128 = required / 100;
            let threshold: u128 = if required % 100 == 0 {
                whole
            } else {
                whole + 1
            };
            if value >= threshold {
                Ok(())
            } else {
                Err(CommitmentError::InsufficientCollateral)
            }
        },
    }
}

} // verus!
