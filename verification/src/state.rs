//! What a trader has on its books, as plain values, and how a charge, a
//! refund and the settlement change them. The trader's contracts are stated
//! over these functions.

use crate::fee::capped_fee;
use staging_xcm::v5::AssetId;
use vstd::prelude::*;

verus! {

/// The price of an asset: which asset is to pay, and how many units of it
/// a second of weight costs.
#[derive(Clone, Debug, PartialEq, Eq)]
pub struct PriceQuote {
    pub asset: AssetId,
    pub units_per_second: u128,
}

/// So many units of one fungible asset.
#[derive(Clone, Debug, PartialEq, Eq)]
pub struct AssetAmount {
    pub asset: AssetId,
    pub amount: u128,
}

/// Why no weight was bought.
#[derive(Clone, Copy, Debug, PartialEq, Eq)]
pub enum TradeError {
    /// The payment held no fungible asset at all.
    AssetNotFound,
    /// The payment held fungible assets, and none of them could pay: it had
    /// no price, it held too little, or it was not the asset that this trader
    /// is bound to.
    TooExpensive,
}

/// The books of a trader.
pub struct TradeState {
    /// The weight charged so far and not refunded.
    pub weight_charged: u64,
    /// The fee collected so far and not refunded.
    pub fee_collected: u128,
    /// The asset and rate that the first paid charge bound the trader to.
    pub selected_payment: Option<PriceQuote>,
}

impl TradeState {
    /// The books of a new trader: nothing charged, nothing collected, bound to
    /// no asset.
    pub open spec fn fresh() -> TradeState {
        TradeState { weight_charged: 0, fee_collected: 0, selected_payment: None }
    }

    /// A trader that is bound to no asset has charged and collected nothing.
    pub open spec fn wf(self) -> bool {
        self.selected_payment is None ==> self.weight_charged == 0 && self.fee_collected == 0
    }

    /// Whether a charge at `quote` is in order: the trader is not bound yet,
    /// or it is bound to this very asset and rate.
    pub open spec fn admits(self, quote: PriceQuote) -> bool {
        self.selected_payment is None || self.selected_payment == Some(quote)
    }

    /// The books after `fee` was taken for `weight` at `quote`. Both sums
    /// stop at the largest value they can hold. The first such charge binds
    /// the trader; a bound trader stays bound as it is.
    pub open spec fn charged(self, weight: u64, fee: u128, quote: PriceQuote) -> TradeState {
        TradeState {
            weight_charged: if self.weight_charged + weight > u64::MAX {
                u64::MAX
            } else {
                (self.weight_charged + weight) as u64
            },
            fee_collected: if self.fee_collected + fee > u128::MAX {
                u128::MAX
            } else {
                (self.fee_collected + fee) as u128
            },
            selected_payment: if self.selected_payment is Some {
                self.selected_payment
            } else {
                Some(quote)
            },
        }
    }

    /// The part of `weight` that can be refunded: no more than was charged.
    pub open spec fn refundable(self, weight: u64) -> u64 {
        if weight <= self.weight_charged {
            weight
        } else {
            self.weight_charged
        }
    }

    /// What a refund of `weight` hands back: the fee of the refundable weight
    /// at the rate the trader is bound to, in the asset it is bound to.
    /// Nothing where the trader is not bound, or where that fee is zero.
    pub open spec fn refund_due(self, weight: u64) -> Option<AssetAmount> {
        match self.selected_payment {
            Some(quote) => {
                let amount = capped_fee(quote.units_per_second, self.refundable(weight));
                if amount > 0 {
                    Some(AssetAmount { asset: quote.asset, amount })
                } else {
                    None
                }
            },
            None => None,
        }
    }

    /// The books after a refund of `weight`: the refundable weight is gone
    /// from the weight charged, and its fee from the fee collected, which
    /// stops at zero.
    pub open spec fn refunded(self, weight: u64) -> TradeState {
        match self.selected_payment {
            Some(quote) => {
                let amount = capped_fee(quote.units_per_second, self.refundable(weight));
                TradeState {
                    weight_charged: (self.weight_charged - self.refundable(weight)) as u64,
                    fee_collected: if amount >= self.fee_collected {
                        0
                    } else {
                        (self.fee_collected - amount) as u128
                    },
                    selected_payment: self.selected_payment,
                }
            },
            None => self,
        }
    }

    /// What is owed to the revenue sink: all that was collected and not
    /// refunded, in the asset the trader is bound to. Nothing where nothing
    /// was collected.
    pub open spec fn revenue(self) -> Option<AssetAmount> {
        match self.selected_payment {
            Some(quote) if self.fee_collected > 0 => Some(
                AssetAmount { asset: quote.asset, amount: self.fee_collected },
            ),
            _ => None,
        }
    }
}

} // verus!
