//! The trader itself: it buys weight with the assets of a payment, refunds
//! weight that was bought and not used, and settles what it collected.

use crate::fee::{fee_for, weight_fee, weight_fee_capped};
use crate::holding::{
    balance_in, has_fungible, holding_entries, list_entries, same_asset, take_fungible, without,
    PaymentEntry,
};
use crate::state::{AssetAmount, PriceQuote, TradeError, TradeState};
use staging_xcm::v5::AssetId;
use staging_xcm_executor::AssetsInHolding;
use vstd::prelude::*;

verus! {

/// The registry of asset prices, as the trader sees it.
pub trait AssetPriceOracle {
    /// Whether `answer` is something that this registry may say when it is
    /// asked for the price of weight in `asset`. A registry that says nothing
    /// of itself may give any answer, and two of its answers may differ.
    open spec fn may_answer(&self, asset: AssetId, answer: Option<PriceQuote>) -> bool {
        true
    }

    /// The price of weight in `asset`, where the registry has one.
    fn price(&self, asset: &AssetId) -> (answer: Option<PriceQuote>)
        ensures
            self.may_answer(*asset, answer),
    ;
}

/// Whether `weight` costs nothing at `quote`.
pub open spec fn costs_nothing(quote: PriceQuote, weight: u64) -> bool {
    fee_for(quote.units_per_second, weight) == 0
}

/// Whether a trader with the books `state` takes the fee for `weight` at
/// `quote` out of `entries`: there is a fee, the trader is free to charge in
/// this asset at this rate, and the entries hold enough of the asset.
pub open spec fn can_pay(
    state: TradeState,
    entries: Seq<PaymentEntry>,
    quote: PriceQuote,
    weight: u64,
) -> bool {
    &&& 0 < fee_for(quote.units_per_second, weight) <= balance_in(entries, quote.asset)
    &&& state.admits(quote)
}

/// What buying `weight` at `quote` with `payment` comes to, where it
/// succeeds. Weight that costs nothing changes nothing: the payment comes
/// back whole and the books stay as they are. Else the fee has left the
/// payment, and is on the books.
pub open spec fn bought_at(
    before: TradeState,
    weight: u64,
    payment: AssetsInHolding,
    quote: PriceQuote,
    after: TradeState,
    rest: AssetsInHolding,
) -> bool {
    if costs_nothing(quote, weight) {
        rest == payment && after == before
    } else {
        let fee = fee_for(quote.units_per_second, weight) as u128;
        &&& can_pay(before, holding_entries(payment), quote, weight)
        &&& holding_entries(rest) == without(holding_entries(payment), quote.asset, fee)
        &&& after == before.charged(weight, fee, quote)
    }
}

/// Whether `answer` leaves the weight unbought: it is no price, or a price at
/// which the weight costs something that the trader does not take out of
/// `entries`.
pub open spec fn turned_down(
    state: TradeState,
    weight: u64,
    entries: Seq<PaymentEntry>,
    answer: Option<PriceQuote>,
) -> bool {
    answer matches Some(quote) ==> !costs_nothing(quote, weight) && !can_pay(
        state,
        entries,
        quote,
        weight,
    )
}

/// Whether the trader goes past entry `i` of `entries`: it is no amount of a
/// fungible asset, or the registry was asked for its price and its answer
/// was [`turned_down`].
pub open spec fn passed_over<O: AssetPriceOracle>(
    oracle: &O,
    state: TradeState,
    weight: u64,
    entries: Seq<PaymentEntry>,
    i: int,
) -> bool {
    entries[i] matches PaymentEntry::Fungible { id, .. } ==> exists|answer: Option<PriceQuote>|
        #[trigger] oracle.may_answer(id, answer) && turned_down(state, weight, entries, answer)
}

/// Whether entry `i` of the payment decided the purchase: it is an amount of
/// a fungible asset, the registry answered with a price for it, the weight was
/// [`bought_at`] that price, and every entry before it was [`passed_over`].
pub open spec fn decided_at<O: AssetPriceOracle>(
    oracle: &O,
    before: TradeState,
    weight: u64,
    payment: AssetsInHolding,
    i: int,
    after: TradeState,
    rest: AssetsInHolding,
) -> bool {
    let entries = holding_entries(payment);
    &&& 0 <= i < entries.len()
    &&& entries[i] matches PaymentEntry::Fungible { id, .. } && exists|quote: PriceQuote|
        #[trigger] oracle.may_answer(id, Some(quote)) && bought_at(
            before,
            weight,
            payment,
            quote,
            after,
            rest,
        )
    &&& forall|j: int| 0 <= j < i ==> #[trigger] passed_over(oracle, before, weight, entries, j)
}

/// Whether some entry of the payment decided the purchase: the first that
/// was not passed over.
pub open spec fn decided<O: AssetPriceOracle>(
    oracle: &O,
    before: TradeState,
    weight: u64,
    payment: AssetsInHolding,
    after: TradeState,
    rest: AssetsInHolding,
) -> bool {
    exists|i: int| #[trigger] decided_at(oracle, before, weight, payment, i, after, rest)
}

/// Whether every entry of `entries` was [`passed_over`].
pub open spec fn all_passed_over<O: AssetPriceOracle>(
    oracle: &O,
    state: TradeState,
    weight: u64,
    entries: Seq<PaymentEntry>,
) -> bool {
    forall|j: int|
        0 <= j < entries.len() ==> #[trigger] passed_over(oracle, state, weight, entries, j)
}

/// A trader of weight for the assets of one message.
pub struct DynamicWeightTrader {
    weight_charged: u64,
    fee_collected: u128,
    selected_payment: Option<PriceQuote>,
}

impl View for DynamicWeightTrader {
    type V = TradeState;

    closed spec fn view(&self) -> TradeState {
        TradeState {
            weight_charged: self.weight_charged,
            fee_collected: self.fee_collected,
            selected_payment: self.selected_payment,
        }
    }
}

impl DynamicWeightTrader {
    /// A trader that is bound to no asset has charged and collected nothing:
    /// this holds of every trader, at all times.
    #[verifier::type_invariant]
    spec fn books_are_wf(self) -> bool {
        self@.wf()
    }

    /// A trader that has charged nothing yet.
    pub fn new() -> (trader: Self)
        ensures
            trader@ == TradeState::fresh(),
            trader@.wf(),
    {
        DynamicWeightTrader { weight_charged: 0, fee_collected: 0, selected_payment: None }
    }

    /// The weight charged so far and not refunded.
    pub fn weight_charged(&self) -> (weight: u64)
        ensures
            weight == self@.weight_charged,
    {
        self.weight_charged
    }

    /// The fee collected so far and not refunded.
    pub fn fee_collected(&self) -> (fee: u128)
        ensures
            fee == self@.fee_collected,
    {
        self.fee_collected
    }

    /// The asset and rate that this trader is bound to, once it has charged.
    pub fn selected_payment(&self) -> (selected: Option<PriceQuote>)
        ensures
            selected == self@.selected_payment,
    {
        match &self.selected_payment {
            Some(bound) => Some(
                PriceQuote {
                    asset: bound.asset.clone(),
                    units_per_second: bound.units_per_second,
                },
            ),
            None => None,
        }
    }

    /// Whether a charge at `quote` is in order for this trader.
    fn admits(&self, quote: &PriceQuote) -> (ok: bool)
        ensures
            ok == self@.admits(*quote),
    {
        match &self.selected_payment {
            Some(bound) => same_asset(&bound.asset, &quote.asset) && bound.units_per_second
                == quote.units_per_second,
            None => true,
        }
    }

    /// Buys `weight` at a price that is already known. `Ok` holds what is
    /// left of the payment; `Err` hands the payment back untouched, and says
    /// that it is too expensive to pay at this quote.
    ///
    /// Weight that costs nothing is bought for nothing, whatever the quote.
    /// Weight that costs something is bought where the trader admits the
    /// quote and the payment holds the fee in the quoted asset.
    pub fn buy_with_quote(
        &mut self,
        weight: u64,
        payment: AssetsInHolding,
        quote: &PriceQuote,
    ) -> (bought: Result<AssetsInHolding, AssetsInHolding>)
        ensures
            final(self)@.wf(),
            costs_nothing(*quote, weight) ==> bought == Ok::<AssetsInHolding, AssetsInHolding>(
                payment,
            ) && final(self)@ == old(self)@,
            match bought {
                Ok(rest) => bought_at(old(self)@, weight, payment, *quote, final(self)@, rest),
                Err(back) => {
                    &&& !costs_nothing(*quote, weight)
                    &&& !can_pay(old(self)@, holding_entries(payment), *quote, weight)
                    &&& back == payment
                    &&& final(self)@ == old(self)@
                },
            },
    {
        proof {
            use_type_invariant(&*self);
        }
        let fee = match weight_fee(quote.units_per_second, weight) {
            Some(fee) => fee,
            None => { return Err(payment); },
        };
        if fee == 0 {
            return Ok(payment);
        }
        if !self.admits(quote) {
            return Err(payment);
        }
        match take_fungible(payment, &quote.asset, fee) {
            Ok(rest) => {
                if self.selected_payment.is_none() {
                    self.selected_payment = Some(
                        PriceQuote {
                            asset: quote.asset.clone(),
                            units_per_second: quote.units_per_second,
                        },
                    );
                }
                self.weight_charged = self.weight_charged.saturating_add(weight);
                self.fee_collected = self.fee_collected.saturating_add(fee);
                Ok(rest)
            },
            Err(back) => Err(back),
        }
    }

    /// Buys `weight` with the assets of `payment`, and gives back what is
    /// left of them.
    ///
    /// The fungible assets of the payment are tried in the payment's own
    /// order. Each is priced by `oracle`; one without a price is passed over,
    /// and so is one that [`Self::buy_with_quote`] rejects. The first that is
    /// not rejected decides. Where none is left, the payment was too
    /// expensive; where it held no fungible asset to begin with, no asset was
    /// found.
    pub fn buy_weight<O: AssetPriceOracle>(
        &mut self,
        oracle: &O,
        weight: u64,
        payment: AssetsInHolding,
    ) -> (bought: Result<AssetsInHolding, TradeError>)
        ensures
            final(self)@.wf(),
            !has_fungible(holding_entries(payment)) ==> bought is Err,
            bought matches Ok(rest) ==> decided(
                oracle,
                old(self)@,
                weight,
                payment,
                final(self)@,
                rest,
            ),
            bought is Err ==> final(self)@ == old(self)@ && all_passed_over(
                oracle,
                old(self)@,
                weight,
                holding_entries(payment),
            ),
            bought matches Err(error) ==> error == if has_fungible(holding_entries(payment)) {
                TradeError::TooExpensive
            } else {
                TradeError::AssetNotFound
            },
            old(self)@.selected_payment is Some ==> final(self)@.selected_payment == old(
                self,
            )@.selected_payment,
    {
        proof {
            use_type_invariant(&*self);
        }
        let entries = list_entries(&payment);
        let mut holding = payment;
        let mut candidate_seen = false;
        let mut i: usize = 0;
        while i < entries.len()
            invariant
                i <= entries.len(),
                entries@ == holding_entries(payment),
                holding == payment,
                self@ == old(self)@,
                self@.wf(),
                candidate_seen <==> has_fungible(entries@.take(i as int)),
                forall|j: int|
                    0 <= j < i ==> #[trigger] passed_over(oracle, old(self)@, weight, entries@, j),
            decreases entries.len() - i,
        {
            assert(entries@.take(i + 1)[i as int] == entries@[i as int]);
            match &entries[i] {
                PaymentEntry::Fungible { id, .. } => {
                    candidate_seen = true;
                    match oracle.price(id) {
                        Some(quote) => {
                            match self.buy_with_quote(weight, holding, &quote) {
                                Ok(rest) => {
                                    assert(decided_at(
                                        oracle,
                                        old(self)@,
                                        weight,
                                        payment,
                                        i as int,
                                        self@,
                                        rest,
                                    ));
                                    return Ok(rest);
                                },
                                Err(back) => {
                                    holding = back;
                                },
                            }
                        },
                        None => {},
                    }
                },
                PaymentEntry::NonFungible { .. } => {},
            }
            i += 1;
        }
        assert(entries@.take(i as int) == entries@);
        if candidate_seen {
            Err(TradeError::TooExpensive)
        } else {
            Err(TradeError::AssetNotFound)
        }
    }

    /// Refunds `weight`, as far as so much was charged, and gives back its
    /// fee at the rate this trader is bound to. Nothing comes back from a
    /// trader that has never charged, or where the fee is zero.
    pub fn refund_weight(&mut self, weight: u64) -> (refund: Option<AssetAmount>)
        ensures
            final(self)@.wf(),
            refund == old(self)@.refund_due(weight),
            final(self)@ == old(self)@.refunded(weight),
    {
        proof {
            use_type_invariant(&*self);
        }
        match &self.selected_payment {
            Some(bound) => {
                let weight = if weight <= self.weight_charged {
                    weight
                } else {
                    self.weight_charged
                };
                let amount = weight_fee_capped(bound.units_per_second, weight);
                let refund = if amount > 0 {
                    Some(AssetAmount { asset: bound.asset.clone(), amount })
                } else {
                    None
                };
                self.weight_charged = self.weight_charged - weight;
                self.fee_collected = self.fee_collected.saturating_sub(amount);
                refund
            },
            None => None,
        }
    }

    /// Closes the books: gives what is owed to the revenue sink, and leaves a
    /// trader that has charged nothing. So what was collected is handed over
    /// once: a second call finds nothing to hand over.
    pub fn settle(&mut self) -> (revenue: Option<AssetAmount>)
        ensures
            final(self)@.wf(),
            revenue == old(self)@.revenue(),
            final(self)@ == TradeState::fresh(),
    {
        proof {
            use_type_invariant(&*self);
        }
        let revenue = match &self.selected_payment {
            Some(bound) if self.fee_collected > 0 => Some(
                AssetAmount { asset: bound.asset.clone(), amount: self.fee_collected },
            ),
            _ => None,
        };
        self.weight_charged = 0;
        self.fee_collected = 0;
        self.selected_payment = None;
        revenue
    }
}

} // verus!
