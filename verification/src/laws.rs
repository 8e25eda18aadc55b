//! What holds of the books whatever is done with them: nothing collected is
//! lost, a trader stays with the asset it first charged in, and a refund
//! stays within what was charged.

use crate::fee::{capped_fee, fee_for, lemma_fee_monotonic};
use crate::holding::{balance_in, distinct_fungibles, without, PaymentEntry};
use crate::state::{PriceQuote, TradeState};
use crate::trader::{can_pay, costs_nothing};
use staging_xcm::v5::AssetId;
use vstd::prelude::*;

verus! {

/// One thing that changed the books of a trader.
pub enum BookEntry {
    /// `fee` was taken for `weight` at `quote`.
    Charge { weight: u64, fee: u128, quote: PriceQuote },
    /// `weight` was refunded.
    Refund { weight: u64 },
}

/// The books after `entry`.
pub open spec fn after_entry(state: TradeState, entry: BookEntry) -> TradeState {
    match entry {
        BookEntry::Charge { weight, fee, quote } => state.charged(weight, fee, quote),
        BookEntry::Refund { weight } => state.refunded(weight),
    }
}

/// The books after all of `entries`, the first of them first.
pub open spec fn after_entries(state: TradeState, entries: Seq<BookEntry>) -> TradeState
    decreases entries.len(),
{
    if entries.len() == 0 {
        state
    } else {
        after_entry(after_entries(state, entries.drop_last()), entries.last())
    }
}

/// What `entry` moves on the books `state`: a charge brings its fee in, a
/// refund takes out what it hands back.
pub open spec fn fee_moved(state: TradeState, entry: BookEntry) -> int {
    match entry {
        BookEntry::Charge { fee, .. } => fee as int,
        BookEntry::Refund { weight } => match state.refund_due(weight) {
            Some(refund) => -(refund.amount as int),
            None => 0,
        },
    }
}

/// What was on the books at first, and all that was charged since, less all
/// that was handed back.
pub open spec fn net_fee(state: TradeState, entries: Seq<BookEntry>) -> int
    decreases entries.len(),
{
    if entries.len() == 0 {
        state.fee_collected as int
    } else {
        net_fee(state, entries.drop_last()) + fee_moved(
            after_entries(state, entries.drop_last()),
            entries.last(),
        )
    }
}

/// No entry met a bound of the fee collected: no charge took it past
/// `u128::MAX`, and no refund handed back more than was there.
pub open spec fn within_bounds(state: TradeState, entries: Seq<BookEntry>) -> bool
    decreases entries.len(),
{
    entries.len() == 0 || {
        let earlier = after_entries(state, entries.drop_last());
        &&& within_bounds(state, entries.drop_last())
        &&& 0 <= earlier.fee_collected + fee_moved(earlier, entries.last()) <= u128::MAX
    }
}

/// The quote of the first charge among `entries`.
pub open spec fn first_quote(entries: Seq<BookEntry>) -> Option<PriceQuote>
    decreases entries.len(),
{
    if entries.len() == 0 {
        None
    } else {
        match first_quote(entries.drop_last()) {
            Some(quote) => Some(quote),
            None => match entries.last() {
                BookEntry::Charge { quote, .. } => Some(quote),
                BookEntry::Refund { .. } => None,
            },
        }
    }
}

/// Charges and refunds keep the books well-formed.
pub proof fn lemma_books_stay_wf(state: TradeState, entries: Seq<BookEntry>)
    requires
        state.wf(),
    ensures
        after_entries(state, entries).wf(),
        TradeState::fresh().wf(),
    decreases entries.len(),
{
    if entries.len() > 0 {
        lemma_books_stay_wf(state, entries.drop_last());
    }
}

/// Conservation. As long as no entry meets a bound, the fee on the books is
/// what was charged less what was refunded, and the settlement owes the sink
/// exactly that: nothing where it is zero.
pub proof fn lemma_fee_is_conserved(state: TradeState, entries: Seq<BookEntry>)
    requires
        state.wf(),
        within_bounds(state, entries),
    ensures
        after_entries(state, entries).fee_collected == net_fee(state, entries),
        net_fee(state, entries) == 0 <==> after_entries(state, entries).revenue() is None,
        after_entries(state, entries).revenue() matches Some(revenue) ==> revenue.amount
            == net_fee(state, entries),
    decreases entries.len(),
{
    lemma_books_stay_wf(state, entries);
    if entries.len() > 0 {
        lemma_fee_is_conserved(state, entries.drop_last());
    }
}

/// A charge never lowers what is on the books, and a refund never raises it.
pub proof fn lemma_books_move_one_way(
    state: TradeState,
    weight: u64,
    fee: u128,
    quote: PriceQuote,
)
    ensures
        state.charged(weight, fee, quote).weight_charged >= state.weight_charged,
        state.charged(weight, fee, quote).fee_collected >= state.fee_collected,
        state.refunded(weight).weight_charged <= state.weight_charged,
        state.refunded(weight).fee_collected <= state.fee_collected,
{
}

/// No weight is free at every rate, and every weight is free at the rate
/// zero: such a purchase changes nothing.
pub proof fn lemma_free_purchases(quote: PriceQuote, weight: u64)
    ensures
        costs_nothing(quote, 0),
        quote.units_per_second == 0 ==> costs_nothing(quote, weight),
{
}

/// A settlement leaves nothing to settle: what was collected is owed once.
pub proof fn lemma_settled_owes_nothing()
    ensures
        TradeState::fresh().revenue() is None,
        forall|weight: u64| TradeState::fresh().refund_due(weight) is None,
{
}

/// One asset. A trader that is bound stays bound to the same asset and rate,
/// whatever is charged and refunded after.
pub proof fn lemma_selection_is_kept(state: TradeState, entries: Seq<BookEntry>)
    requires
        state.selected_payment is Some,
    ensures
        after_entries(state, entries).selected_payment == state.selected_payment,
    decreases entries.len(),
{
    if entries.len() > 0 {
        lemma_selection_is_kept(state, entries.drop_last());
    }
}

/// One asset. What a new trader is bound to is the quote of its first charge,
/// however many charges follow, and every refund is in that asset.
pub proof fn lemma_first_charge_binds(entries: Seq<BookEntry>, weight: u64)
    ensures
        after_entries(TradeState::fresh(), entries).selected_payment == first_quote(entries),
        after_entries(TradeState::fresh(), entries).refund_due(weight) matches Some(refund)
            ==> first_quote(entries) matches Some(quote) && refund.asset == quote.asset,
        after_entries(TradeState::fresh(), entries).revenue() matches Some(revenue)
            ==> first_quote(entries) matches Some(quote) && revenue.asset == quote.asset,
    decreases entries.len(),
{
    if entries.len() > 0 {
        lemma_first_charge_binds(entries.drop_last(), weight);
    }
}

/// One asset. A bound trader takes no fee at another asset or rate, whatever
/// the payment holds.
pub proof fn lemma_bound_trader_rejects_others(
    state: TradeState,
    entries: Seq<PaymentEntry>,
    quote: PriceQuote,
    weight: u64,
)
    requires
        state.selected_payment is Some,
        state.selected_payment != Some(quote),
    ensures
        !can_pay(state, entries, quote, weight),
{
}

/// The bound of a refund. It never takes the weight charged or the fee
/// collected below zero, it is for no more weight than was charged, and it
/// hands back no more than all the weight charged costs at the trader's rate.
pub proof fn lemma_refund_is_bounded(state: TradeState, weight: u64)
    requires
        state.wf(),
    ensures
        state.refundable(weight) <= weight,
        state.refundable(weight) <= state.weight_charged,
        state.refunded(weight).weight_charged == state.weight_charged - state.refundable(weight),
        state.refunded(weight).fee_collected <= state.fee_collected,
        state.refund_due(weight) matches Some(refund) ==> state.selected_payment matches Some(
            bound,
        ) && refund.asset == bound.asset && refund.amount == capped_fee(
            bound.units_per_second,
            state.refundable(weight),
        ) && refund.amount <= capped_fee(bound.units_per_second, state.weight_charged),
{
    if let Some(bound) = state.selected_payment {
        lemma_fee_monotonic(
            bound.units_per_second,
            state.refundable(weight),
            state.weight_charged,
        );
    }
}

/// The bound of a refund, in what was collected. Where the fee collected
/// covers the weight charged at the trader's rate, as it does after a single
/// charge, no refund hands back more than was collected, and the books go
/// down by exactly what it hands back.
pub proof fn lemma_refund_within_collected(state: TradeState, weight: u64)
    requires
        state.wf(),
        state.selected_payment matches Some(bound) && state.fee_collected >= capped_fee(
            bound.units_per_second,
            state.weight_charged,
        ),
    ensures
        state.refund_due(weight) matches Some(refund) ==> refund.amount <= state.fee_collected
            && state.refunded(weight).fee_collected == state.fee_collected - refund.amount,
        state.refund_due(weight) is None ==> state.refunded(weight).fee_collected
            == state.fee_collected,
{
    lemma_refund_is_bounded(state, weight);
}

/// After a single charge of the fee that `weight` costs at `quote`, the fee
/// collected covers the weight charged: [`lemma_refund_within_collected`]
/// holds of the books.
pub proof fn lemma_one_charge_is_covered(quote: PriceQuote, weight: u64)
    requires
        fee_for(quote.units_per_second, weight) <= u128::MAX,
    ensures
        ({
            let state = TradeState::fresh().charged(
                weight,
                fee_for(quote.units_per_second, weight) as u128,
                quote,
            );
            &&& state.wf()
            &&& state.selected_payment == Some(quote)
            &&& state.weight_charged == weight
            &&& state.fee_collected == capped_fee(quote.units_per_second, state.weight_charged)
        }),
{
}

/// What a payment is left with. Taking `amount` of an asset out of entries
/// that hold as much leaves that much less of the asset, and as much as
/// before of every other.
pub proof fn lemma_without_takes_the_fee_only(
    entries: Seq<PaymentEntry>,
    id: AssetId,
    amount: u128,
    other: AssetId,
)
    requires
        distinct_fungibles(entries),
        0 < amount <= balance_in(entries, id),
    ensures
        distinct_fungibles(without(entries, id, amount)),
        balance_in(without(entries, id, amount), id) == balance_in(entries, id) - amount,
        other != id ==> balance_in(without(entries, id, amount), other) == balance_in(
            entries,
            other,
        ),
    decreases entries.len(),
{
    if entries.len() > 0 {
        let tail = entries.drop_first();
        if entries[0].is_amount_of(id) {
            lemma_absent_from_tail(entries, id);
            if entries[0]->Fungible_amount != amount {
                let left = PaymentEntry::Fungible {
                    id,
                    amount: (entries[0]->Fungible_amount - amount) as u128,
                };
                assert((seq![left] + tail).drop_first() =~= tail);
            }
        } else {
            lemma_without_takes_the_fee_only(tail, id, amount, other);
            lemma_without_keeps_identities(tail, id, amount);
            assert((seq![entries[0]] + without(tail, id, amount)).drop_first() =~= without(
                tail,
                id,
                amount,
            ));
        }
    }
}

/// Where the first entry is the asset's, no later entry is, as long as no
/// asset has two entries.
proof fn lemma_absent_from_tail(entries: Seq<PaymentEntry>, id: AssetId)
    requires
        distinct_fungibles(entries),
        entries.len() > 0,
        entries[0].is_amount_of(id),
    ensures
        balance_in(entries.drop_first(), id) == 0,
{
    lemma_no_entry_no_balance(entries.drop_first(), id);
}

/// Entries none of which is the asset's hold nothing of it.
proof fn lemma_no_entry_no_balance(entries: Seq<PaymentEntry>, id: AssetId)
    requires
        forall|k: int| 0 <= k < entries.len() ==> !(#[trigger] entries[k]).is_amount_of(id),
    ensures
        balance_in(entries, id) == 0,
    decreases entries.len(),
{
    if entries.len() > 0 {
        lemma_no_entry_no_balance(entries.drop_first(), id);
    }
}

/// Every fungible entry that is left after [`without`] is of an asset that
/// had a fungible entry before.
proof fn lemma_without_keeps_identities(entries: Seq<PaymentEntry>, id: AssetId, amount: u128)
    ensures
        forall|j: int|
            0 <= j < without(entries, id, amount).len() && (#[trigger] without(
                entries,
                id,
                amount,
            )[j]) is Fungible ==> exists|k: int|
                0 <= k < entries.len() && entries[k] is Fungible && entries[k]->Fungible_id
                    == without(entries, id, amount)[j]->Fungible_id,
    decreases entries.len(),
{
    if entries.len() > 0 {
        lemma_without_keeps_identities(entries.drop_first(), id, amount);
    }
}

} // verus!
