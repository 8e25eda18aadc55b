//! The assets that a message holds, and the few things the trader does with
//! them. The holding itself and the identity of an asset belong to the XCM
//! crates; what is said of them here is believed, not proved.

use staging_xcm::v5::{Asset, AssetId, Fungibility};
use staging_xcm_executor::AssetsInHolding;
use vstd::prelude::*;

verus! {

/// The identity of an asset. The trader never looks inside one: it carries
/// identities around and asks whether two of them are the same.
#[verifier::external_type_specification]
#[verifier::external_body]
pub struct ExAssetId(staging_xcm::v5::AssetId);

/// The assets in the holding register of a message.
#[verifier::external_type_specification]
#[verifier::external_body]
pub struct ExAssetsInHolding(staging_xcm_executor::AssetsInHolding);

/// One asset of a holding, as far as the trader reads it.
pub enum PaymentEntry {
    /// So many interchangeable units of an asset.
    Fungible { id: AssetId, amount: u128 },
    /// A single item of an asset class, which pays for nothing.
    NonFungible { id: AssetId },
}

impl PaymentEntry {
    /// Whether this entry is an amount of the fungible asset `id`.
    pub open spec fn is_amount_of(self, id: AssetId) -> bool {
        self matches PaymentEntry::Fungible { id: own, .. } && own == id
    }
}

/// The assets of a holding in the order in which it hands them out: the
/// fungible ones, each identity once, before the others.
pub uninterp spec fn holding_entries(holding: AssetsInHolding) -> Seq<
    PaymentEntry,
>;

/// Whether any of `entries` is an amount of a fungible asset: only such an
/// entry can pay for weight.
pub open spec fn has_fungible(entries: Seq<PaymentEntry>) -> bool {
    exists|i: int| 0 <= i < entries.len() && #[trigger] entries[i] is Fungible
}

/// No two fungible entries are of the same asset.
pub open spec fn distinct_fungibles(entries: Seq<PaymentEntry>) -> bool {
    forall|i: int, j: int|
        0 <= i < j < entries.len() && (#[trigger] entries[i]) is Fungible && (
        #[trigger] entries[j]) is Fungible ==> entries[i]->Fungible_id != entries[j]->Fungible_id
}

/// How many units of the fungible asset `id` there are in `entries`: the
/// amount of its first entry, zero where it has none.
pub open spec fn balance_in(entries: Seq<PaymentEntry>, id: AssetId) -> u128
    decreases entries.len(),
{
    if entries.len() == 0 {
        0
    } else if entries[0].is_amount_of(id) {
        entries[0]->Fungible_amount
    } else {
        balance_in(entries.drop_first(), id)
    }
}

/// `entries` less `amount` units of the fungible asset `id`: its first entry
/// holds that much less, and leaves the sequence when nothing is left in it.
/// Every other entry stays as and where it is. Meant for an `amount` that
/// [`balance_in`] covers.
pub open spec fn without(
    entries: Seq<PaymentEntry>,
    id: AssetId,
    amount: u128,
) -> Seq<PaymentEntry>
    decreases entries.len(),
{
    if entries.len() == 0 {
        entries
    } else if entries[0].is_amount_of(id) {
        if entries[0]->Fungible_amount == amount {
            entries.drop_first()
        } else {
            seq![
                PaymentEntry::Fungible {
                    id,
                    amount: (entries[0]->Fungible_amount - amount) as u128,
                },
            ] + entries.drop_first()
        }
    } else {
        seq![entries[0]] + without(entries.drop_first(), id, amount)
    }
}

/// `clone` of an asset's identity gives the same identity.
pub assume_specification[ <AssetId as Clone>::clone ](
    id: &AssetId,
) -> (same: AssetId)
    ensures
        same == *id,
;

/// `==` on two identities, which the outside crate derives: true exactly when
/// they are the same identity.
#[verifier::external_body]
pub(crate) fn same_asset(a: &AssetId, b: &AssetId) -> (same:
    bool)
    ensures
        same == (*a == *b),
{
    a == b
}

/// `AssetsInHolding::assets_iter`, each asset turned into a [`PaymentEntry`]:
/// the assets of the holding in its own order.
#[verifier::external_body]
pub(crate) fn list_entries(holding: &AssetsInHolding) -> (entries: Vec<
    PaymentEntry,
>)
    ensures
        entries@ == holding_entries(*holding),
{
    holding.assets_iter().map(
        |asset| match asset.fun {
            Fungibility::Fungible(amount) => PaymentEntry::Fungible {
                id: asset.id,
                amount,
            },
            Fungibility::NonFungible(_) => PaymentEntry::NonFungible {
                id: asset.id,
            },
        },
    ).collect()
}

/// `AssetsInHolding::checked_sub` of `amount` units of the fungible asset
/// `id`. Where the holding has that many, they are taken out of it: the
/// asset's amount goes down, and its entry goes when nothing is left. Where it
/// has fewer, or none, the holding comes back as it was. The amount is not
/// zero: the outside crate refuses to make a fungible asset of nothing.
#[verifier::external_body]
pub(crate) fn take_fungible(
    holding: AssetsInHolding,
    id: &AssetId,
    amount: u128,
) -> (taken: Result<AssetsInHolding, AssetsInHolding>)
    requires
        amount > 0,
    ensures
        match taken {
            Ok(rest) => balance_in(holding_entries(holding), *id) >= amount && holding_entries(
                rest,
            ) == without(holding_entries(holding), *id, amount),
            Err(back) => balance_in(holding_entries(holding), *id) < amount && back == holding,
        },
{
    holding.checked_sub(Asset::from((id.clone(), amount)))
}

} // verus!
