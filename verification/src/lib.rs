//! A trader of execution weight: it prices weight in the assets that a message
//! brings along, takes the fee out of them, gives back what was bought in
//! excess, and hands what it collected over exactly once.

pub mod fee;
pub mod holding;
pub mod laws;
pub mod state;
pub mod trader;

pub use fee::{weight_fee, weight_fee_capped, SECOND_OF_WEIGHT};
pub use state::{AssetAmount, PriceQuote, TradeError};
pub use trader::{AssetPriceOracle, DynamicWeightTrader};
