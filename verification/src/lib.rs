//! Verified core of the FluxaPay payment contracts.
pub mod access_control;
pub mod events;
pub mod fx_oracle;
pub mod math;
pub mod merchant_auth;
pub mod mock_dex_router;
pub mod payment_link;
pub mod payments;
pub mod refunds;
pub mod store;
pub mod text;

pub use text::format_id;
