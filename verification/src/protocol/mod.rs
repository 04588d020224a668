//! Strict, versioned protocol values exchanged with NautilusTrader.
pub mod canonical;
pub mod capability;
pub mod decimal;
pub mod error;
pub mod identity;
pub mod live;
pub mod observation;
pub mod quantity_order;
pub mod receipt;
pub mod set;
pub mod value;
pub mod version;
