//! A verified model of the TeachFi platform contract: subscriptions to the
//! educational platform, the wallets each subscriber whitelists, and the views
//! that the platform exposes over them.
//!
//! The contract's storage is held in [`ConfigModule`]; the subscription
//! endpoints live on [`TFNPlatformContract`]. Every endpoint is a transition
//! from the stored state to the next one, described exactly by a spec function,
//! and a call that fails leaves the storage as it was.

pub mod types;
pub mod state;
pub mod config;
pub mod contract;
pub mod helpers;
pub mod laws;
pub mod endpoint_laws;

pub use config::ConfigModule;
pub use contract::TFNPlatformContract;
pub use helpers::{HelpersModule, StudentLookup};
pub use state::ConfigState;
pub use types::{
    Address, MainDAOProxy, Payment, PlatformError, PlatformInfo, State, Subscriber,
    DEFAULT_MAX_SUBSCRIBERS, DEFAULT_VALIDITY, VALIDITY_FOR_FRANCHISE,
};
