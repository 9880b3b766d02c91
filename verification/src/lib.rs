//! Core state machine and filter/sort engine of a terminal dashboard for a
//! fleet of cloud compute instances.
//!
//! The library owns the application state: the list of instance records, the
//! price cache, the free-text filter, and the modal UI state. Every state
//! transition and every derived list (visible instances, ranked type
//! candidates) is implemented and verified here. Remote calls, rendering and
//! the event channel live outside the library; they hand plain values in and
//! take plain values (and commands to execute) back.

pub mod app;
pub mod config;
pub mod instance;
pub mod filter;
pub mod prices;
pub mod pricing;
pub mod saga;
pub mod text;
