//! Event-sourced lifecycle engine for CFD (contract-for-difference)
//! positions collateralized through discreet log contracts between a
//! maker and a taker.
//!
//! The engine keeps an append-only event log per contract, derives every
//! contract's state by folding that log, validates commands against the
//! derived state, orders persistence strictly before side effects, and
//! moves terminally failed contracts atomically into an archive store.

pub mod model;

pub mod db;

pub mod oracle;

pub mod process_manager;

pub mod wire;

pub mod setup_maker;

pub mod rollover_maker;

pub mod housekeeping;

pub mod position_metrics;
