//! A transactional auction house: users, per-user item holdings with a
//! reserved `funds` currency, and immediate or auction sell orders with
//! listing fees, bid escrow and settlement at expiry.
//!
//! The state and its operations are defined mathematically in [`ledger`];
//! [`storage`] is the engine that carries them out, and every operation of
//! the engine is proved to do what the definition says or to refuse and
//! change nothing. [`history`], [`conservation`] and [`laws`] prove what
//! holds of every state that the engine can reach: no holding is negative,
//! every user has a holding of the currency, every live order sells
//! something at a price, and nothing is created or destroyed but by
//! deposits, withdrawals and listing fees.
//!
//! [`commands`] reads the requests of a session and [`replies`] words the
//! answers. [`tables`] checks stored tables before an engine is built on
//! them.

pub mod calendar;
pub mod commands;
pub mod conservation;
pub mod errors;
pub mod history;
pub mod holdings;
pub mod laws;
pub mod ledger;
pub mod names;
pub mod replies;
pub mod settlement;
pub mod storage;
pub mod tables;
pub mod text;
pub mod types;
pub mod validity;
