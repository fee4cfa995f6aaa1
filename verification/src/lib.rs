//! The rules of a focus lock: while a lock is active, only whitelisted
//! applications may hold the foreground and only allowed domains can be
//! reached.
//!
//! The library decides and computes; it opens no socket, reads no clock and
//! touches no setting. Whoever runs it hands in what was observed and does
//! what comes back.
//!
//! - [`lock`]: the lock state, the order of its writes, status queries, and
//!   what starting and ending a lock set in motion.
//! - [`guard`]: which application may hold the foreground.
//! - [`domain`]: which host an allow-list of domains lets through.
//! - [`proxy`]: what the filtering proxy does with a client's first frame.
//! - [`listener`]: what the accept loops do at each turn.
//! - [`notifier`]: the messages for the browser extension.
//! - [`sysproxy`]: the snapshot of the system's proxy settings.
//! - [`activity`]: activities, their usual time of day, and suggestions.
//! - [`text`], [`number`]: characters and decimal numbers.

pub mod activity;
pub mod domain;
pub mod guard;
pub mod listener;
pub mod lock;
pub mod notifier;
pub mod number;
pub mod proxy;
pub mod sysproxy;
pub mod text;

pub use activity::{default_lock_minutes, parse_time, Activity};
pub use domain::domain_allowed;
