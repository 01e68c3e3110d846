//! Debounced open/close watcher: classifies raw open/close notifications,
//! folds them into per-path usage counts, debounces the aggregate count and
//! decides when an external command is to be run with an "on" or "off"
//! argument.

pub mod activity;
pub mod usage;
pub mod debounce;
pub mod dispatch;
pub mod monitor;
