//! Decisions behind a real-time tone player: which device sample formats are
//! served, how a playback session moves from set-up to streaming to teardown,
//! and how a device buffer is filled from a stateful sample source.

pub mod format;
pub mod lifecycle;
pub mod fill;
