//! Protocol core of a cross-process window-embedding controller.
//!
//! A controller process and an externally launched viewer process cooperate
//! through one named shared-memory record so that window creations inside the
//! viewer can be intercepted and rewritten before the window materializes.
//! This crate holds the verified protocol logic: the shared slot table and
//! its allocation rule, the bit-exact byte layout of the shared record, the
//! lifecycle of a mapped region, the decision function run by the injected
//! window-creation callback, and the controller-side session state machine.
//! The operating-system edge (mapping memory, installing hooks, spawning the
//! viewer) lives outside, hands this crate plain values, and performs the
//! actions this crate decides on.

pub mod callback;
pub mod codec;
pub mod region;
pub mod session;
pub mod table;
