//! Finny: finite state machines whose dispatch semantics, event queues, timers and
//! declaration validation are stated and proved with Verus.

pub mod fsm;
pub mod derive;
pub mod decl;
pub mod classic;
pub mod timers;
