//! Verified core of a stock tracker: the decisions of a periodic
//! fetch-then-summarise pipeline, kept apart from the network, the clock and
//! the arithmetic on prices.
//!
//! Every symbol is served by its own worker, a small state machine
//! ([`worker`]). A coordinator fans a list of symbols out into requests and
//! joins the workers' results into one outcome per cycle ([`coordinator`]); a
//! scheduler decides when the next cycle may start ([`scheduler`]). Raw
//! observations are put into chronological order ([`chronology`], [`provider`]),
//! the positions that the statistics read are laid out over a series
//! ([`layout`]), symbol lists are split ([`symbols`]) and records are written
//! as lines ([`report`]).
pub mod chronology;
pub mod coordinator;
pub mod failure;
pub mod instant;
pub mod layout;
pub mod provider;
pub mod report;
pub mod scheduler;
pub mod symbols;
pub mod worker;
