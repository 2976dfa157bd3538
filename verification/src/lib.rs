//! Decision core of a rollup sequencer node that takes part in a shared
//! sequencing layer.
//!
//! The node registers as a candidate sequencer, waits for the sequencer set of
//! its block height to close, assembles the block of the height that just
//! ended and, where it led that height, submits the block's commitment. Every
//! decision of those three tasks is a function of this crate, from what the
//! outside world answered to what has to be done next; network, storage and
//! timers stay with the caller.
//!
//! - [`registrar`]: what follows a registration request.
//! - [`leader_poll`]: what follows a query for a closed sequencer set, and how
//!   the cursor of a rollup moves once the set has closed.
//! - [`assembler`]: the state machine that builds and publishes one block;
//!   [`assembly_run`] states what holds of all its runs.
//! - [`ledger`] and [`history`]: a model of the stored records, and what holds
//!   of it over any number of poll cycles.
//! - [`node_run`]: what holds of poll cycles and assemblies taken together.

pub mod assembler;
pub mod assembly_run;
pub mod history;
pub mod leader_poll;
pub mod ledger;
pub mod node_run;
pub mod registrar;
pub mod types;

pub use crate::assembler::block_builder;
pub use crate::leader_poll::leader_poller;
pub use crate::registrar::registerer;
