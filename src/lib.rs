//! Runs a batch of commands side by side behind a live terminal dashboard:
//! the colour codes, the redrawing terminal model, the per-command state
//! machine and the set that drives them, all with verified contracts.
//! Processes themselves are spawned and polled by the caller, which hands
//! the outcomes to the library.

pub mod color;
pub mod commands;
pub mod supervisor;
pub mod terminal;
pub mod text;
