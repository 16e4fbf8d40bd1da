//! Secure deletion of files: the overwrite patterns, the pass schedule, the
//! renaming and removal steps, and the command-line rules, each with its
//! contract.

pub mod cli;
pub mod fill;
pub mod overwrite;
pub mod random;
pub mod schedule;
pub mod session;
pub mod smash;
pub mod unlink;
pub mod wipe;
