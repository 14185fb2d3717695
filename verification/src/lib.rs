//! Resolution of named resource-request profiles for a batch scheduler, and
//! their rendering as an argument list or as a submission script.
//!
//! Every function states its result over plain sequences of characters, so
//! that the text handed to the scheduler is fixed by the contracts alone.

pub mod config;
pub mod profile;
pub mod slurm;
pub mod text;
