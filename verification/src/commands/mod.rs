//! The commands of the command line, as plain values, and what each of them
//! computes before anything is read or written.

pub mod clear;
pub mod drop;
pub mod list;
pub mod pop;
pub mod record;
pub mod run;
