//! Array operations: what each one decides from the state of the array.

pub mod bitmap;
pub mod spare;
pub mod reshape;
pub mod create;
pub mod assemble;
pub mod manage;
pub mod detail;
pub mod monitor;
pub mod apply;
pub mod dry_run;
