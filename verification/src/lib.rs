use vstd::prelude::*;

pub mod bytes;
pub mod chmod;
pub mod decimal;
pub mod delta;
pub mod diagnostics;
pub mod filter;
pub mod plan;
pub mod fs;
pub mod policy;
pub mod remote;
pub mod text;
pub mod transfer;
