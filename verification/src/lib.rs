use vstd::prelude::*;

pub mod commands;
pub mod lms_client;
pub mod numfmt;
pub mod paths;
pub mod scanner;
pub mod squeeze;
pub mod text;

verus! {
} // verus!
