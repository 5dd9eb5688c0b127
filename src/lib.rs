//! Filtering, sorting and interaction state for a read-only viewer of
//! project-plan tasks.

pub mod app;
pub mod config;
pub mod filter;
pub mod plan;
pub mod text;
pub mod view;

use vstd::prelude::*;

verus! {

/// Where the exported plan workbook is read from.
pub const PLAN_PATH: &'static str = "./resources/plan.xlsx";

/// Where the filter and sort configuration is kept.
pub const CONFIG_PATH: &'static str = "./resources/config.toml";

/// An error that carries only a message.
#[derive(Debug, Clone)]
pub struct SimpleError(pub String);

impl SimpleError {
    /// The message of the error.
    pub fn message(&self) -> (r: String)
        ensures
            r@ == self.0@,
    {
        self.0.clone()
    }
}

impl From<String> for SimpleError {
    fn from(s: String) -> (r: SimpleError) {
        SimpleError(s)
    }
}

impl vstd::std_specs::convert::FromSpecImpl<String> for SimpleError {
    open spec fn obeys_from_spec() -> bool {
        true
    }

    open spec fn from_spec(s: String) -> SimpleError {
        SimpleError(s)
    }
}

} // verus!
