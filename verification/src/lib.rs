//! Core arithmetic of the am4 route planner: the flattened route matrix,
//! aircraft modification codes, cost index validation, configuration
//! algorithm names and the text formatting used by the web front end.
#![allow(unused_imports)]

use vstd::prelude::*;

pub mod matrix;
pub mod text;
pub mod form;
pub mod format;
pub mod aircraft;
pub mod ci;
pub mod config;
pub mod schedule;
pub mod console;
pub mod paging;
pub mod picker;
pub mod query;
pub mod settings;
pub mod stopover;
pub mod ticket;

verus! {
} // verus!
