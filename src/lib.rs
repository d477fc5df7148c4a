//! Decides which installed packages of a package manager are due for an
//! update: reads each package's info text, judges it under an update policy,
//! orders the verdicts for a report and renders the report's lines.

use vstd::prelude::*;

pub mod lines;
pub mod matchers;
pub mod info;
pub mod decision;
pub mod ordering;
pub mod table;
pub mod session;

verus! {

} // verus!
