//! Decision logic of a bulk uninstaller for Windows: reading uninstall
//! command lines, choosing how to run them, classifying installed programs,
//! and deciding which install folders may be measured.
use vstd::prelude::*;

pub mod text;
pub mod cmdline;
pub mod winpath;
pub mod programs;
pub mod uninstall;
pub mod uninstall_run;
pub mod size;
pub mod size_probe;
pub mod categories;
pub mod listing;

verus! {
} // verus!
