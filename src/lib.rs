//! Two-way directory synchronisation engine: snapshots of two directory
//! trees are compared against their last synchronised state, conflicting
//! changes are resolved, and the surviving changes are planned and ordered
//! as filesystem actions for the opposite tree.

pub mod path;
pub mod pathmap;
pub mod datatypes;
pub mod index;
pub mod diff;
pub mod resolve;
pub mod action;
pub mod schedule;
pub mod plan;
pub mod run;
pub mod sync_loop;
