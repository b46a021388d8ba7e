//! Core engine of an interactive cluster-browsing shell.
//!
//! The library turns a freshly fetched collection of resource records into a
//! sorted, filtered, column-projected table, and keeps the navigation state
//! (current namespace, current selection) that follow-up commands consult.
//! Everything here is plain data and verified logic; transport, terminal
//! rendering, argument parsing and tab completion live outside, behind the
//! interfaces the types in this crate describe.

pub mod cell;
pub mod columns;
pub mod env;
pub mod error;
pub mod kobj;
pub mod pipeline;
pub mod pods;
pub mod records;
pub mod range;
pub mod sort;
pub mod text;
pub mod volumes;
