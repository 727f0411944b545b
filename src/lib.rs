//! Core logic of a desktop application launcher: reading application
//! descriptors into a catalog, filtering the catalog by a typed prefix,
//! choosing where an icon comes from, and turning a command line into the
//! argument vector of the program to run.
pub mod entry;
pub mod catalog;
pub mod query;
pub mod icon;
pub mod launch;
