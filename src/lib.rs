//! Checks that the source files of selected workspace packages begin with a
//! required byte prefix.
//!
//! The library holds the decisions: which packages a filter selects, whether
//! the leading bytes of a file match a prefix pattern, the ordered list of
//! violations and the exit status. Reading manifests and files is left to the
//! caller, which hands over plain values.
pub mod error;
pub mod order;
pub mod prefix;
pub mod report;
pub mod select;
