//! Verified core of a reflection dumper for Unreal Engine processes: the
//! diagnostics state behind the tool's verbosity switches and warning
//! counter, the command-line value parsers, the classification of input and
//! output file names, and the translation of reflection data into the
//! `.usmap` property schema.

pub mod verbosity;
pub mod diag;
pub mod text;
pub mod parse;
pub mod files;
pub mod usmap;
