//! Recognition of sequencing-read filenames and derivation of sample
//! identifiers, the core of a scan that maps each read file under a
//! directory tree to a stable sample ID in a CSV or config manifest.
//!
//! The matcher ([`matcher`]) decides whether a filename follows the
//! lane/read naming convention; the identifier builder ([`ident`]) collapses
//! a filename into its sample ID by truncating it to a caller-chosen number
//! of separator-delimited tokens; [`init::Init`] carries one scan's
//! configuration and formats the manifest lines. Walking the tree and
//! writing the file are the caller's work.

pub mod ident;
pub mod init;
pub mod matcher;
