//! A source-tree annotator: inserts placeholder documentation comments above
//! struct, enum, trait and public-function declarations, and above the fields
//! and variants inside struct and enum bodies. A ledger of already-annotated
//! files makes repeated runs skip prior work.

pub mod annotate;
pub mod cli;
pub mod ledger;
pub mod members;
pub mod text;
