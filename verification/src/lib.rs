//! An interactive disk-usage explorer's verified core: directory-size
//! aggregation over a modelled file tree, entry listing and sorting,
//! the navigation state machine, and display formatting.

pub mod entry;
pub mod format;
pub mod lister;
pub mod nav;
pub mod render;
pub mod sorter;
pub mod tree;
