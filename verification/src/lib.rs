//! Packaging of files into a VPK archive: the worklist of
//! (source, destination) bindings and the assembly of the container.

pub mod archive;
pub mod error;
pub mod search;
pub mod token;
pub mod worklist;
