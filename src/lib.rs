//! Copy-on-write workspace sessions over a directory tree: the verified
//! decisions (sandbox containment, tree diffing, change application plans and
//! the session table), with all filesystem access left to the caller.
pub mod clone;
pub mod diff;
pub mod digest;
pub mod events;
pub mod manager;
pub mod model;
pub mod paths;
pub mod policy;
pub mod table;
