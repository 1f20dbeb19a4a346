//! Core pipeline of a catalog lookup tool: flattening heterogeneous catalog
//! entities into uniform records, projecting them onto a user-selected field
//! set, ordering the fields by the position of their flags on the command
//! line, and encoding each record as one line of CSV, quoted CSV or JSON.
//!
//! Network access, argument parsing and printing live outside this crate;
//! the functions here are pure and fully specified.

pub mod decode;
pub mod encode;
pub mod flatten;
pub mod media;
pub mod options;
pub mod order;
pub mod pipeline;
pub mod project;
pub mod query;
pub mod search;
pub mod text;

pub use media::MediaEntity;
pub use media::MovieInfo;
pub use media::Output;
pub use media::Warning;
