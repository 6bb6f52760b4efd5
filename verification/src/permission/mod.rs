//! Permission levels, specific permissions, and how a user's
//! permission on a resource is resolved from its layers.

pub mod agreement;
pub mod laws;
pub mod level;
pub mod list;
pub mod query;
pub mod resolve;
pub mod specific;
pub mod target;
