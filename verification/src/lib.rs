//! Aggregation core for a threaded-discussion service: it reassembles a story
//! and its nested comment tree, fetched item by item from an upstream store,
//! into a single nested document bounded by depth and breadth limits.

pub mod aggregate;
pub mod assemble;
pub mod item;
pub mod laws;
pub mod node;
pub mod request;
pub mod resolve;
pub mod upstream;
