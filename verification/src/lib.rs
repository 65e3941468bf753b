//! Collects the follower list of a social-media account through a
//! cursor-paginated API and plans the concurrent download of each
//! follower's avatar image.
//!
//! The crate holds the verified logic: cursor parsing, endpoint
//! construction, the pagination state machine, work partitioning and
//! the per-follower download plan. Network and filesystem work is left
//! to the caller, which feeds plain values in and out.

pub mod strutil;
pub mod config;
pub mod records;
pub mod pagination;
pub mod endpoint;
pub mod fetch;
pub mod partition;
pub mod avatar;
