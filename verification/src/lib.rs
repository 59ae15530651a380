//! Wire serialization for distributed query plans.
//!
//! A scheduler turns the shuffle nodes of a distributed plan into bytes, an
//! executor turns them back. The byte layout is tag-length-value: every field
//! starts with a one-byte key, integers are LEB128 varints, nested messages
//! and strings are length-prefixed.

pub mod error;
pub mod execution_plans;
pub mod serde;
