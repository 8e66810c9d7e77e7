//! Demonstration endpoints served through the router.

pub mod bytes;
