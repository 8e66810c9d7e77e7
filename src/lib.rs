//! Request routing in front of arbitrary handlers: ordered first-match
//! lookup of method and path templates, translation of handler errors and
//! failures into responses, and bodies handed out piece by piece.

pub mod http;
pub mod path;
pub mod query;
pub mod router;
pub mod service;
