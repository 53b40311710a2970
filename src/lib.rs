//! Identity and access core of a catalog service: opaque identifier codec,
//! password checking, token claims, request authorization, session flows and
//! keyset pagination.

pub mod identifier;
pub mod codec;
pub mod password;
pub mod token;
pub mod pagination;
pub mod queries;
pub mod response;
pub mod authorize;
pub mod session;
pub mod account;
