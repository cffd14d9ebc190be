//! Client side of a hosted card-payment checkout: canonical request
//! parameters, their SHA-1 signature, the gateway's response envelope and the
//! states a single purchase attempt moves through.

pub mod decimal;
pub mod keys;
pub mod json;
pub mod digest;
pub mod responses;
pub mod error;
pub mod signature;
pub mod application;
pub mod request;
pub mod notification;
pub mod uri;
pub mod flow;
