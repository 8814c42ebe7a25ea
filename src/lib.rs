//! A bridge that exposes pre-declared local commands as callable tools over a
//! line-delimited JSON-RPC protocol: tool catalog, argument mapping, request
//! dispatch and response encoding.

pub mod mapping;
pub mod catalog;
pub mod response;
pub mod dispatch;
