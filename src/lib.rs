//! Client-side logic of the Docker Registry HTTP API v2: API probing, bearer-token
//! authentication with a single retry, lazy listing over linked pages, and
//! content-addressed retrieval of manifests and blobs. The library decides what
//! to send and what a response means; performing requests is left to the caller.
use vstd::prelude::*;

pub mod auth;
pub mod bytes;
pub mod challenge;
pub mod client;
pub mod content;
pub mod error;
pub mod http;
pub mod json;
pub mod pagination;

verus! {

} // verus!
