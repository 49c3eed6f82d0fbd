//! Looking up PubMed articles: a free-text search is normalized and sent,
//! the first few ids it finds are looked up one at a time, and each summary
//! is turned into a citation line. The network is left to the caller, who
//! drives a [`session::Session`] with the bodies of the replies.

use vstd::prelude::*;

pub mod citation;
pub mod json;
pub mod request;
pub mod session;
pub mod text;

verus! {

} // verus!
