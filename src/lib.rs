//! A static blog generator: posts with a metadata header and a markdown body
//! become HTML pages and an index, newest first.
use vstd::prelude::*;

pub mod text;
pub mod post;
pub mod collection;
pub mod render;
pub mod site;
pub mod server;

verus! {

} // verus!
