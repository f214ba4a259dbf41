//! Exchange-rate digest: extraction of rate figures from historical-rate
//! pages, and the per-peer decisions of the rate pipeline.
use vstd::prelude::*;

pub mod calendar;
pub mod document;
pub mod extract;
pub mod numeral;
pub mod pipeline;
pub mod text;

verus! {

} // verus!
