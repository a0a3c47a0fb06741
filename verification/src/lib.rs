//! Verified core of the frienduro enduro-timing tools: reading GPX track
//! points out of an XML document, time stamps and elapsed times, the tally
//! of matched segments, and the split of a track into equal segments.
use vstd::prelude::*;

pub mod gpx;
pub mod split;
pub mod tally;
pub mod time;
pub mod track;
pub mod xml;

verus! {

} // verus!
