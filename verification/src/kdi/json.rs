//! The bike-sharing feed.
use vstd::prelude::*;

verus! {

/// A bike-sharing station as the feed gives it. The position holds number
/// literals: latitude, then longitude.
#[derive(Debug)]
pub struct BikeSharing {
    pub id: String,
    pub name: String,
    pub address: String,
    pub bikes: usize,
    pub slots: usize,
    pub total_slots: usize,
    pub position: Vec<String>,
}

} // verus!
