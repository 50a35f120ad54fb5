//! Plain data records of the surrounding service's order and region store.
//! They carry no behaviour here; the aggregation over them happens outside
//! this core.

use vstd::prelude::*;

verus! {

/// One gift order: which region it belongs to, what is ordered, how many.
#[derive(Debug)]
pub struct Order {
    pub id: i32,
    pub region_id: i32,
    pub gift_name: String,
    pub quantity: i32,
}

/// A delivery region, addressed by orders through its identifier.
#[derive(Debug)]
pub struct Region {
    pub id: i32,
    pub name: String,
}

} // verus!
