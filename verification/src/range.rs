//! Proximity-range classification of market orders.
//!
//! A range selector names how broad a neighbourhood of the reference
//! location is considered: Hub (a fixed table of five well-known trade
//! hubs, same system only), System (same system), OneJump, TwoJump, or
//! Region (everything). A raw ordinal of four or more normalizes to
//! Region — a deliberate clamp-to-widest policy, not an error.

use vstd::prelude::*;
use crate::record::OrderRow;

verus! {

/// Breadth of locations considered when aggregating orders.
#[derive(Clone, Copy, PartialEq, Eq, Structural, Debug)]
pub enum OrderRange {
    Hub,
    System,
    OneJump,
    TwoJump,
    Region,
}

/// The five well-known trade-hub location identifiers, in hundredths
/// (fixed-point, two fractional digits), in table order.
pub const HUB_ID_CENTS_0: u64 = 6000376000;

pub const HUB_ID_CENTS_1: u64 = 6000458800;

pub const HUB_ID_CENTS_2: u64 = 6000849400;

pub const HUB_ID_CENTS_3: u64 = 6001186600;

pub const HUB_ID_CENTS_4: u64 = 6000568600;

/// Whether a location identifier (in hundredths) is one of the five hubs.
pub open spec fn spec_is_hub(location_id: u64) -> bool {
    location_id == HUB_ID_CENTS_0 || location_id == HUB_ID_CENTS_1
        || location_id == HUB_ID_CENTS_2 || location_id == HUB_ID_CENTS_3
        || location_id == HUB_ID_CENTS_4
}

/// The range a raw ordinal selects; every value of four or more clamps to
/// the widest range.
pub open spec fn spec_range_of_ordinal(value: u8) -> OrderRange {
    if value == 0 {
        OrderRange::Hub
    } else if value == 1 {
        OrderRange::System
    } else if value == 2 {
        OrderRange::OneJump
    } else if value == 3 {
        OrderRange::TwoJump
    } else {
        OrderRange::Region
    }
}

impl From<u8> for OrderRange {
    fn from(value: u8) -> (r: OrderRange) {
        match value {
            0 => OrderRange::Hub,
            1 => OrderRange::System,
            2 => OrderRange::OneJump,
            3 => OrderRange::TwoJump,
            _ => OrderRange::Region,
        }
    }
}

impl vstd::std_specs::convert::FromSpecImpl<u8> for OrderRange {
    open spec fn obeys_from_spec() -> bool {
        true
    }

    open spec fn from_spec(value: u8) -> OrderRange {
        spec_range_of_ordinal(value)
    }
}

/// Whether an order qualifies under a range and a side: its side flag must
/// match the requested side, and its location must fall inside the range.
pub open spec fn spec_qualifies(range: OrderRange, is_buy: bool, order: OrderRow) -> bool {
    order.is_buy_order == is_buy && match range {
        OrderRange::Hub => order.jumps == 0 && spec_is_hub(order.location_id),
        OrderRange::System => order.jumps == 0,
        OrderRange::OneJump => order.jumps < 2,
        OrderRange::TwoJump => order.jumps < 3,
        OrderRange::Region => true,
    }
}

/// Decides inclusion of one order under a range and a side.
pub fn qualifies(range: OrderRange, is_buy: bool, order: &OrderRow) -> (r: bool)
    ensures
        r == spec_qualifies(range, is_buy, *order),
{
    if order.is_buy_order != is_buy {
        return false;
    }
    match range {
        OrderRange::Hub => order.jumps == 0 && is_hub(order.location_id),
        OrderRange::System => order.jumps == 0,
        OrderRange::OneJump => order.jumps < 2,
        OrderRange::TwoJump => order.jumps < 3,
        OrderRange::Region => true,
    }
}

/// Decides membership in the fixed hub table.
pub fn is_hub(location_id: u64) -> (r: bool)
    ensures
        r == spec_is_hub(location_id),
{
    location_id == HUB_ID_CENTS_0 || location_id == HUB_ID_CENTS_1
        || location_id == HUB_ID_CENTS_2 || location_id == HUB_ID_CENTS_3
        || location_id == HUB_ID_CENTS_4
}

/// The orders that qualify under a range and a side, in input order.
pub fn filter_orders_by_range(orders: &Vec<OrderRow>, range: OrderRange, is_buy: bool) -> (r: Vec<
    OrderRow,
>)
    ensures
        r@ == orders@.filter(|o: OrderRow| spec_qualifies(range, is_buy, o)),
{
    let mut out: Vec<OrderRow> = Vec::new();
    let mut i: usize = 0;
    while i < orders.len()
        invariant
            i <= orders.len(),
            out@ == orders@.take(i as int).filter(|o: OrderRow| spec_qualifies(range, is_buy, o)),
        decreases orders.len() - i,
    {
        let o = orders[i];
        proof {
            assert(orders@.take(i + 1).drop_last() == orders@.take(i as int));
            reveal(Seq::filter);
        }
        if qualifies(range, is_buy, &o) {
            out.push(o);
        }
        i = i + 1;
    }
    proof {
        assert(orders@.take(orders@.len() as int) == orders@);
    }
    out
}

/// Law: each range is a superset of the narrower one. For a fixed order and
/// side, qualifying under Hub implies qualifying under System, System
/// implies OneJump, OneJump implies TwoJump, and TwoJump implies Region;
/// Hub is exactly System further constrained by the hub-location table.
pub proof fn lemma_range_monotonic(order: OrderRow, is_buy: bool)
    ensures
        spec_qualifies(OrderRange::Hub, is_buy, order) == (spec_qualifies(
            OrderRange::System,
            is_buy,
            order,
        ) && spec_is_hub(order.location_id)),
        spec_qualifies(OrderRange::Hub, is_buy, order) ==> spec_qualifies(
            OrderRange::System,
            is_buy,
            order,
        ),
        spec_qualifies(OrderRange::System, is_buy, order) ==> spec_qualifies(
            OrderRange::OneJump,
            is_buy,
            order,
        ),
        spec_qualifies(OrderRange::OneJump, is_buy, order) ==> spec_qualifies(
            OrderRange::TwoJump,
            is_buy,
            order,
        ),
        spec_qualifies(OrderRange::TwoJump, is_buy, order) ==> spec_qualifies(
            OrderRange::Region,
            is_buy,
            order,
        ),
{
}

} // verus!
