//! Entities of the dispatch router and their wire labels.
//!
//! Coordinates are held in micro-degrees and ratings in thousandths so that
//! every rule about them is exact integer arithmetic; the transport layer
//! converts to and from the decimal wire forms.

use vstd::prelude::*;

use crate::error::AppError;
use crate::scoring::{Score, ScoreBreakdown};

verus! {

/// Ratings run from 0 to 5 in thousandths: 4.8 on the wire is 4800 here.
pub const RATING_MAX_MILLI: u32 = 5000;

/// A point on the sphere, in micro-degrees (52.52 on the wire is 52520000).
/// Ranges are not validated: callers trust input, and distance is defined on
/// the full sphere.
#[derive(Clone, Copy, Debug, PartialEq, Eq, Structural)]
pub struct GeoPoint {
    pub lat_micro: i64,
    pub lng_micro: i64,
}

#[derive(Clone, Copy, Debug, PartialEq, Eq, Structural)]
pub enum CourierStatus {
    Available,
    Busy,
    Offline,
}

#[derive(Debug)]
pub struct Courier {
    pub id: u128,
    pub name: String,
    pub location: GeoPoint,
    pub capacity: u8,
    pub current_load: u8,
    pub status: CourierStatus,
    pub rating_milli: u32,
    pub updated_at: i64,
}

impl Courier {
    /// Validity: positive capacity, load within capacity, rating clamped.
    pub open spec fn wf(self) -> bool {
        &&& 1 <= self.capacity
        &&& self.current_load <= self.capacity
        &&& self.rating_milli <= RATING_MAX_MILLI
    }
}

impl Clone for Courier {
    fn clone(&self) -> (r: Self)
        ensures
            r == *self,
    {
        Courier {
            id: self.id,
            name: self.name.clone(),
            location: self.location,
            capacity: self.capacity,
            current_load: self.current_load,
            status: self.status,
            rating_milli: self.rating_milli,
            updated_at: self.updated_at,
        }
    }
}

#[derive(Clone, Copy, Debug, PartialEq, Eq, Structural)]
pub enum Priority {
    Low,
    Normal,
    High,
    Urgent,
}

#[derive(Clone, Copy, Debug, PartialEq, Eq, Structural)]
pub enum OrderStatus {
    Pending,
    Assigned,
    InTransit,
    Delivered,
}

#[derive(Clone, Copy, Debug)]
pub struct DeliveryOrder {
    pub id: u128,
    pub pickup: GeoPoint,
    pub dropoff: GeoPoint,
    pub priority: Priority,
    pub status: OrderStatus,
    pub assigned_courier: Option<u128>,
    pub created_at: i64,
}

impl DeliveryOrder {
    /// Validity: an order is pending exactly when it has no courier.
    pub open spec fn wf(self) -> bool {
        (self.status == OrderStatus::Pending) <==> (self.assigned_courier is None)
    }
}

/// The immutable record binding one order to one courier.
#[derive(Clone, Copy, Debug)]
pub struct Assignment {
    pub id: u128,
    pub order_id: u128,
    pub courier_id: u128,
    pub score: Score,
    pub score_breakdown: ScoreBreakdown,
    pub assigned_at: i64,
}

impl Assignment {
    pub open spec fn wf(self) -> bool {
        &&& self.score.wf()
        &&& self.score_breakdown.wf()
    }
}

/// Body of a courier status patch.
#[derive(Clone, Copy, Debug)]
pub struct UpdateStatusRequest {
    pub status: CourierStatus,
}

/// Wire label of a courier status.
pub open spec fn courier_status_label(s: CourierStatus) -> Seq<char> {
    match s {
        CourierStatus::Available => "Available"@,
        CourierStatus::Busy => "Busy"@,
        CourierStatus::Offline => "Offline"@,
    }
}

/// Which courier status a wire label denotes, if any.
pub open spec fn courier_status_of_label(s: Seq<char>) -> Option<CourierStatus> {
    if s == "Available"@ {
        Some(CourierStatus::Available)
    } else if s == "Busy"@ {
        Some(CourierStatus::Busy)
    } else if s == "Offline"@ {
        Some(CourierStatus::Offline)
    } else {
        None
    }
}

pub fn courier_status_str(s: &CourierStatus) -> (r: String)
    ensures
        r@ == courier_status_label(*s),
{
    match s {
        CourierStatus::Available => "Available".to_owned(),
        CourierStatus::Busy => "Busy".to_owned(),
        CourierStatus::Offline => "Offline".to_owned(),
    }
}

/// Exact-match parse of a courier status label.
pub fn parse_courier_status(s: &str) -> (r: Result<CourierStatus, AppError>)
    ensures
        match r {
            Ok(st) => courier_status_of_label(s@) == Some(st),
            Err(e) => courier_status_of_label(s@) is None && e is BadRequest,
        },
{
    let t = s.to_owned();
    if t == "Available".to_owned() {
        Ok(CourierStatus::Available)
    } else if t == "Busy".to_owned() {
        Ok(CourierStatus::Busy)
    } else if t == "Offline".to_owned() {
        Ok(CourierStatus::Offline)
    } else {
        Err(AppError::BadRequest("unknown status, expected Available/Busy/Offline".to_owned()))
    }
}

/// Wire label of a priority.
pub open spec fn priority_label(p: Priority) -> Seq<char> {
    match p {
        Priority::Low => "Low"@,
        Priority::Normal => "Normal"@,
        Priority::High => "High"@,
        Priority::Urgent => "Urgent"@,
    }
}

/// Which priority a wire label denotes, if any.
pub open spec fn priority_of_label(s: Seq<char>) -> Option<Priority> {
    if s == "Low"@ {
        Some(Priority::Low)
    } else if s == "Normal"@ {
        Some(Priority::Normal)
    } else if s == "High"@ {
        Some(Priority::High)
    } else if s == "Urgent"@ {
        Some(Priority::Urgent)
    } else {
        None
    }
}

pub fn priority_str(p: &Priority) -> (r: String)
    ensures
        r@ == priority_label(*p),
{
    match p {
        Priority::Low => "Low".to_owned(),
        Priority::Normal => "Normal".to_owned(),
        Priority::High => "High".to_owned(),
        Priority::Urgent => "Urgent".to_owned(),
    }
}

/// Exact-match parse of a priority label, as ingress applies it.
pub fn parse_priority(s: &str) -> (r: Result<Priority, AppError>)
    ensures
        match r {
            Ok(p) => priority_of_label(s@) == Some(p),
            Err(e) => priority_of_label(s@) is None && e is BadRequest,
        },
{
    let t = s.to_owned();
    if t == "Low".to_owned() {
        Ok(Priority::Low)
    } else if t == "Normal".to_owned() {
        Ok(Priority::Normal)
    } else if t == "High".to_owned() {
        Ok(Priority::High)
    } else if t == "Urgent".to_owned() {
        Ok(Priority::Urgent)
    } else {
        Err(AppError::BadRequest("unknown priority, expected Low/Normal/High/Urgent".to_owned()))
    }
}

/// Wire label of an order status.
pub open spec fn order_status_label(s: OrderStatus) -> Seq<char> {
    match s {
        OrderStatus::Pending => "Pending"@,
        OrderStatus::Assigned => "Assigned"@,
        OrderStatus::InTransit => "InTransit"@,
        OrderStatus::Delivered => "Delivered"@,
    }
}

pub fn order_status_str(s: &OrderStatus) -> (r: String)
    ensures
        r@ == order_status_label(*s),
{
    match s {
        OrderStatus::Pending => "Pending".to_owned(),
        OrderStatus::Assigned => "Assigned".to_owned(),
        OrderStatus::InTransit => "InTransit".to_owned(),
        OrderStatus::Delivered => "Delivered".to_owned(),
    }
}

/// The priority labels round-trip exactly: parsing a label yields the
/// priority it was printed from.
pub proof fn lemma_priority_label_round_trip(p: Priority)
    ensures
        priority_of_label(priority_label(p)) == Some(p),
{
    reveal_strlit("Low");
    reveal_strlit("Normal");
    reveal_strlit("High");
    reveal_strlit("Urgent");
    assert("Low"@.len() == 3 && "Normal"@.len() == 6 && "High"@.len() == 4 && "Urgent"@.len()
        == 6);
    assert("Urgent"@ != "Normal"@) by {
        assert("Urgent"@[0] == 'U' && "Normal"@[0] == 'N');
    }
}

/// The courier status labels round-trip exactly.
pub proof fn lemma_courier_status_label_round_trip(s: CourierStatus)
    ensures
        courier_status_of_label(courier_status_label(s)) == Some(s),
{
    reveal_strlit("Available");
    reveal_strlit("Busy");
    reveal_strlit("Offline");
    assert("Available"@.len() == 9 && "Busy"@.len() == 4 && "Offline"@.len() == 7);
}

} // verus!
