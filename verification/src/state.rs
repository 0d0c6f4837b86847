//! The shared state registry: couriers, orders and assignments keyed by ID,
//! the bounded FIFO order queue, and the metric counters the engine keeps.
//!
//! Everything here is owned data with one well-formedness invariant `wf`,
//! established by the constructor and preserved by every mutation. The
//! invariant carries the cross-entity rules of the system: loads never exceed
//! capacities, non-pending orders always name a courier, every assignment
//! links an assigned order to an existing courier, no order is assigned
//! twice, the sum of courier loads equals the number of assignments, and the
//! queue-depth gauge equals both the queue length and the difference between
//! sends and receives.

use vstd::prelude::*;

use crate::error::AppError;
use crate::models::{Assignment, Courier, CourierStatus, DeliveryOrder, GeoPoint, OrderStatus, RATING_MAX_MILLI};

verus! {

/// The metric counters the engine keeps. Latency histograms live with the
/// text encoder outside the library; these integers are the source of truth
/// for `assignments_total` and `orders_in_queue`.
#[derive(Clone, Copy, Debug, PartialEq, Eq, Structural)]
pub struct Metrics {
    pub assignments_success: u64,
    pub assignments_error: u64,
    pub orders_in_queue: u64,
    pub enqueued_total: u64,
    pub dequeued_total: u64,
}

impl Metrics {
    pub fn new() -> (m: Metrics)
        ensures
            m == (Metrics {
                assignments_success: 0u64,
                assignments_error: 0u64,
                orders_in_queue: 0u64,
                enqueued_total: 0u64,
                dequeued_total: 0u64,
            }),
    {
        Metrics {
            assignments_success: 0,
            assignments_error: 0,
            orders_in_queue: 0,
            enqueued_total: 0,
            dequeued_total: 0,
        }
    }
}

/// Sum of the current loads of a sequence of couriers.
pub open spec fn sum_loads(s: Seq<Courier>) -> int
    decreases s.len(),
{
    if s.len() == 0 {
        0
    } else {
        sum_loads(s.drop_last()) + s.last().current_load
    }
}

/// Appending a courier adds its load to the sum.
pub proof fn lemma_sum_loads_push(s: Seq<Courier>, c: Courier)
    ensures
        sum_loads(s.push(c)) == sum_loads(s) + c.current_load,
{
    assert(s.push(c).drop_last() =~= s);
}

/// Replacing one courier shifts the sum by the load difference.
pub proof fn lemma_sum_loads_update(s: Seq<Courier>, i: int, c: Courier)
    requires
        0 <= i < s.len(),
    ensures
        sum_loads(s.update(i, c)) == sum_loads(s) - s[i].current_load + c.current_load,
    decreases s.len(),
{
    if i == s.len() - 1 {
        assert(s.update(i, c).drop_last() =~= s.drop_last());
        assert(s.update(i, c).last() == c);
    } else {
        assert(s.update(i, c).drop_last() =~= s.drop_last().update(i, c));
        assert(s.update(i, c).last() == s.last());
        lemma_sum_loads_update(s.drop_last(), i, c);
    }
}

/// A courier can take an order: available with spare capacity.
pub open spec fn eligible(c: Courier) -> bool {
    c.status == CourierStatus::Available && c.current_load < c.capacity
}

/// The registry, the queue and the metrics, under single ownership.
pub struct AppState {
    pub couriers: Vec<Courier>,
    pub orders: Vec<DeliveryOrder>,
    pub assignments: Vec<Assignment>,
    /// Order IDs waiting for the engine, oldest first.
    pub queue: Vec<u128>,
    pub queue_capacity: usize,
    pub event_buffer_size: usize,
    pub metrics: Metrics,
}

impl AppState {
    pub open spec fn couriers_wf(self) -> bool {
        &&& (forall|i: int, j: int|
            0 <= i < j < self.couriers@.len() ==> self.couriers@[i].id != self.couriers@[j].id)
        &&& (forall|i: int| 0 <= i < self.couriers@.len() ==> (#[trigger] self.couriers@[i]).wf())
    }

    pub open spec fn orders_wf(self) -> bool {
        &&& (forall|i: int, j: int|
            0 <= i < j < self.orders@.len() ==> self.orders@[i].id != self.orders@[j].id)
        &&& (forall|i: int| 0 <= i < self.orders@.len() ==> (#[trigger] self.orders@[i]).wf())
    }

    pub open spec fn has_courier(self, id: u128) -> bool {
        exists|i: int| 0 <= i < self.couriers@.len() && (#[trigger] self.couriers@[i]).id == id
    }

    pub open spec fn has_order(self, id: u128) -> bool {
        exists|i: int| 0 <= i < self.orders@.len() && (#[trigger] self.orders@[i]).id == id
    }

    /// One assignment record is linked: its order exists, is assigned to
    /// exactly that courier, and the courier exists.
    pub open spec fn linked(self, a: Assignment) -> bool {
        &&& exists|i: int|
            0 <= i < self.orders@.len() && (#[trigger] self.orders@[i]).id == a.order_id
                && self.orders@[i].status == OrderStatus::Assigned
                && self.orders@[i].assigned_courier == Some(a.courier_id)
        &&& self.has_courier(a.courier_id)
    }

    pub open spec fn assignments_wf(self) -> bool {
        &&& (forall|k: int|
            0 <= k < self.assignments@.len() ==> self.linked(#[trigger] self.assignments@[k]))
        &&& (forall|k: int|
            0 <= k < self.assignments@.len() ==> (#[trigger] self.assignments@[k]).wf())
        &&& (forall|k: int, l: int|
            0 <= k < l < self.assignments@.len() ==> self.assignments@[k].order_id
                != self.assignments@[l].order_id)
    }

    /// Some stored order carries this ID and still waits, pending.
    pub open spec fn queued_order_pending(self, id: u128) -> bool {
        exists|k: int|
            0 <= k < self.orders@.len() && (#[trigger] self.orders@[k]).id == id
                && self.orders@[k].status == OrderStatus::Pending
    }

    pub open spec fn queue_wf(self) -> bool {
        &&& self.queue@.len() <= self.queue_capacity
        &&& (forall|i: int, j: int|
            0 <= i < j < self.queue@.len() ==> self.queue@[i] != self.queue@[j])
        &&& (forall|qi: int|
            0 <= qi < self.queue@.len() ==> self.queued_order_pending(
                #[trigger] self.queue@[qi],
            ))
        &&& self.metrics.orders_in_queue == self.queue@.len()
        &&& self.metrics.enqueued_total == self.metrics.dequeued_total + self.queue@.len()
    }

    /// The cross-entity invariant of the whole registry.
    pub open spec fn wf(self) -> bool {
        &&& self.couriers_wf()
        &&& self.orders_wf()
        &&& self.assignments_wf()
        &&& self.queue_wf()
        &&& sum_loads(self.couriers@) == self.assignments@.len()
    }

    /// A fresh registry with an empty queue of the given capacity.
    pub fn new(order_queue_size: usize, event_buffer_size: usize) -> (s: AppState)
        ensures
            s.wf(),
            s.couriers@.len() == 0,
            s.orders@.len() == 0,
            s.assignments@.len() == 0,
            s.queue@.len() == 0,
            s.queue_capacity == order_queue_size,
            s.event_buffer_size == event_buffer_size,
            s.metrics == (Metrics {
                assignments_success: 0u64,
                assignments_error: 0u64,
                orders_in_queue: 0u64,
                enqueued_total: 0u64,
                dequeued_total: 0u64,
            }),
    {
        AppState {
            couriers: Vec::new(),
            orders: Vec::new(),
            assignments: Vec::new(),
            queue: Vec::new(),
            queue_capacity: order_queue_size,
            event_buffer_size,
            metrics: Metrics::new(),
        }
    }

    /// Index of the courier with this ID, if any.
    pub fn find_courier(&self, id: u128) -> (r: Option<usize>)
        ensures
            match r {
                Some(i) => i < self.couriers@.len() && self.couriers@[i as int].id == id,
                None => !self.has_courier(id),
            },
    {
        let mut i: usize = 0;
        while i < self.couriers.len()
            invariant
                i <= self.couriers@.len(),
                forall|j: int| 0 <= j < i ==> (#[trigger] self.couriers@[j]).id != id,
            decreases self.couriers@.len() - i,
        {
            if self.couriers[i].id == id {
                return Some(i);
            }
            i = i + 1;
        }
        None
    }

    /// Index of the order with this ID, if any.
    pub fn find_order(&self, id: u128) -> (r: Option<usize>)
        ensures
            match r {
                Some(i) => i < self.orders@.len() && self.orders@[i as int].id == id,
                None => !self.has_order(id),
            },
    {
        let mut i: usize = 0;
        while i < self.orders.len()
            invariant
                i <= self.orders@.len(),
                forall|j: int| 0 <= j < i ==> (#[trigger] self.orders@[j]).id != id,
            decreases self.orders@.len() - i,
        {
            if self.orders[i].id == id {
                return Some(i);
            }
            i = i + 1;
        }
        None
    }

    /// Whether this order ID currently waits in the queue.
    pub fn queue_contains(&self, id: u128) -> (r: bool)
        ensures
            r == exists|qi: int| 0 <= qi < self.queue@.len() && self.queue@[qi] == id,
    {
        let mut i: usize = 0;
        while i < self.queue.len()
            invariant
                i <= self.queue@.len(),
                forall|j: int| 0 <= j < i ==> self.queue@[j] != id,
            decreases self.queue@.len() - i,
        {
            if self.queue[i] == id {
                return true;
            }
            i = i + 1;
        }
        false
    }

    /// Current entity counts, as the health endpoint reports them.
    pub fn health(&self) -> (r: (usize, usize, usize))
        ensures
            r.0 == self.couriers@.len(),
            r.1 == self.orders@.len(),
            r.2 == self.assignments@.len(),
    {
        (self.couriers.len(), self.orders.len(), self.assignments.len())
    }

    /// Snapshot of all couriers.
    pub fn list_couriers(&self) -> (r: Vec<Courier>)
        ensures
            r@.len() == self.couriers@.len(),
            forall|i: int| 0 <= i < r@.len() ==> r@[i] == self.couriers@[i],
    {
        let mut out: Vec<Courier> = Vec::new();
        let mut i: usize = 0;
        while i < self.couriers.len()
            invariant
                i <= self.couriers@.len(),
                out@.len() == i,
                forall|j: int| 0 <= j < i ==> out@[j] == self.couriers@[j],
            decreases self.couriers@.len() - i,
        {
            out.push(self.couriers[i].clone());
            i = i + 1;
        }
        out
    }

    /// Snapshot of all assignments.
    pub fn list_assignments(&self) -> (r: Vec<Assignment>)
        ensures
            r@.len() == self.assignments@.len(),
            forall|i: int| 0 <= i < r@.len() ==> r@[i] == self.assignments@[i],
    {
        let mut out: Vec<Assignment> = Vec::new();
        let mut i: usize = 0;
        while i < self.assignments.len()
            invariant
                i <= self.assignments@.len(),
                out@.len() == i,
                forall|j: int| 0 <= j < i ==> out@[j] == self.assignments@[j],
            decreases self.assignments@.len() - i,
        {
            out.push(self.assignments[i].clone());
            i = i + 1;
        }
        out
    }

    /// The order with this ID, or `NotFound`.
    pub fn get_order(&self, id: u128) -> (r: Result<DeliveryOrder, AppError>)
        ensures
            match r {
                Ok(o) => self.has_order(id) && exists|i: int|
                    0 <= i < self.orders@.len() && (#[trigger] self.orders@[i]).id == id
                        && o == self.orders@[i],
                Err(e) => !self.has_order(id) && e is NotFound,
            },
    {
        match self.find_order(id) {
            Some(i) => Ok(self.orders[i].clone()),
            None => Err(AppError::NotFound("order not found".to_owned())),
        }
    }

    /// Validates and stores a new courier under the given ID and time.
    ///
    /// The name must be non-blank and the capacity positive (else
    /// `BadRequest`, with nothing stored); capacities above 255 are capped
    /// and ratings clamped into the five-star range. A colliding ID is an
    /// internal error, since IDs are expected to be fresh.
    pub fn create_courier_at(
        &mut self,
        name: String,
        location: GeoPoint,
        capacity: u32,
        rating_milli: i64,
        id: u128,
        now: i64,
    ) -> (r: Result<Courier, AppError>)
        requires
            old(self).wf(),
        ensures
            final(self).wf(),
            match r {
                Ok(c) => {
                    &&& crate::wire::trim_of(name@).len() != 0
                    &&& capacity != 0
                    &&& !old(self).has_courier(id)
                    &&& c == (Courier {
                        id,
                        name,
                        location,
                        capacity: if capacity > 255 { 255u8 } else { capacity as u8 },
                        current_load: 0u8,
                        status: CourierStatus::Available,
                        rating_milli: if rating_milli < 0 {
                            0u32
                        } else if rating_milli > RATING_MAX_MILLI as i64 {
                            RATING_MAX_MILLI
                        } else {
                            rating_milli as u32
                        },
                        updated_at: now,
                    })
                    &&& final(self).couriers@ == old(self).couriers@.push(c)
                    &&& final(self).orders == old(self).orders
                    &&& final(self).assignments == old(self).assignments
                    &&& final(self).queue == old(self).queue
                    &&& final(self).queue_capacity == old(self).queue_capacity
                    &&& final(self).metrics == old(self).metrics
                },
                Err(e) => {
                    &&& *final(self) == *old(self)
                    &&& (e is BadRequest || e is Internal)
                    &&& (e is BadRequest <==> (crate::wire::trim_of(name@).len() == 0 || capacity
                        == 0))
                    &&& (e is Internal <==> (crate::wire::trim_of(name@).len() != 0 && capacity
                        != 0 && old(self).has_courier(id)))
                },
            },
    {
        if crate::wire::trimmed(name.as_str()).is_empty() {
            return Err(AppError::BadRequest("name cannot be empty".to_owned()));
        }
        if capacity == 0 {
            return Err(AppError::BadRequest("capacity must be > 0".to_owned()));
        }
        if self.find_courier(id).is_some() {
            return Err(AppError::Internal("courier id collision".to_owned()));
        }
        let courier = Courier {
            id,
            name,
            location,
            capacity: if capacity > 255 { 255u8 } else { capacity as u8 },
            current_load: 0,
            status: CourierStatus::Available,
            rating_milli: if rating_milli < 0 {
                0u32
            } else if rating_milli > RATING_MAX_MILLI as i64 {
                RATING_MAX_MILLI
            } else {
                rating_milli as u32
            },
            updated_at: now,
        };
        let out = courier.clone();
        proof {
            lemma_sum_loads_push(self.couriers@, courier);
        }
        self.couriers.push(courier);
        proof {
            assert forall|k: int| 0 <= k < self.assignments@.len() implies self.linked(
                #[trigger] self.assignments@[k],
            ) by {
                assert(old(self).linked(old(self).assignments@[k]));
                let i = choose|i: int|
                    0 <= i < old(self).orders@.len() && (#[trigger] old(self).orders@[i]).id
                        == old(self).assignments@[k].order_id && old(self).orders@[i].status
                        == OrderStatus::Assigned && old(self).orders@[i].assigned_courier == Some(
                        old(self).assignments@[k].courier_id,
                    );
                assert(self.orders@[i] == old(self).orders@[i]);
                let j = choose|j: int|
                    0 <= j < old(self).couriers@.len() && (#[trigger] old(self).couriers@[j]).id
                        == old(self).assignments@[k].courier_id;
                assert(self.couriers@[j] == old(self).couriers@[j]);
            }
        }
        Ok(out)
    }

    /// Patches the status of an existing courier; `NotFound` otherwise.
    pub fn update_courier_status(&mut self, id: u128, status: CourierStatus, now: i64) -> (r:
        Result<Courier, AppError>)
        requires
            old(self).wf(),
        ensures
            final(self).wf(),
            match r {
                Ok(c) => {
                    &&& old(self).has_courier(id)
                    &&& exists|i: int|
                        {
                            &&& 0 <= i < old(self).couriers@.len()
                            &&& (#[trigger] old(self).couriers@[i]).id == id
                            &&& c == (Courier {
                                status,
                                updated_at: now,
                                ..old(self).couriers@[i]
                            })
                            &&& final(self).couriers@ == old(self).couriers@.update(i, c)
                        }
                    &&& final(self).orders == old(self).orders
                    &&& final(self).assignments == old(self).assignments
                    &&& final(self).queue == old(self).queue
                    &&& final(self).queue_capacity == old(self).queue_capacity
                    &&& final(self).metrics == old(self).metrics
                },
                Err(e) => {
                    &&& *final(self) == *old(self)
                    &&& !old(self).has_courier(id)
                    &&& e is NotFound
                },
            },
    {
        let found = self.find_courier(id);
        match found {
            None => Err(AppError::NotFound("courier not found".to_owned())),
            Some(i) => {
                let c0 = self.couriers[i].clone();
                let c = Courier {
                    id: c0.id,
                    name: c0.name,
                    location: c0.location,
                    capacity: c0.capacity,
                    current_load: c0.current_load,
                    status,
                    rating_milli: c0.rating_milli,
                    updated_at: now,
                };
                let out = c.clone();
                self.couriers[i] = c;
                proof {
                    self.lemma_courier_update_keeps_links(*old(self), i as int);
                }
                Ok(out)
            },
        }
    }

    /// Patches the location of an existing courier; `NotFound` otherwise.
    pub fn update_courier_location(&mut self, id: u128, location: GeoPoint, now: i64) -> (r:
        Result<Courier, AppError>)
        requires
            old(self).wf(),
        ensures
            final(self).wf(),
            match r {
                Ok(c) => {
                    &&& old(self).has_courier(id)
                    &&& exists|i: int|
                        {
                            &&& 0 <= i < old(self).couriers@.len()
                            &&& (#[trigger] old(self).couriers@[i]).id == id
                            &&& c == (Courier {
                                location,
                                updated_at: now,
                                ..old(self).couriers@[i]
                            })
                            &&& final(self).couriers@ == old(self).couriers@.update(i, c)
                        }
                    &&& final(self).orders == old(self).orders
                    &&& final(self).assignments == old(self).assignments
                    &&& final(self).queue == old(self).queue
                    &&& final(self).queue_capacity == old(self).queue_capacity
                    &&& final(self).metrics == old(self).metrics
                },
                Err(e) => {
                    &&& *final(self) == *old(self)
                    &&& !old(self).has_courier(id)
                    &&& e is NotFound
                },
            },
    {
        let found = self.find_courier(id);
        match found {
            None => Err(AppError::NotFound("courier not found".to_owned())),
            Some(i) => {
                let c0 = self.couriers[i].clone();
                let c = Courier {
                    id: c0.id,
                    name: c0.name,
                    location,
                    capacity: c0.capacity,
                    current_load: c0.current_load,
                    status: c0.status,
                    rating_milli: c0.rating_milli,
                    updated_at: now,
                };
                let out = c.clone();
                self.couriers[i] = c;
                proof {
                    self.lemma_courier_update_keeps_links(*old(self), i as int);
                }
                Ok(out)
            },
        }
    }

    /// Replacing one courier with one of the same ID and load keeps every
    /// assignment linked and the invariant intact.
    proof fn lemma_courier_update_keeps_links(self, prev: AppState, i: int)
        requires
            prev.wf(),
            0 <= i < prev.couriers@.len(),
            self.couriers@.len() == prev.couriers@.len(),
            forall|j: int|
                0 <= j < prev.couriers@.len() && j != i ==> self.couriers@[j]
                    == prev.couriers@[j],
            self.couriers@[i].id == prev.couriers@[i].id,
            self.couriers@[i].wf(),
            self.couriers@[i].current_load == prev.couriers@[i].current_load,
            self.orders == prev.orders,
            self.assignments == prev.assignments,
            self.queue == prev.queue,
            self.queue_capacity == prev.queue_capacity,
            self.metrics == prev.metrics,
        ensures
            self.wf(),
    {
        assert(forall|j: int|
            0 <= j < self.couriers@.len() ==> (#[trigger] self.couriers@[j]).id
                == prev.couriers@[j].id);
        assert forall|k: int| 0 <= k < self.assignments@.len() implies self.linked(
            #[trigger] self.assignments@[k],
        ) by {
            assert(prev.linked(prev.assignments@[k]));
            let j = choose|j: int|
                0 <= j < prev.couriers@.len() && (#[trigger] prev.couriers@[j]).id
                    == prev.assignments@[k].courier_id;
            assert(self.couriers@[j].id == prev.assignments@[k].courier_id);
        }
        assert(self.couriers@ =~= prev.couriers@.update(i, self.couriers@[i]));
        lemma_sum_loads_update(prev.couriers@, i, self.couriers@[i]);
    }
}

/// In any reachable registry, every courier's load stays within its
/// capacity.
pub proof fn lemma_loads_within_capacity(s: AppState)
    requires
        s.wf(),
    ensures
        forall|i: int|
            0 <= i < s.couriers@.len() ==> (#[trigger] s.couriers@[i]).current_load
                <= s.couriers@[i].capacity,
{
}

/// In any reachable registry, an order that is not pending — assigned, in
/// transit or delivered — always names a courier, and a pending one never
/// does.
pub proof fn lemma_nonpending_orders_have_courier(s: AppState)
    requires
        s.wf(),
    ensures
        forall|i: int|
            0 <= i < s.orders@.len() && (#[trigger] s.orders@[i]).status != OrderStatus::Pending
                ==> s.orders@[i].assigned_courier is Some,
        forall|i: int|
            0 <= i < s.orders@.len() && (#[trigger] s.orders@[i]).status == OrderStatus::Pending
                ==> s.orders@[i].assigned_courier is None,
{
}

/// In any reachable registry, every assignment names an existing order in
/// the assigned state, carrying exactly that courier, and an existing
/// courier.
pub proof fn lemma_assignments_linked(s: AppState)
    requires
        s.wf(),
    ensures
        forall|k: int| 0 <= k < s.assignments@.len() ==> s.linked(#[trigger] s.assignments@[k]),
{
}

/// In any reachable registry there is at most one assignment per order.
pub proof fn lemma_one_assignment_per_order(s: AppState)
    requires
        s.wf(),
    ensures
        forall|k: int, l: int|
            0 <= k < l < s.assignments@.len() ==> s.assignments@[k].order_id
                != s.assignments@[l].order_id,
{
}

/// In any reachable registry, the courier loads sum to the number of
/// assignments the engine has produced.
pub proof fn lemma_loads_equal_assignments(s: AppState)
    requires
        s.wf(),
    ensures
        sum_loads(s.couriers@) == s.assignments@.len(),
{
}

/// In any reachable registry, the queue-depth gauge is non-negative and
/// equals both the queue length and sends minus receives.
pub proof fn lemma_queue_gauge(s: AppState)
    requires
        s.wf(),
    ensures
        s.metrics.orders_in_queue == s.queue@.len(),
        s.metrics.orders_in_queue == s.metrics.enqueued_total - s.metrics.dequeued_total,
        s.metrics.orders_in_queue >= 0,
{
}

} // verus!
