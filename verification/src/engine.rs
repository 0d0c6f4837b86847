//! The assignment engine: the bounded queue endpoints and the serialized
//! processing of one order — candidate filter, scoring, selection and the
//! atomic commit of order, courier and assignment.
//!
//! Waiting (queue suspension, the deferred-retry sleep) happens outside the
//! library; every decision — who is eligible, who wins, what the commit
//! writes — is made and proved here. Pickup distances are computed outside
//! (they are spherical trigonometry) and handed in per candidate; the
//! contracts hold for every value handed in.

use vstd::prelude::*;

use crate::error::AppError;
use crate::models::{Assignment, Courier, CourierStatus, DeliveryOrder, GeoPoint, OrderStatus, Priority};
use crate::scoring::{
    compute_score, score_ge, score_gt_exec, spec_breakdown, spec_total_score, Score,
    ScoreBreakdown,
};
use crate::state::{eligible, lemma_sum_loads_update, AppState};

verus! {

/// What one engine iteration decided for one order.
#[derive(Clone, Copy, Debug)]
pub enum ProcessOutcome {
    /// A winner was committed; the record is to be published.
    Assigned(Assignment),
    /// No courier was eligible; the order is to be re-queued after a pause.
    NoCandidate,
}

/// The sequence holds this exact courier record somewhere.
pub open spec fn contains_courier(s: Seq<Courier>, c: Courier) -> bool {
    exists|i: int| 0 <= i < s.len() && s[i] == c
}

/// The registries and the capacity of `b` are those of `a`: only the queue
/// and the counters may differ.
pub open spec fn same_registries(a: AppState, b: AppState) -> bool {
    &&& a.couriers == b.couriers
    &&& a.orders == b.orders
    &&& a.assignments == b.assignments
    &&& a.queue_capacity == b.queue_capacity
}

/// Rational comparison is transitive.
proof fn lemma_score_ge_trans(x: Score, y: Score, z: Score)
    requires
        1 <= x.den,
        1 <= y.den,
        1 <= z.den,
        score_ge(x, y),
        score_ge(y, z),
    ensures
        score_ge(x, z),
{
    let xn = x.num as int;
    let xd = x.den as int;
    let yn = y.num as int;
    let yd = y.den as int;
    let zn = z.num as int;
    let zd = z.den as int;
    assert(xn * zd >= zn * xd) by (nonlinear_arith)
        requires
            xn * yd >= yn * xd,
            yn * zd >= zn * yd,
            xd >= 1,
            yd >= 1,
            zd >= 1,
            xn >= 0,
            yn >= 0,
            zn >= 0,
    ;
}

impl AppState {
    /// The index of the order with this ID (meaningful when it exists).
    pub open spec fn order_index(self, id: u128) -> int {
        choose|i: int| 0 <= i < self.orders@.len() && (#[trigger] self.orders@[i]).id == id
    }

    /// The index of the courier with this ID (meaningful when it exists).
    pub open spec fn courier_index(self, id: u128) -> int {
        choose|i: int| 0 <= i < self.couriers@.len() && (#[trigger] self.couriers@[i]).id == id
    }

    /// With distinct IDs, any index holding the ID is the index.
    proof fn lemma_order_index_is(self, id: u128, i: int)
        requires
            self.wf(),
            0 <= i < self.orders@.len(),
            self.orders@[i].id == id,
        ensures
            self.order_index(id) == i,
    {
        let j = self.order_index(id);
        assert(0 <= j < self.orders@.len() && self.orders@[j].id == id);
    }

    proof fn lemma_courier_index_is(self, id: u128, i: int)
        requires
            self.wf(),
            0 <= i < self.couriers@.len(),
            self.couriers@[i].id == id,
        ensures
            self.courier_index(id) == i,
    {
        let j = self.courier_index(id);
        assert(0 <= j < self.couriers@.len() && self.couriers@[j].id == id);
    }

    /// Entry `j` of the distance list names an eligible stored courier.
    pub open spec fn candidate_entry(self, dists: Seq<(u128, u64)>, j: int) -> bool {
        &&& 0 <= j < dists.len()
        &&& exists|i: int|
            0 <= i < self.couriers@.len() && (#[trigger] self.couriers@[i]).id == dists[j].0
                && eligible(self.couriers@[i])
    }

    /// The score entry `j` earns for an order of this priority.
    pub open spec fn entry_score(self, dists: Seq<(u128, u64)>, j: int, p: Priority) -> Score {
        spec_total_score(self.couriers@[self.courier_index(dists[j].0)], dists[j].1, p)
    }

    pub open spec fn entry_breakdown(self, dists: Seq<(u128, u64)>, j: int, p: Priority) -> ScoreBreakdown {
        spec_breakdown(self.couriers@[self.courier_index(dists[j].0)], dists[j].1, p)
    }

    /// Whether this ID waits in the queue.
    pub open spec fn id_queued(self, id: u128) -> bool {
        exists|qi: int| 0 <= qi < self.queue@.len() && self.queue@[qi] == id
    }

    /// Sends an order ID to the queue, pairing the send with the gauge
    /// increment. It refuses (returning false, changing nothing) when the ID
    /// names no stored pending order, is already queued, or the queue is
    /// full — a full queue is the caller's signal to wait and retry.
    pub fn enqueue_order(&mut self, order_id: u128) -> (r: bool)
        requires
            old(self).wf(),
            old(self).metrics.enqueued_total < u64::MAX,
        ensures
            final(self).wf(),
            r <==> (old(self).queued_order_pending(order_id) && !old(self).id_queued(order_id)
                && old(self).queue@.len() < old(self).queue_capacity),
            r ==> {
                &&& final(self).queue@ == old(self).queue@.push(order_id)
                &&& final(self).metrics == (crate::state::Metrics {
                    orders_in_queue: (old(self).metrics.orders_in_queue + 1) as u64,
                    enqueued_total: (old(self).metrics.enqueued_total + 1) as u64,
                    ..old(self).metrics
                })
                &&& same_registries(*old(self), *final(self))
            },
            !r ==> *final(self) == *old(self),
    {
        let found = self.find_order(order_id);
        let pending = match found {
            Some(i) => {
                let st = self.orders[i].status;
                proof {
                    if st == OrderStatus::Pending {
                        assert(self.queued_order_pending(order_id));
                    } else {
                        assert forall|k: int|
                            0 <= k < self.orders@.len() && (#[trigger] self.orders@[k]).id
                                == order_id implies self.orders@[k].status != OrderStatus::Pending by {
                            if k != i as int {
                                assert(self.orders@[k].id != self.orders@[i as int].id);
                            }
                        }
                    }
                }
                st == OrderStatus::Pending
            },
            None => {
                proof {
                    if self.queued_order_pending(order_id) {
                        let k = choose|k: int|
                            0 <= k < self.orders@.len() && (#[trigger] self.orders@[k]).id
                                == order_id && self.orders@[k].status == OrderStatus::Pending;
                        assert(self.has_order(order_id));
                    }
                }
                false
            },
        };
        if !pending {
            return false;
        }
        if self.queue_contains(order_id) {
            return false;
        }
        if self.queue.len() >= self.queue_capacity {
            return false;
        }
        self.queue.push(order_id);
        self.metrics.orders_in_queue = self.metrics.orders_in_queue + 1;
        self.metrics.enqueued_total = self.metrics.enqueued_total + 1;
        proof {
            assert forall|qi: int| 0 <= qi < self.queue@.len() implies self.queued_order_pending(
                #[trigger] self.queue@[qi],
            ) by {
                if qi < self.queue@.len() - 1 {
                    assert(old(self).queued_order_pending(old(self).queue@[qi]));
                }
            }
        }
        true
    }

    /// Receives the oldest queued order, pairing the receive with the gauge
    /// decrement. Returns nothing exactly when the queue is empty.
    pub fn dequeue_order(&mut self) -> (r: Option<DeliveryOrder>)
        requires
            old(self).wf(),
        ensures
            final(self).wf(),
            r is None <==> old(self).queue@.len() == 0,
            r is None ==> *final(self) == *old(self),
            match r {
                Some(o) => {
                    &&& o.id == old(self).queue@[0]
                    &&& o.status == OrderStatus::Pending
                    &&& old(self).has_order(o.id)
                    &&& o == old(self).orders@[old(self).order_index(o.id)]
                    &&& final(self).queue@ == old(self).queue@.drop_first()
                    &&& final(self).metrics == (crate::state::Metrics {
                        orders_in_queue: (old(self).metrics.orders_in_queue - 1) as u64,
                        dequeued_total: (old(self).metrics.dequeued_total + 1) as u64,
                        ..old(self).metrics
                    })
                    &&& same_registries(*old(self), *final(self))
                },
                None => true,
            },
    {
        if self.queue.len() == 0 {
            return None;
        }
        let id = self.queue[0];
        proof {
            assert(self.queued_order_pending(self.queue@[0]));
        }
        let oi = match self.find_order(id) {
            Some(i) => i,
            None => {
                proof {
                    let k = choose|k: int|
                        0 <= k < self.orders@.len() && (#[trigger] self.orders@[k]).id == id
                            && self.orders@[k].status == OrderStatus::Pending;
                    assert(self.has_order(id));
                    assert(false);
                }
                return None;
            },
        };
        let order = self.orders[oi].clone();
        proof {
            let k = choose|k: int|
                0 <= k < self.orders@.len() && (#[trigger] self.orders@[k]).id == id
                    && self.orders@[k].status == OrderStatus::Pending;
            if k != oi as int {
                assert(self.orders@[k].id != self.orders@[oi as int].id);
            }
            self.lemma_order_index_is(id, oi as int);
        }
        self.queue.remove(0);
        self.metrics.orders_in_queue = self.metrics.orders_in_queue - 1;
        self.metrics.dequeued_total = self.metrics.dequeued_total + 1;
        proof {
            assert(self.queue@ =~= old(self).queue@.drop_first());
            assert forall|qi: int| 0 <= qi < self.queue@.len() implies self.queued_order_pending(
                #[trigger] self.queue@[qi],
            ) by {
                assert(self.queue@[qi] == old(self).queue@[qi + 1]);
                assert(old(self).queued_order_pending(old(self).queue@[qi + 1]));
            }
            assert forall|i: int, j: int|
                0 <= i < j < self.queue@.len() implies self.queue@[i] != self.queue@[j] by {
                assert(self.queue@[i] == old(self).queue@[i + 1]);
                assert(self.queue@[j] == old(self).queue@[j + 1]);
            }
        }
        Some(order)
    }

    /// One count per engine iteration, labelled by outcome.
    pub fn record_outcome(&mut self, success: bool)
        requires
            old(self).wf(),
            old(self).metrics.assignments_success < u64::MAX,
            old(self).metrics.assignments_error < u64::MAX,
        ensures
            final(self).wf(),
            success ==> final(self).metrics == (crate::state::Metrics {
                assignments_success: (old(self).metrics.assignments_success + 1) as u64,
                ..old(self).metrics
            }),
            !success ==> final(self).metrics == (crate::state::Metrics {
                assignments_error: (old(self).metrics.assignments_error + 1) as u64,
                ..old(self).metrics
            }),
            same_registries(*old(self), *final(self)),
            final(self).queue == old(self).queue,
    {
        if success {
            self.metrics.assignments_success = self.metrics.assignments_success + 1;
        } else {
            self.metrics.assignments_error = self.metrics.assignments_error + 1;
        }
    }

    /// The candidate filter: clones of every eligible courier, in registry
    /// order. The engine's caller measures pickup distances for these.
    pub fn eligible_couriers(&self) -> (r: Vec<Courier>)
        ensures
            forall|k: int| 0 <= k < r@.len() ==> eligible(#[trigger] r@[k]),
            forall|k: int| 0 <= k < r@.len() ==> contains_courier(self.couriers@, #[trigger] r@[k]),
            forall|i: int|
                0 <= i < self.couriers@.len() && eligible(#[trigger] self.couriers@[i])
                    ==> contains_courier(r@, self.couriers@[i]),
    {
        let mut out: Vec<Courier> = Vec::new();
        let mut i: usize = 0;
        while i < self.couriers.len()
            invariant
                i <= self.couriers@.len(),
                forall|k: int| 0 <= k < out@.len() ==> eligible(#[trigger] out@[k]),
                forall|k: int|
                    0 <= k < out@.len() ==> contains_courier(
                        self.couriers@,
                        #[trigger] out@[k],
                    ),
                forall|ci: int|
                    0 <= ci < i && eligible(#[trigger] self.couriers@[ci]) ==> contains_courier(
                        out@,
                        self.couriers@[ci],
                    ),
            decreases self.couriers@.len() - i,
        {
            let ghost out0 = out@;
            let c = &self.couriers[i];
            if c.status == CourierStatus::Available && c.current_load < c.capacity {
                out.push(c.clone());
                proof {
                    assert(out@ == out0.push(self.couriers@[i as int]));
                    assert forall|k: int| 0 <= k < out@.len() implies eligible(#[trigger] out@[k])
                        && contains_courier(self.couriers@, out@[k]) by {
                        if k == out@.len() - 1 {
                            assert(out@[k] == self.couriers@[i as int]);
                        } else {
                            assert(out@[k] == out0[k]);
                        }
                    }
                    assert forall|ci: int|
                        0 <= ci < i + 1 && eligible(
                            #[trigger] self.couriers@[ci],
                        ) implies contains_courier(out@, self.couriers@[ci]) by {
                        if ci == i as int {
                            assert(out@[out@.len() - 1] == self.couriers@[ci]);
                        } else {
                            let k0 = choose|k: int|
                                0 <= k < out0.len() && out0[k] == self.couriers@[ci];
                            assert(out@[k0] == self.couriers@[ci]);
                        }
                    }
                }
            }
            i = i + 1;
        }
        out
    }

    /// Per-courier utilization in thousandths, as the gauge reports it.
    pub fn utilization_permille(&self, courier_id: u128) -> (r: Option<u32>)
        requires
            self.wf(),
        ensures
            match r {
                Some(u) => self.has_courier(courier_id) && u == (
                self.couriers@[self.courier_index(courier_id)].current_load as int * 1000) / (
                self.couriers@[self.courier_index(courier_id)].capacity as int),
                None => !self.has_courier(courier_id),
            },
    {
        match self.find_courier(courier_id) {
            Some(i) => {
                proof {
                    self.lemma_courier_index_is(courier_id, i as int);
                }
                let c = &self.couriers[i];
                Some((c.current_load as u32 * 1000) / (c.capacity as u32))
            },
            None => None,
        }
    }

    /// Validates and stores a new order, pending, under the given ID and
    /// time, then sends it to the queue. The boolean reports whether the
    /// queue had room; when it had not, the order is stored but unsent and
    /// the caller re-sends under back-pressure. A colliding ID is an
    /// internal error, since IDs are expected to be fresh.
    pub fn create_order_at(
        &mut self,
        pickup: GeoPoint,
        dropoff: GeoPoint,
        priority: Priority,
        id: u128,
        now: i64,
    ) -> (r: Result<(DeliveryOrder, bool), AppError>)
        requires
            old(self).wf(),
            old(self).metrics.enqueued_total < u64::MAX,
        ensures
            final(self).wf(),
            match r {
                Ok(p) => {
                    &&& !old(self).has_order(id)
                    &&& p.0 == (DeliveryOrder {
                        id,
                        pickup,
                        dropoff,
                        priority,
                        status: OrderStatus::Pending,
                        assigned_courier: None,
                        created_at: now,
                    })
                    &&& final(self).orders@ == old(self).orders@.push(p.0)
                    &&& (p.1 <==> old(self).queue@.len() < old(self).queue_capacity)
                    &&& (p.1 ==> final(self).queue@ == old(self).queue@.push(id))
                    &&& (!p.1 ==> final(self).queue == old(self).queue && final(self).metrics
                        == old(self).metrics)
                    &&& (p.1 ==> final(self).metrics == (crate::state::Metrics {
                        orders_in_queue: (old(self).metrics.orders_in_queue + 1) as u64,
                        enqueued_total: (old(self).metrics.enqueued_total + 1) as u64,
                        ..old(self).metrics
                    }))
                    &&& final(self).couriers == old(self).couriers
                    &&& final(self).assignments == old(self).assignments
                    &&& final(self).queue_capacity == old(self).queue_capacity
                },
                Err(e) => {
                    &&& *final(self) == *old(self)
                    &&& old(self).has_order(id)
                    &&& e is Internal
                },
            },
    {
        if self.find_order(id).is_some() {
            return Err(AppError::Internal("order id collision".to_owned()));
        }
        let order = DeliveryOrder {
            id,
            pickup,
            dropoff,
            priority,
            status: OrderStatus::Pending,
            assigned_courier: None,
            created_at: now,
        };
        proof {
            assert forall|qi: int|
                0 <= qi < self.queue@.len() implies #[trigger] self.queue@[qi] != id by {
                assert(self.queued_order_pending(self.queue@[qi]));
                let k = choose|k: int|
                    0 <= k < self.orders@.len() && (#[trigger] self.orders@[k]).id
                        == self.queue@[qi] && self.orders@[k].status == OrderStatus::Pending;
            }
        }
        self.orders.push(order);
        proof {
            assert forall|k: int| 0 <= k < self.assignments@.len() implies self.linked(
                #[trigger] self.assignments@[k],
            ) by {
                assert(old(self).linked(old(self).assignments@[k]));
                let i = choose|i: int|
                    0 <= i < old(self).orders@.len() && (#[trigger] old(self).orders@[i]).id
                        == old(self).assignments@[k].order_id && old(self).orders@[i].status
                        == OrderStatus::Assigned && old(self).orders@[i].assigned_courier == Some(
                        old(self).assignments@[k].courier_id,
                    );
                assert(self.orders@[i] == old(self).orders@[i]);
            }
            assert forall|qi: int| 0 <= qi < self.queue@.len() implies self.queued_order_pending(
                #[trigger] self.queue@[qi],
            ) by {
                assert(old(self).queued_order_pending(old(self).queue@[qi]));
                let k = choose|k: int|
                    0 <= k < old(self).orders@.len() && (#[trigger] old(self).orders@[k]).id
                        == old(self).queue@[qi] && old(self).orders@[k].status
                        == OrderStatus::Pending;
                assert(self.orders@[k] == old(self).orders@[k]);
            }
        }
        let sent = if self.queue.len() < self.queue_capacity {
            self.queue.push(id);
            self.metrics.orders_in_queue = self.metrics.orders_in_queue + 1;
            self.metrics.enqueued_total = self.metrics.enqueued_total + 1;
            true
        } else {
            false
        };
        proof {
            if sent {
                assert forall|qi: int|
                    0 <= qi < self.queue@.len() implies self.queued_order_pending(
                    #[trigger] self.queue@[qi],
                ) by {
                    if qi == self.queue@.len() - 1 {
                        assert(self.orders@[self.orders@.len() - 1] == order);
                    }
                }
            }
        }
        Ok((order, sent))
    }

    /// The commit of one assignment: the order flips to assigned, the winner
    /// takes one more unit of load (turning busy at capacity), the record is
    /// appended. The whole invariant survives.
    proof fn lemma_commit_wf(self, prev: AppState, oi: int, ci: int, a: Assignment)
        requires
            prev.wf(),
            0 <= oi < prev.orders@.len(),
            0 <= ci < prev.couriers@.len(),
            prev.orders@[oi].id == a.order_id,
            prev.orders@[oi].status == OrderStatus::Pending,
            prev.couriers@[ci].id == a.courier_id,
            eligible(prev.couriers@[ci]),
            !prev.id_queued(a.order_id),
            a.wf(),
            self.orders@ == prev.orders@.update(
                oi,
                (DeliveryOrder {
                    status: OrderStatus::Assigned,
                    assigned_courier: Some(a.courier_id),
                    ..prev.orders@[oi]
                }),
            ),
            self.couriers@ == prev.couriers@.update(
                ci,
                (Courier {
                    current_load: (prev.couriers@[ci].current_load + 1) as u8,
                    status: if prev.couriers@[ci].current_load + 1 == prev.couriers@[ci].capacity {
                        CourierStatus::Busy
                    } else {
                        prev.couriers@[ci].status
                    },
                    updated_at: a.assigned_at,
                    ..prev.couriers@[ci]
                }),
            ),
            self.assignments@ == prev.assignments@.push(a),
            self.queue == prev.queue,
            self.queue_capacity == prev.queue_capacity,
            self.metrics == prev.metrics,
        ensures
            self.wf(),
    {
        assert(forall|i: int|
            0 <= i < self.couriers@.len() ==> (#[trigger] self.couriers@[i]).id
                == prev.couriers@[i].id);
        assert(forall|i: int|
            0 <= i < self.orders@.len() ==> (#[trigger] self.orders@[i]).id
                == prev.orders@[i].id);
        // No existing assignment names this order: its order was pending.
        assert forall|k: int|
            0 <= k < prev.assignments@.len() implies (#[trigger] prev.assignments@[k]).order_id
            != a.order_id by {
            assert(prev.linked(prev.assignments@[k]));
            let i = choose|i: int|
                0 <= i < prev.orders@.len() && (#[trigger] prev.orders@[i]).id
                    == prev.assignments@[k].order_id && prev.orders@[i].status
                    == OrderStatus::Assigned && prev.orders@[i].assigned_courier == Some(
                    prev.assignments@[k].courier_id,
                );
            if prev.assignments@[k].order_id == a.order_id {
                if i != oi {
                    assert(prev.orders@[i].id != prev.orders@[oi].id);
                }
            }
        }
        // Every assignment, old and new, stays linked.
        assert forall|k: int| 0 <= k < self.assignments@.len() implies self.linked(
            #[trigger] self.assignments@[k],
        ) by {
            if k < prev.assignments@.len() {
                let b = prev.assignments@[k];
                assert(prev.linked(b));
                let i = choose|i: int|
                    0 <= i < prev.orders@.len() && (#[trigger] prev.orders@[i]).id == b.order_id
                        && prev.orders@[i].status == OrderStatus::Assigned
                        && prev.orders@[i].assigned_courier == Some(b.courier_id);
                assert(i != oi);
                assert(self.orders@[i] == prev.orders@[i]);
                let j = choose|j: int|
                    0 <= j < prev.couriers@.len() && (#[trigger] prev.couriers@[j]).id
                        == b.courier_id;
                assert(self.couriers@[j].id == b.courier_id);
                assert(self.assignments@[k] == b);
            } else {
                assert(self.assignments@[k] == a);
                assert(self.orders@[oi].id == a.order_id);
                assert(self.couriers@[ci].id == a.courier_id);
            }
        }
        // The queue never held this order, so its entries still point at
        // pending orders.
        assert forall|qi: int| 0 <= qi < self.queue@.len() implies self.queued_order_pending(
            #[trigger] self.queue@[qi],
        ) by {
            assert(prev.queued_order_pending(prev.queue@[qi]));
            let k = choose|k: int|
                0 <= k < prev.orders@.len() && (#[trigger] prev.orders@[k]).id == prev.queue@[qi]
                    && prev.orders@[k].status == OrderStatus::Pending;
            assert(prev.queue@[qi] != a.order_id);
            if k != oi {
                assert(self.orders@[k] == prev.orders@[k]);
            } else {
                assert(prev.orders@[oi].id == a.order_id);
            }
        }
        lemma_sum_loads_update(prev.couriers@, ci, self.couriers@[ci]);
    }

    /// One full engine `process(order)` step at a given assignment ID and
    /// time: filters the stored couriers down to the eligible ones named in
    /// `dists` (pairs of courier ID and pickup distance in metres), scores
    /// each, commits the maximum-score winner, and returns the new record.
    /// With no candidate it reports `NoCandidate` and changes nothing: the
    /// caller pauses and re-queues. An unknown, already-assigned or
    /// still-queued order is an error and changes nothing.
    pub fn process_order_at(
        &mut self,
        order_id: u128,
        dists: &Vec<(u128, u64)>,
        assignment_id: u128,
        now: i64,
    ) -> (r: Result<ProcessOutcome, AppError>)
        requires
            old(self).wf(),
        ensures
            final(self).wf(),
            match r {
                Err(e) => {
                    &&& *final(self) == *old(self)
                    &&& (e is NotFound || e is Internal)
                    &&& ((e is NotFound) <==> !old(self).has_order(order_id))
                    &&& ((e is Internal) <==> (old(self).has_order(order_id) && (old(
                        self,
                    ).orders@[old(self).order_index(order_id)].status != OrderStatus::Pending
                        || old(self).id_queued(order_id))))
                },
                Ok(po) => {
                    &&& old(self).has_order(order_id)
                    &&& old(self).orders@[old(self).order_index(order_id)].status
                        == OrderStatus::Pending
                    &&& !old(self).id_queued(order_id)
                    &&& match po {
                        ProcessOutcome::NoCandidate => {
                            &&& *final(self) == *old(self)
                            &&& forall|j: int| !old(self).candidate_entry(dists@, j)
                        },
                        ProcessOutcome::Assigned(a) => {
                            let prev = *old(self);
                            let oi = prev.order_index(order_id);
                            let prio = prev.orders@[oi].priority;
                            let ci = prev.courier_index(a.courier_id);
                            &&& exists|j: int|
                                (#[trigger] prev.candidate_entry(dists@, j)) && dists@[j].0
                                    == a.courier_id && a.score == prev.entry_score(
                                    dists@,
                                    j,
                                    prio,
                                ) && a.score_breakdown == prev.entry_breakdown(dists@, j, prio)
                            &&& forall|j: int|
                                (#[trigger] prev.candidate_entry(dists@, j)) ==> score_ge(
                                    a.score,
                                    prev.entry_score(dists@, j, prio),
                                )
                            &&& a.id == assignment_id
                            &&& a.order_id == order_id
                            &&& a.assigned_at == now
                            &&& a.wf()
                            &&& prev.has_courier(a.courier_id)
                            &&& 0 <= ci < prev.couriers@.len()
                            &&& eligible(prev.couriers@[ci])
                            &&& final(self).orders@ == prev.orders@.update(
                                oi,
                                (DeliveryOrder {
                                    status: OrderStatus::Assigned,
                                    assigned_courier: Some(a.courier_id),
                                    ..prev.orders@[oi]
                                }),
                            )
                            &&& final(self).couriers@ == prev.couriers@.update(
                                ci,
                                (Courier {
                                    current_load: (prev.couriers@[ci].current_load + 1) as u8,
                                    status: if prev.couriers@[ci].current_load + 1
                                        == prev.couriers@[ci].capacity {
                                        CourierStatus::Busy
                                    } else {
                                        prev.couriers@[ci].status
                                    },
                                    updated_at: now,
                                    ..prev.couriers@[ci]
                                }),
                            )
                            &&& final(self).assignments@ == prev.assignments@.push(a)
                            &&& final(self).queue == prev.queue
                            &&& final(self).queue_capacity == prev.queue_capacity
                            &&& final(self).metrics == prev.metrics
                        },
                    }
                },
            },
    {
        let oi = match self.find_order(order_id) {
            Some(i) => i,
            None => {
                return Err(AppError::NotFound("order not found".to_owned()));
            },
        };
        proof {
            self.lemma_order_index_is(order_id, oi as int);
        }
        let order = self.orders[oi].clone();
        if !(order.status == OrderStatus::Pending) {
            return Err(AppError::Internal("order is not pending".to_owned()));
        }
        if self.queue_contains(order_id) {
            return Err(AppError::Internal("order is still queued".to_owned()));
        }
        let prio = order.priority;

        let mut best: Option<(usize, Score, ScoreBreakdown)> = None;
        let ghost mut best_j: int = 0;
        let mut jj: usize = 0;
        while jj < dists.len()
            invariant
                self.wf(),
                *self == *old(self),
                jj <= dists@.len(),
                prio == self.orders@[self.order_index(order_id)].priority,
                best is None ==> forall|j: int|
                    0 <= j < jj ==> !self.candidate_entry(dists@, j),
                match best {
                    Some(b) => {
                        &&& 0 <= best_j < jj
                        &&& self.candidate_entry(dists@, best_j)
                        &&& b.0 < self.couriers@.len()
                        &&& self.couriers@[b.0 as int].id == dists@[best_j].0
                        &&& eligible(self.couriers@[b.0 as int])
                        &&& b.1 == self.entry_score(dists@, best_j, prio)
                        &&& b.2 == self.entry_breakdown(dists@, best_j, prio)
                        &&& b.1.wf()
                        &&& forall|j: int|
                            (#[trigger] self.candidate_entry(dists@, j)) && j < jj ==> score_ge(
                                b.1,
                                self.entry_score(dists@, j, prio),
                            )
                    },
                    None => true,
                },
            decreases dists@.len() - jj,
        {
            let (cid, dm) = dists[jj];
            match self.find_courier(cid) {
                Some(ci) => {
                    proof {
                        self.lemma_courier_index_is(cid, ci as int);
                    }
                    let c = &self.couriers[ci];
                    if c.status == CourierStatus::Available && c.current_load < c.capacity {
                        let (sc, bd) = compute_score(c, &prio, dm);
                        proof {
                            assert(self.candidate_entry(dists@, jj as int));
                            assert(sc == self.entry_score(dists@, jj as int, prio));
                        }
                        let take = match &best {
                            None => true,
                            Some(b) => score_gt_exec(&sc, &b.1),
                        };
                        if take {
                            proof {
                                if best is Some {
                                    let b = best->Some_0;
                                    assert forall|j: int|
                                        (#[trigger] self.candidate_entry(dists@, j)) && j < jj
                                            + 1 implies score_ge(
                                        sc,
                                        self.entry_score(dists@, j, prio),
                                    ) by {
                                        if j < jj as int {
                                            crate::scoring::lemma_total_score_wf(
                                                self.couriers@[self.courier_index(dists@[j].0)],
                                                dists@[j].1,
                                                prio,
                                            );
                                            lemma_score_ge_trans(
                                                sc,
                                                b.1,
                                                self.entry_score(dists@, j, prio),
                                            );
                                        }
                                    }
                                }
                            }
                            best = Some((ci, sc, bd));
                            proof {
                                best_j = jj as int;
                            }
                        } else {
                            proof {
                                let b = best->Some_0;
                                assert forall|j: int|
                                    (#[trigger] self.candidate_entry(dists@, j)) && j < jj
                                        + 1 implies score_ge(
                                    b.1,
                                    self.entry_score(dists@, j, prio),
                                ) by {}
                            }
                        }
                    } else {
                        proof {
                            if self.candidate_entry(dists@, jj as int) {
                                let i = choose|i: int|
                                    0 <= i < self.couriers@.len() && (
                                    #[trigger] self.couriers@[i]).id == dists@[jj as int].0
                                        && eligible(self.couriers@[i]);
                                if i != ci as int {
                                    assert(self.couriers@[i].id != self.couriers@[
                                        ci as int].id);
                                }
                            }
                        }
                    }
                },
                None => {
                    proof {
                        if self.candidate_entry(dists@, jj as int) {
                            let i = choose|i: int|
                                0 <= i < self.couriers@.len() && (#[trigger] self.couriers@[i]).id
                                    == dists@[jj as int].0 && eligible(self.couriers@[i]);
                            assert(self.has_courier(dists@[jj as int].0));
                        }
                    }
                },
            }
            jj = jj + 1;
        }

        let (wi, sc, bd) = match best {
            None => {
                return Ok(ProcessOutcome::NoCandidate);
            },
            Some(b) => b,
        };
        let wc = self.couriers[wi].clone();
        let new_load = wc.current_load + 1;
        let new_c = Courier {
            id: wc.id,
            name: wc.name,
            location: wc.location,
            capacity: wc.capacity,
            current_load: new_load,
            status: if new_load == wc.capacity {
                CourierStatus::Busy
            } else {
                wc.status
            },
            rating_milli: wc.rating_milli,
            updated_at: now,
        };
        let new_o = DeliveryOrder {
            id: order.id,
            pickup: order.pickup,
            dropoff: order.dropoff,
            priority: order.priority,
            status: OrderStatus::Assigned,
            assigned_courier: Some(wc.id),
            created_at: order.created_at,
        };
        let a = Assignment {
            id: assignment_id,
            order_id,
            courier_id: wc.id,
            score: sc,
            score_breakdown: bd,
            assigned_at: now,
        };
        proof {
            crate::scoring::lemma_breakdown_wf(
                old(self).couriers@[wi as int],
                dists@[best_j].1,
                prio,
            );
            crate::scoring::lemma_total_score_wf(
                old(self).couriers@[wi as int],
                dists@[best_j].1,
                prio,
            );
        }
        self.orders[oi] = new_o;
        self.couriers[wi] = new_c;
        self.assignments.push(a);
        proof {
            old(self).lemma_courier_index_is(a.courier_id, wi as int);
            self.lemma_commit_wf(*old(self), oi as int, wi as int, a);
        }
        Ok(ProcessOutcome::Assigned(a))
    }

    /// One full engine `process(order)` step: as `process_order_at`, with the
    /// assignment ID drawn fresh and the commit stamped with the clock. The
    /// ID is random and the moment unknown, so the contract pins everything
    /// except them: the record's time also stamps the courier.
    pub fn process_order(&mut self, order_id: u128, dists: &Vec<(u128, u64)>) -> (r: Result<
        ProcessOutcome,
        AppError,
    >)
        requires
            old(self).wf(),
        ensures
            final(self).wf(),
            match r {
                Err(e) => {
                    &&& *final(self) == *old(self)
                    &&& (e is NotFound || e is Internal)
                    &&& ((e is NotFound) <==> !old(self).has_order(order_id))
                    &&& ((e is Internal) <==> (old(self).has_order(order_id) && (old(
                        self,
                    ).orders@[old(self).order_index(order_id)].status != OrderStatus::Pending
                        || old(self).id_queued(order_id))))
                },
                Ok(po) => {
                    &&& old(self).has_order(order_id)
                    &&& old(self).orders@[old(self).order_index(order_id)].status
                        == OrderStatus::Pending
                    &&& !old(self).id_queued(order_id)
                    &&& match po {
                        ProcessOutcome::NoCandidate => {
                            &&& *final(self) == *old(self)
                            &&& forall|j: int| !old(self).candidate_entry(dists@, j)
                        },
                        ProcessOutcome::Assigned(a) => {
                            let prev = *old(self);
                            let oi = prev.order_index(order_id);
                            let prio = prev.orders@[oi].priority;
                            let ci = prev.courier_index(a.courier_id);
                            &&& exists|j: int|
                                (#[trigger] prev.candidate_entry(dists@, j)) && dists@[j].0
                                    == a.courier_id && a.score == prev.entry_score(
                                    dists@,
                                    j,
                                    prio,
                                ) && a.score_breakdown == prev.entry_breakdown(dists@, j, prio)
                            &&& forall|j: int|
                                (#[trigger] prev.candidate_entry(dists@, j)) ==> score_ge(
                                    a.score,
                                    prev.entry_score(dists@, j, prio),
                                )
                            &&& a.order_id == order_id
                            &&& -crate::wire::RFC3339_SAFE_ABS_MS <= a.assigned_at
                                <= crate::wire::RFC3339_SAFE_ABS_MS
                            &&& a.wf()
                            &&& prev.has_courier(a.courier_id)
                            &&& 0 <= ci < prev.couriers@.len()
                            &&& eligible(prev.couriers@[ci])
                            &&& final(self).orders@ == prev.orders@.update(
                                oi,
                                (DeliveryOrder {
                                    status: OrderStatus::Assigned,
                                    assigned_courier: Some(a.courier_id),
                                    ..prev.orders@[oi]
                                }),
                            )
                            &&& final(self).couriers@ == prev.couriers@.update(
                                ci,
                                (Courier {
                                    current_load: (prev.couriers@[ci].current_load + 1) as u8,
                                    status: if prev.couriers@[ci].current_load + 1
                                        == prev.couriers@[ci].capacity {
                                        CourierStatus::Busy
                                    } else {
                                        prev.couriers@[ci].status
                                    },
                                    updated_at: a.assigned_at,
                                    ..prev.couriers@[ci]
                                }),
                            )
                            &&& final(self).assignments@ == prev.assignments@.push(a)
                            &&& final(self).queue == prev.queue
                            &&& final(self).queue_capacity == prev.queue_capacity
                            &&& final(self).metrics == prev.metrics
                        },
                    }
                },
            },
    {
        let assignment_id = crate::wire::fresh_uuid();
        // Clamp the stamp into the range every RFC 3339 rendering accepts; no
        // real clock reading is anywhere near the bound.
        let raw = crate::wire::now_millis();
        let now = if raw > crate::wire::RFC3339_SAFE_ABS_MS {
            crate::wire::RFC3339_SAFE_ABS_MS
        } else if raw < -crate::wire::RFC3339_SAFE_ABS_MS {
            -crate::wire::RFC3339_SAFE_ABS_MS
        } else {
            raw
        };
        self.process_order_at(order_id, dists, assignment_id, now)
    }
}

} // verus!
