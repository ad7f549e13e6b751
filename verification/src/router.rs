//! The router's bookkeeping of its workers: a keepalive interval, the
//! registered worker handles, and the decisions of a keepalive round (which
//! workers to ask for their status, and which to drop when asking fails).
use std::time::{Duration, Instant};
use vstd::prelude::*;

verus! {

/// The monotonic clock reading `std::time::Instant`, held opaque.
#[verifier::external_type_specification]
#[verifier::external_body]
pub struct ExInstant(std::time::Instant);

/// Calls `std::time::Instant::now`. Nothing is promised of the reading.
#[verifier::external_body]
fn instant_now() -> (r: Instant) {
    Instant::now()
}

/// Calls `std::time::Instant::elapsed` on `origin`. It depends on the clock,
/// so nothing is promised of the value.
#[verifier::external_body]
fn instant_elapsed(origin: &Instant) -> (r: Duration) {
    origin.elapsed()
}

/// Calls `std::time::Duration::as_nanos`: the duration in whole
/// nanoseconds. A `Duration` is held opaque, so nothing is stated of it.
#[verifier::external_body]
fn duration_as_nanos(d: &Duration) -> (r: u128) {
    d.as_nanos()
}

/// The time elapsed since `origin`, in whole nanoseconds.
fn elapsed_nanos(origin: &Instant) -> (r: u128) {
    duration_as_nanos(&instant_elapsed(origin))
}

/// The time from `last` to `now`, or 0 when `now` is before `last` (the
/// clock's difference saturates at zero).
pub open spec fn time_since(now: int, last: int) -> int {
    if now >= last {
        now - last
    } else {
        0
    }
}

/// Whether an interval in state `m` fires at time `now`, and its state after.
pub open spec fn interval_step(m: IntervalModel, now: u128) -> (bool, IntervalModel) {
    if time_since(now as int, m.last as int) >= m.interval {
        (true, IntervalModel { interval: m.interval, last: now })
    } else {
        (false, m)
    }
}

/// The model of an interval: its length and the time it last fired, both in
/// nanoseconds since the interval was made.
pub struct IntervalModel {
    pub interval: u128,
    pub last: u128,
}

/// A repeating interval measured on the monotonic clock: it fires when at
/// least its length has passed since it last fired.
pub struct Interval {
    interval: u128,
    origin: Instant,
    last: u128,
}

impl View for Interval {
    type V = IntervalModel;

    closed spec fn view(&self) -> IntervalModel {
        IntervalModel { interval: self.interval, last: self.last }
    }
}

impl Interval {
    /// An interval of `interval` nanoseconds that last fired now.
    pub fn new(interval: u128) -> (r: Self)
        ensures
            r@ == (IntervalModel { interval, last: 0 }),
    {
        Self { interval, origin: instant_now(), last: 0 }
    }

    /// Decides whether the interval fires at time `now` (nanoseconds since
    /// it was made): it fires when at least its length has passed since it
    /// last fired, and then `now` becomes the time it last fired.
    pub fn tick_at(&mut self, now: u128) -> (fired: bool)
        ensures
            (fired, final(self)@) == interval_step(old(self)@, now),
    {
        let elapsed: u128 = if now >= self.last {
            now - self.last
        } else {
            0
        };
        if elapsed >= self.interval {
            self.last = now;
            true
        } else {
            false
        }
    }

    /// Reads the clock and decides, as `tick_at` does, whether the interval
    /// fires now.
    pub fn tick(&mut self) -> (fired: bool)
        ensures
            exists|now: u128| (fired, final(self)@) == #[trigger] interval_step(old(self)@, now),
    {
        let now = elapsed_nanos(&self.origin);
        let fired = self.tick_at(now);
        assert((fired, self@) == interval_step(old(self)@, now));
        fired
    }
}

/// A handle on a registered worker's service. Two handles are equal when they
/// name the same registration.
#[derive(Debug, Clone, Copy, PartialEq, Eq, Structural)]
pub struct WorkerHandle {
    pub inner: u64,
}

impl WorkerHandle {
    /// The handle of the registration numbered `worker`.
    pub fn new(worker: u64) -> (r: Self)
        ensures
            r.inner == worker,
    {
        Self { inner: worker }
    }
}

/// `s` without the first element equal to `x`; `s` itself when there is none.
pub open spec fn remove_first(s: Seq<WorkerHandle>, x: WorkerHandle) -> Seq<WorkerHandle> {
    match s.index_of_first(x) {
        Some(i) => s.remove(i),
        None => s,
    }
}

/// The model of the router service: its registered workers in order of
/// registration, and its keepalive interval.
pub struct RouterServiceModel {
    pub workers: Seq<WorkerHandle>,
    pub keepalive: IntervalModel,
}

/// The keepalive decision of a router in state `m` at time `now`: the
/// workers to ask for their status (all of them when the keepalive fires,
/// none otherwise) and the router's state after.
pub open spec fn router_tick(m: RouterServiceModel, now: u128) -> (
    Seq<WorkerHandle>,
    RouterServiceModel,
) {
    let (fired, keepalive) = interval_step(m.keepalive, now);
    (
        if fired {
            m.workers
        } else {
            Seq::empty()
        },
        RouterServiceModel { workers: m.workers, keepalive },
    )
}

/// The length of the router's keepalive interval: one second, in nanoseconds.
pub const KEEPALIVE_NANOS: u128 = 1_000_000_000u128;

/// The router service: the registered workers and the keepalive interval at
/// which it asks each of them for its status.
pub struct RouterService {
    worker_interfaces: Vec<WorkerHandle>,
    keepalive: Interval,
}

impl View for RouterService {
    type V = RouterServiceModel;

    closed spec fn view(&self) -> RouterServiceModel {
        RouterServiceModel { workers: self.worker_interfaces@, keepalive: self.keepalive@ }
    }
}

impl RouterService {
    /// A router with no workers and a keepalive of one second.
    pub fn new() -> (r: Self)
        ensures
            r@.workers == Seq::<WorkerHandle>::empty(),
            r@.keepalive == (IntervalModel { interval: KEEPALIVE_NANOS, last: 0 }),
    {
        Self { worker_interfaces: Vec::new(), keepalive: Interval::new(KEEPALIVE_NANOS) }
    }

    /// Registers a worker: it is added after the workers already registered.
    pub fn register_worker(&mut self, worker: WorkerHandle)
        ensures
            final(self)@.workers == old(self)@.workers.push(worker),
            final(self)@.keepalive == old(self)@.keepalive,
    {
        self.worker_interfaces.push(worker);
    }

    /// The registered workers, in order of registration.
    pub fn workers(&self) -> (r: &[WorkerHandle])
        ensures
            r@ == self@.workers,
    {
        self.worker_interfaces.as_slice()
    }

    /// A handle for a new registration: one more than the largest registered
    /// handle (0 when none is registered), so it differs from, and is larger
    /// than, every registered one. `None` exactly when a registered handle is
    /// already the largest number there is.
    pub fn fresh_handle(&self) -> (r: Option<WorkerHandle>)
        ensures
            r is None <==> exists|i: int|
                0 <= i < self@.workers.len() && #[trigger] self@.workers[i].inner == u64::MAX,
            r matches Some(h) ==> !self@.workers.contains(h),
            r matches Some(h) ==> forall|i: int|
                0 <= i < self@.workers.len() ==> #[trigger] self@.workers[i].inner < h.inner,
            r matches Some(h) ==> (h.inner == 0 || exists|i: int|
                0 <= i < self@.workers.len() && #[trigger] self@.workers[i].inner + 1 == h.inner),
    {
        let n = self.worker_interfaces.len();
        let mut next: u64 = 0;
        let mut i: usize = 0;
        while i < n
            invariant
                n == self@.workers.len(),
                i <= n,
                forall|j: int| 0 <= j < i ==> #[trigger] self@.workers[j].inner < next,
                next == 0 || exists|j: int| 0 <= j < i && #[trigger] self@.workers[j].inner + 1 == next,
            decreases n - i,
        {
            let inner = self.worker_interfaces[i].inner;
            if inner == u64::MAX {
                return None;
            }
            if inner >= next {
                next = inner + 1;
            }
            i = i + 1;
        }
        let h = WorkerHandle::new(next);
        proof {
            if self@.workers.contains(h) {
                let j = choose|j: int| 0 <= j < self@.workers.len() && self@.workers[j] == h;
                assert(self@.workers[j].inner < next);
            }
        }
        Some(h)
    }

    /// The keepalive decision at time `now` (nanoseconds since the router was
    /// made): when the keepalive fires, every registered worker is to be asked
    /// for its status, in order of registration; otherwise none is. The
    /// workers stay registered either way.
    pub fn tick_at(&mut self, now: u128) -> (to_ask: Vec<WorkerHandle>)
        ensures
            (to_ask@, final(self)@) == router_tick(old(self)@, now),
    {
        if self.keepalive.tick_at(now) {
            self.worker_interfaces.clone()
        } else {
            Vec::new()
        }
    }

    /// Reads the clock and makes the keepalive decision of `tick_at` for the
    /// time read: the workers to ask for their status.
    pub fn tick(&mut self) -> (to_ask: Vec<WorkerHandle>)
        ensures
            exists|now: u128| (to_ask@, final(self)@) == #[trigger] router_tick(old(self)@, now),
    {
        let now = elapsed_nanos(&self.keepalive.origin);
        let to_ask = self.tick_at(now);
        assert((to_ask@, self@) == router_tick(old(self)@, now));
        to_ask
    }

    /// Asking `worker` for its status failed: the worker is dropped (the
    /// first registration equal to it is removed).
    pub fn status_failed(&mut self, worker: WorkerHandle)
        ensures
            final(self)@.workers == remove_first(old(self)@.workers, worker),
            final(self)@.keepalive == old(self)@.keepalive,
    {
        let n = self.worker_interfaces.len();
        let mut i: usize = 0;
        while i < n
            invariant
                n == self.worker_interfaces@.len(),
                self@ == old(self)@,
                i <= n,
                forall|j: int| 0 <= j < i ==> self.worker_interfaces@[j] != worker,
            decreases n - i,
        {
            if self.worker_interfaces[i] == worker {
                proof {
                    let s = old(self)@.workers;
                    assert(s[i as int] == worker);
                    s.index_of_first_ensures(worker);
                }
                self.worker_interfaces.remove(i);
                return;
            }
            i = i + 1;
        }
        proof {
            old(self)@.workers.index_of_first_ensures(worker);
        }
    }
}

/// An interval fires at most once per length: after it fires at `t1`, it
/// does not fire again at any `t2` from `t1` up to but not including
/// `t1 + interval`, and it fires at `t1 + interval` and later.
pub proof fn lemma_interval_fires_once_per_length(m: IntervalModel, t1: u128, t2: u128)
    requires
        interval_step(m, t1).0,
        t1 <= t2,
    ensures
        interval_step(interval_step(m, t1).1, t2).0 <==> t2 - t1 >= m.interval,
{
}

/// A keepalive round that does not fire asks no worker and changes nothing;
/// one that fires asks every registered worker, in order of registration,
/// and keeps them all registered.
pub proof fn lemma_keepalive_round(m: RouterServiceModel, now: u128)
    ensures
        !interval_step(m.keepalive, now).0 ==> router_tick(m, now) == (
            Seq::<WorkerHandle>::empty(),
            m,
        ),
        interval_step(m.keepalive, now).0 ==> router_tick(m, now).0 == m.workers,
        router_tick(m, now).1.workers == m.workers,
{
}

/// A registered worker is asked for its status at every keepalive round that
/// fires, until asking it fails: registering it and then letting rounds pass
/// keeps it among the workers asked.
pub proof fn lemma_registered_worker_is_asked(m: RouterServiceModel, w: WorkerHandle, now: u128)
    requires
        interval_step(m.keepalive, now).0,
    ensures
        router_tick(RouterServiceModel { workers: m.workers.push(w), keepalive: m.keepalive }, now).0.contains(w),
{
    let ws = m.workers.push(w);
    assert(ws[ws.len() - 1] == w);
}

/// Dropping a worker whose status request failed removes one registration of
/// it and keeps every other worker, in order; a worker that is not registered
/// leaves the list as it is.
pub proof fn lemma_drop_failed_worker(ws: Seq<WorkerHandle>, w: WorkerHandle)
    ensures
        ws.contains(w) ==> remove_first(ws, w).len() == ws.len() - 1,
        !ws.contains(w) ==> remove_first(ws, w) == ws,
        forall|x: WorkerHandle| x != w ==> (remove_first(ws, w).contains(x) <==> ws.contains(x)),
{
    ws.index_of_first_ensures(w);
    match ws.index_of_first(w) {
        Some(i) => {
            let r = ws.remove(i);
            assert forall|x: WorkerHandle| x != w implies (r.contains(x) <==> ws.contains(x)) by {
                if ws.contains(x) {
                    let j = choose|j: int| 0 <= j < ws.len() && ws[j] == x;
                    if j < i {
                        assert(r[j] == x);
                    } else {
                        assert(j != i);
                        assert(r[j - 1] == x);
                    }
                }
                if r.contains(x) {
                    let j = choose|j: int| 0 <= j < r.len() && r[j] == x;
                    if j < i {
                        assert(ws[j] == x);
                    } else {
                        assert(ws[j + 1] == x);
                    }
                }
            }
        },
        None => {},
    }
}

/// Dropping a failed worker keeps the others in registration order: when the
/// first registration of `w` is at index `i`, the workers before it stay where
/// they are, each one after it moves up by one place, and the list is one
/// shorter.
pub proof fn lemma_drop_failed_worker_keeps_order(ws: Seq<WorkerHandle>, w: WorkerHandle, i: int)
    requires
        0 <= i < ws.len(),
        ws[i] == w,
        forall|j: int| 0 <= j < i ==> ws[j] != w,
    ensures
        remove_first(ws, w).len() == ws.len() - 1,
        forall|j: int| 0 <= j < i ==> #[trigger] remove_first(ws, w)[j] == ws[j],
        forall|j: int| i <= j < ws.len() - 1 ==> #[trigger] remove_first(ws, w)[j] == ws[j + 1],
{
    ws.index_of_first_ensures(w);
    match ws.index_of_first(w) {
        Some(k) => {
            if k < i {
                assert(ws[k] == w);
            }
            if i < k {
                assert(ws[i] != w);
            }
            assert(k == i);
        },
        None => {
            assert(ws.contains(w)) by {
                assert(ws[i] == w);
            }
        },
    }
}

/// The keepalive asks every worker once per interval: after a round at `t1`
/// that fires (at least an interval has passed since the keepalive last
/// fired), a round at any later `t2` asks every registered worker exactly
/// when at least an interval has passed since `t1`, and none otherwise; and
/// a round that does not fire leaves the keepalive's time as it was.
pub proof fn lemma_keepalive_every_interval(m: RouterServiceModel, t1: u128, t2: u128)
    requires
        m.keepalive.last <= t1,
        t1 - m.keepalive.last >= m.keepalive.interval,
        t1 <= t2,
    ensures
        router_tick(m, t1).0 == m.workers,
        router_tick(m, t1).1.keepalive.last == t1,
        router_tick(m, t1).1.keepalive.interval == m.keepalive.interval,
        t2 - t1 >= m.keepalive.interval ==> router_tick(router_tick(m, t1).1, t2).0 == m.workers,
        t2 - t1 < m.keepalive.interval ==> router_tick(router_tick(m, t1).1, t2).0 == Seq::<
            WorkerHandle,
        >::empty(),
        t2 - t1 < m.keepalive.interval ==> router_tick(router_tick(m, t1).1, t2).1.keepalive.last
            == t1,
        t2 - t1 >= m.keepalive.interval ==> router_tick(router_tick(m, t1).1, t2).1.keepalive.last
            == t2,
{
}

} // verus!
