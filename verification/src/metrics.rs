use std::time::Instant;

use vstd::prelude::*;

verus! {

/// Name under which a metric is reported.
#[derive(Debug, Clone, PartialEq, Eq, PartialOrd, Ord, Hash)]
pub struct MetricKey(pub String);

impl MetricKey {
    pub fn new(name: String) -> (k: Self)
        ensures
            k.0 == name,
    {
        MetricKey(name)
    }
}

/// Drops every reading. Useful as the default when no collector is configured.
#[derive(Debug, Clone, Copy)]
pub struct NoopMetrics;

/// Counters describing task processing on a device.  Like the atomic
/// counters they stand for, they wrap around on overflow.
#[derive(Debug)]
pub struct TaskMetrics {
    pub dispatched: u64,
    pub completed: u64,
    pub failed: u64,
    pub cancelled: u64,
    pub in_flight: i64,
}

/// `x + 1` with wrap-around.
pub open spec fn succ(x: u64) -> u64 {
    if x == u64::MAX {
        0
    } else {
        (x + 1) as u64
    }
}

/// `x + d` with wrap-around, for `d` of 1 or -1.
pub open spec fn step(x: i64, d: int) -> i64 {
    if x + d > i64::MAX {
        i64::MIN
    } else if x + d < i64::MIN {
        i64::MAX
    } else {
        (x + d) as i64
    }
}

impl Default for TaskMetrics {
    fn default() -> (m: Self)
        ensures
            m.dispatched == 0,
            m.completed == 0,
            m.failed == 0,
            m.cancelled == 0,
            m.in_flight == 0,
    {
        TaskMetrics { dispatched: 0, completed: 0, failed: 0, cancelled: 0, in_flight: 0 }
    }
}

impl TaskMetrics {
    /// A task was handed out: one more dispatched and one more in flight.
    pub fn on_dispatch(&mut self)
        ensures
            final(self).dispatched == succ(old(self).dispatched),
            final(self).in_flight == step(old(self).in_flight, 1),
            final(self).completed == old(self).completed,
            final(self).failed == old(self).failed,
            final(self).cancelled == old(self).cancelled,
    {
        self.dispatched = self.dispatched.wrapping_add(1);
        self.in_flight = self.in_flight.wrapping_add(1);
    }

    /// A task finished: one more completed and one fewer in flight.
    pub fn on_complete(&mut self)
        ensures
            final(self).completed == succ(old(self).completed),
            final(self).in_flight == step(old(self).in_flight, -1),
            final(self).dispatched == old(self).dispatched,
            final(self).failed == old(self).failed,
            final(self).cancelled == old(self).cancelled,
    {
        self.completed = self.completed.wrapping_add(1);
        self.in_flight = self.in_flight.wrapping_sub(1);
    }

    /// A task failed: one more failed and one fewer in flight.
    pub fn on_failure(&mut self)
        ensures
            final(self).failed == succ(old(self).failed),
            final(self).in_flight == step(old(self).in_flight, -1),
            final(self).dispatched == old(self).dispatched,
            final(self).completed == old(self).completed,
            final(self).cancelled == old(self).cancelled,
    {
        self.failed = self.failed.wrapping_add(1);
        self.in_flight = self.in_flight.wrapping_sub(1);
    }

    /// A task was cancelled: one more cancelled and one fewer in flight.
    pub fn on_cancel(&mut self)
        ensures
            final(self).cancelled == succ(old(self).cancelled),
            final(self).in_flight == step(old(self).in_flight, -1),
            final(self).dispatched == old(self).dispatched,
            final(self).completed == old(self).completed,
            final(self).failed == old(self).failed,
    {
        self.cancelled = self.cancelled.wrapping_add(1);
        self.in_flight = self.in_flight.wrapping_sub(1);
    }
}

/// Counters describing device liveness and transport activity.
#[derive(Debug)]
pub struct DeviceMetrics {
    pub heartbeats_sent: u64,
    pub heartbeats_received: u64,
    pub heartbeats_missed: u64,
    pub reconnects: u64,
    pub bytes_in: u64,
    pub bytes_out: u64,
}

impl Default for DeviceMetrics {
    fn default() -> (m: Self)
        ensures
            m.heartbeats_sent == 0,
            m.heartbeats_received == 0,
            m.heartbeats_missed == 0,
            m.reconnects == 0,
            m.bytes_in == 0,
            m.bytes_out == 0,
    {
        DeviceMetrics {
            heartbeats_sent: 0,
            heartbeats_received: 0,
            heartbeats_missed: 0,
            reconnects: 0,
            bytes_in: 0,
            bytes_out: 0,
        }
    }
}

#[verifier::external_type_specification]
#[verifier::external_body]
pub struct ExInstant(Instant);

/// Calls `std::time::Instant::now`.  The reading comes from the system's
/// monotonic clock, so nothing is stated of it.
#[verifier::external_body]
fn instant_now() -> (i: Instant) {
    Instant::now()
}

/// Marks the moment a measurement started.
#[derive(Debug)]
pub struct Timer {
    pub started: Instant,
}

impl Timer {
    pub fn start() -> (t: Self) {
        Timer { started: instant_now() }
    }
}

/// A dispatch followed by its completion, failure or cancellation leaves the
/// in-flight count where it was, wrap-around included.
pub proof fn law_in_flight_balances(in_flight: i64)
    ensures
        step(step(in_flight, 1), -1) == in_flight,
{
}

/// The in-flight gauge agrees, modulo 2^64, with the dispatched tasks that
/// have not completed, failed or been cancelled.
pub open spec fn counters_balanced(m: TaskMetrics) -> bool {
    (m.in_flight - (m.dispatched - m.completed - m.failed - m.cancelled)) % 0x1_0000_0000_0000_0000int == 0
}

/// Fresh counters are balanced, and each of `on_dispatch`, `on_complete`,
/// `on_failure` and `on_cancel` keeps them balanced, wrap-around included.
pub proof fn law_counters_stay_balanced(m: TaskMetrics)
    requires
        counters_balanced(m),
    ensures
        counters_balanced(TaskMetrics { dispatched: 0, completed: 0, failed: 0, cancelled: 0, in_flight: 0 }),
        counters_balanced(TaskMetrics { dispatched: succ(m.dispatched), in_flight: step(m.in_flight, 1), ..m }),
        counters_balanced(TaskMetrics { completed: succ(m.completed), in_flight: step(m.in_flight, -1), ..m }),
        counters_balanced(TaskMetrics { failed: succ(m.failed), in_flight: step(m.in_flight, -1), ..m }),
        counters_balanced(TaskMetrics { cancelled: succ(m.cancelled), in_flight: step(m.in_flight, -1), ..m }),
{
    let p: int = 0x1_0000_0000_0000_0000int;
    let base: int = m.in_flight - (m.dispatched - m.completed - m.failed - m.cancelled);
    vstd::arithmetic::div_mod::lemma_mod_multiples_vanish(1, base, p);
    vstd::arithmetic::div_mod::lemma_mod_multiples_vanish(-1, base, p);
    assert((p * 1 + base) % p == 0 && (p * -1 + base) % p == 0);
}

} // verus!
