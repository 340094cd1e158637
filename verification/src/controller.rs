//! The single-consumer dispatcher: owns the configured drivers in
//! registration order and the processed-message count. The queue and each
//! sink's transport are driven by the caller, which walks the drivers in
//! order for every message and reports each message's outcome here.

use crate::drivers::LogDriver;
use vstd::prelude::*;

verus! {

/// How often, in messages, a progress line is emitted.
pub const PROGRESS_EVERY: u64 = 100;

/// The dispatcher's state: the sinks in registration order, and how many
/// messages were handled successfully.
pub struct Controller {
    drivers: Vec<LogDriver>,
    processed_messages: u64,
}

impl Controller {
    /// The drivers, in registration order.
    pub closed spec fn drivers_spec(&self) -> Seq<LogDriver> {
        self.drivers@
    }

    /// How many messages were handled successfully.
    pub closed spec fn processed(&self) -> u64 {
        self.processed_messages
    }

    /// A fresh controller has handled nothing.
    pub fn new(drivers: Vec<LogDriver>) -> (r: Controller)
        ensures
            r.drivers_spec() == drivers@,
            r.processed() == 0,
    {
        Controller { drivers, processed_messages: 0 }
    }

    /// How many sinks are configured.
    pub fn drivers_len(&self) -> (r: usize)
        ensures
            r == self.drivers_spec().len(),
    {
        self.drivers.len()
    }

    /// Exclusive access to one driver, for running its delivery; every other
    /// driver and the count stay as they were.
    pub fn driver_mut(&mut self, i: usize) -> (r: &mut LogDriver)
        requires
            i < old(self).drivers_spec().len(),
        ensures
            *r == old(self).drivers_spec()[i as int],
            final(self).drivers_spec() == old(self).drivers_spec().update(
                i as int,
                *final(r),
            ),
            final(self).processed() == old(self).processed(),
    {
        &mut self.drivers[i]
    }

    /// Record one message's outcome: a handled message counts, a failed one
    /// is only noted; the answer says whether a progress line is due, which
    /// is whenever the count stands at a multiple of the reporting interval.
    pub fn record_outcome(&mut self, handled: bool) -> (progress: bool)
        requires
            old(self).processed() < u64::MAX,
        ensures
            handled ==> final(self).processed() == old(self).processed() + 1,
            !handled ==> final(self).processed() == old(self).processed(),
            final(self).drivers_spec() == old(self).drivers_spec(),
            progress <==> final(self).processed() % PROGRESS_EVERY == 0,
    {
        if handled {
            self.processed_messages = self.processed_messages + 1;
        }
        self.processed_messages % PROGRESS_EVERY == 0
    }

    /// The processed-message count.
    pub fn processed_messages(&self) -> (r: u64)
        ensures
            r == self.processed(),
    {
        self.processed_messages
    }
}

} // verus!
