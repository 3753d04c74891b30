//! The reliable consumption harness: a connect/declare/consume/ack cycle
//! around a queue broker port, with exponential backoff on transport
//! failure. Handler failures leave the delivery unacknowledged and never
//! abort the cycle; transport failures end the cycle and grow the backoff.

use vstd::prelude::*;

use crate::errors::Error;

verus! {

/// One message pulled from a queue: the payload bytes and the broker's
/// handle for acknowledging it.
pub struct Delivery {
    pub data: Vec<u8>,
    pub delivery_tag: u64,
}

/// The handler a worker plugs into the harness: business logic from one
/// delivery to a verdict. It neither acknowledges nor manages the
/// connection; that is exclusively the harness's responsibility.
pub trait Consumer {
    fn consume(&mut self, delivery: &Delivery) -> (r: Result<(), Error>);
}

/// The queue broker port the harness drives. Implementations do the
/// transport work; the harness only decides. Deliveries the transport
/// itself reports as broken are absent from the pulled batch.
pub trait Broker {
    /// Waits for the given delay before a cycle starts.
    fn wait_ms(&mut self, ms: u64);

    /// Opens a fresh connection and channel to `address`.
    fn connect(&mut self, address: &String) -> (r: Result<(), Error>);

    /// Declares the queue, idempotently.
    fn declare_queue(&mut self, queue: &String) -> (r: Result<(), Error>);

    /// Opens a subscription on `queue` and pulls the deliveries it yields.
    fn consume(&mut self, queue: &String) -> (r: Result<Vec<Delivery>, Error>);

    /// Acknowledges the delivery with the given tag.
    fn ack(&mut self, delivery_tag: u64) -> (r: Result<(), Error>);
}

/// The smallest non-zero backoff delay, in milliseconds.
pub const MIN_BACKOFF_MS: u64 = 125;

/// The backoff delay after one more transport failure: the fixed floor
/// when none was pending, else double the pending delay. No cap is
/// applied, and no cycle ever shrinks it.
pub open spec fn spec_next_backoff(current: u64) -> int {
    if current == 0 {
        125
    } else {
        2 * current
    }
}

/// One reliable consumer: the broker address, the queue it drains, and the
/// backoff state owned exclusively by this instance.
pub struct Receiver {
    pub address: String,
    pub queue_name: String,
    pub next_sleep_ms: u64,
}

impl Receiver {
    /// Creates a consumer for `queue_name` at `address` with no pending
    /// backoff.
    pub fn new(address: &str, queue_name: &str) -> (r: Result<Receiver, Error>)
        ensures
            r matches Ok(rc) ==> rc.address@ == address@ && rc.queue_name@ == queue_name@
                && rc.next_sleep_ms == 0,
            r matches Ok(_),
    {
        Ok(
            Receiver {
                address: address.to_owned(),
                queue_name: queue_name.to_owned(),
                next_sleep_ms: 0,
            },
        )
    }

    /// The delay to apply before the next cycle, after one more transport
    /// failure.
    fn select_next_timeout(&self) -> (r: u64)
        requires
            self.next_sleep_ms <= u64::MAX / 2,
        ensures
            r == spec_next_backoff(self.next_sleep_ms),
    {
        if self.next_sleep_ms == 0 {
            MIN_BACKOFF_MS
        } else {
            self.next_sleep_ms * 2
        }
    }

    /// One pass over a fresh connection: declare, subscribe, then handle
    /// each delivery in order, acknowledging exactly those the handler
    /// accepts. A rejected delivery is left for redelivery and the pass
    /// goes on: one bad message must not poison the consumer.
    fn process_impl<B: Broker, C: Consumer>(&self, broker: &mut B, handler: &mut C) -> (r: Result<
        (),
        Error,
    >)
        ensures
            r matches Err(e) ==> e == Error::TransportInternal,
    {
        match broker.connect(&self.address) {
            Ok(_) => (),
            Err(_) => {
                return Err(Error::TransportInternal);
            },
        }
        match broker.declare_queue(&self.queue_name) {
            Ok(_) => (),
            Err(_) => {
                return Err(Error::TransportInternal);
            },
        }
        let deliveries = match broker.consume(&self.queue_name) {
            Ok(d) => d,
            Err(_) => {
                return Err(Error::TransportInternal);
            },
        };
        let mut i: usize = 0;
        while i < deliveries.len()
            invariant
                0 <= i <= deliveries@.len(),
            decreases deliveries@.len() - i,
        {
            let delivery = &deliveries[i];
            match handler.consume(delivery) {
                Ok(_) => {
                    match broker.ack(delivery.delivery_tag) {
                        Ok(_) => (),
                        Err(_) => {
                            return Err(Error::TransportInternal);
                        },
                    }
                },
                Err(_) => (),
            }
            i = i + 1;
        }
        Ok(())
    }

    /// One consumption cycle: wait out the pending backoff, then connect,
    /// declare, subscribe and handle the deliveries. A transport failure —
    /// and nothing else — surfaces as an error and grows the backoff; a
    /// cycle that ends without one leaves the backoff unchanged.
    pub fn process<B: Broker, C: Consumer>(&mut self, broker: &mut B, handler: &mut C) -> (r:
        Result<(), Error>)
        requires
            old(self).next_sleep_ms <= u64::MAX / 2,
        ensures
            final(self).address == old(self).address,
            final(self).queue_name == old(self).queue_name,
            r matches Ok(_) ==> final(self).next_sleep_ms == old(self).next_sleep_ms,
            r matches Err(e) ==> e == Error::TransportInternal && final(self).next_sleep_ms
                == spec_next_backoff(old(self).next_sleep_ms),
    {
        broker.wait_ms(self.next_sleep_ms);
        let res = self.process_impl(broker, handler);
        match res {
            Ok(_) => Ok(()),
            Err(_) => {
                self.next_sleep_ms = self.select_next_timeout();
                Err(Error::TransportInternal)
            },
        }
    }
}

} // verus!
