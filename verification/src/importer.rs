//! The batch importer: the consumer that drains the import queue into the
//! product table, and the publisher that gathers records into framed
//! batches for the queue.

use vstd::prelude::*;

use crate::codec::{decode_batch, encode_batch, spec_decode_batch, spec_encode_batch, batch_model};
use crate::errors::Error;
use crate::harness::{Delivery, Receiver};
use crate::shop::{NewProduct, ProductStore};

verus! {

/// The import worker: one reliable consumer on the import queue.
pub struct Importer {
    pub rc: Receiver,
}

impl Importer {
    /// Creates an importer consuming `queue` at `address`.
    pub fn new(address: &str, queue: &str) -> (r: Importer)
        ensures
            r.rc.address@ == address@,
            r.rc.queue_name@ == queue@,
            r.rc.next_sleep_ms == 0,
    {
        match Receiver::new(address, queue) {
            Ok(rc) => Importer { rc },
            Err(_) => vstd::pervasive::unreached(),
        }
    }

    /// Builds the handler that loads decoded batches into `store`.
    pub fn make_handler(&self, store: ProductStore) -> (h: ImporterHandler)
        ensures
            h.store == store,
    {
        ImporterHandler { store }
    }
}

/// The import handler: decodes a batch payload and loads it.
pub struct ImporterHandler {
    pub store: ProductStore,
}

impl ImporterHandler {
    /// Handles one delivery: a payload that frames a batch is decoded and
    /// its records inserted under fresh identities; any other payload is
    /// rejected, leaving it unacknowledged for redelivery. A full
    /// identity space drops the batch, as the store reports it.
    pub fn consume(&mut self, delivery: &Delivery) -> (r: Result<(), Error>)
        requires
            old(self).store.wf(),
        ensures
            final(self).store.wf(),
            (r matches Ok(_)) <==> (spec_decode_batch(delivery.data@) is Some),
            r matches Err(e) ==> e == Error::InvalidInput && *final(self) == *old(self),
            r matches Ok(_) ==> (match spec_decode_batch(delivery.data@) {
                Some(ms) => {
                    if i32::MAX - old(self).store.next_id >= ms.len() {
                        &&& final(self).store.products@.len() == old(self).store.products@.len()
                            + ms.len()
                        &&& forall|k: int|
                            0 <= k < ms.len()
                                ==> final(self).store.products@[old(self).store.products@.len()
                                + k].code@ == ms[k].0
                                && final(self).store.products@[old(self).store.products@.len()
                                + k].name@ == ms[k].1
                                && final(self).store.products@[old(self).store.products@.len()
                                + k].category@ == ms[k].2
                    } else {
                        *final(self) == *old(self)
                    }
                },
                None => false,
            }),
    {
        let batch = match decode_batch(&delivery.data) {
            Some(b) => b,
            None => {
                return Err(Error::InvalidInput);
            },
        };
        let _ = self.store.add_products(&batch);
        Ok(())
    }
}

/// The batch publisher: gathers records and hands back a framed batch
/// whenever one fills up.
pub struct BatchPublisher {
    pub batch: Vec<NewProduct>,
    pub batch_size: usize,
}

impl BatchPublisher {
    /// Creates a publisher that flushes at `batch_size` records.
    pub fn new(batch_size: usize) -> (r: BatchPublisher)
        ensures
            r.batch@.len() == 0,
            r.batch_size == batch_size,
    {
        BatchPublisher { batch: Vec::new(), batch_size }
    }

    /// Queues one record. When that fills the batch, the framed batch to
    /// publish is handed back and a fresh one begins.
    pub fn submit(&mut self, record: NewProduct) -> (out: Option<Vec<u8>>)
        ensures
            final(self).batch_size == old(self).batch_size,
            (out is Some) <==> old(self).batch@.len() + 1 >= old(self).batch_size,
            out matches Some(bytes) ==> bytes@ == spec_encode_batch(
                batch_model(old(self).batch@.push(record)),
            ) && final(self).batch@.len() == 0,
            out is None ==> final(self).batch@ == old(self).batch@.push(record),
    {
        self.batch.push(record);
        if self.batch.len() >= self.batch_size {
            let bytes = encode_batch(&self.batch);
            self.batch.clear();
            Some(bytes)
        } else {
            None
        }
    }

    /// Hands back the framed remainder, if any records are pending.
    pub fn finish(&mut self) -> (out: Option<Vec<u8>>)
        ensures
            final(self).batch_size == old(self).batch_size,
            (out is Some) <==> old(self).batch@.len() > 0,
            out matches Some(bytes) ==> bytes@ == spec_encode_batch(batch_model(old(self).batch@))
                && final(self).batch@.len() == 0,
            out is None ==> *final(self) == *old(self),
    {
        if self.batch.len() > 0 {
            let bytes = encode_batch(&self.batch);
            self.batch.clear();
            Some(bytes)
        } else {
            None
        }
    }
}

} // verus!
