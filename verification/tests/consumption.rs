use authority::errors::Error;
use authority::harness::{Broker, Consumer, Delivery, Receiver, MIN_BACKOFF_MS};

/// A broker double: a scripted batch of deliveries, optional connection
/// failure, and a record of waits and acknowledgements.
struct FakeBroker {
    payloads: Vec<Vec<u8>>,
    fail_connect: bool,
    fail_ack: bool,
    waits: Vec<u64>,
    acked: Vec<u64>,
}

impl FakeBroker {
    fn with_payloads(payloads: Vec<Vec<u8>>) -> FakeBroker {
        FakeBroker { payloads, fail_connect: false, fail_ack: false, waits: Vec::new(), acked: Vec::new() }
    }

    fn unreachable_broker() -> FakeBroker {
        FakeBroker {
            payloads: Vec::new(),
            fail_connect: true,
            fail_ack: false,
            waits: Vec::new(),
            acked: Vec::new(),
        }
    }
}

impl Broker for FakeBroker {
    fn wait_ms(&mut self, ms: u64) {
        self.waits.push(ms);
    }

    fn connect(&mut self, _address: &String) -> Result<(), Error> {
        if self.fail_connect {
            Err(Error::TransportInternal)
        } else {
            Ok(())
        }
    }

    fn declare_queue(&mut self, _queue: &String) -> Result<(), Error> {
        Ok(())
    }

    fn consume(&mut self, _queue: &String) -> Result<Vec<Delivery>, Error> {
        let mut out = Vec::new();
        let mut tag = 1u64;
        for payload in &self.payloads {
            out.push(Delivery { data: payload.clone(), delivery_tag: tag });
            tag += 1;
        }
        Ok(out)
    }

    fn ack(&mut self, delivery_tag: u64) -> Result<(), Error> {
        if self.fail_ack {
            Err(Error::TransportInternal)
        } else {
            self.acked.push(delivery_tag);
            Ok(())
        }
    }
}

/// A handler double that fails on a chosen delivery number.
struct SelectiveConsumer {
    calls: u64,
    fail_on: u64,
}

impl Consumer for SelectiveConsumer {
    fn consume(&mut self, _delivery: &Delivery) -> Result<(), Error> {
        self.calls += 1;
        if self.calls == self.fail_on {
            Err(Error::InvalidInput)
        } else {
            Ok(())
        }
    }
}

#[test]
fn receiver_starts_with_no_backoff() {
    let rc = Receiver::new("amqp://broker", "work").unwrap();
    assert_eq!(rc.address, "amqp://broker");
    assert_eq!(rc.queue_name, "work");
    assert_eq!(rc.next_sleep_ms, 0);
}

#[test]
fn one_bad_delivery_does_not_poison_the_cycle() {
    // the handler fails on delivery #2 and succeeds on #1 and #3
    let mut rc = Receiver::new("amqp://broker", "work").unwrap();
    let mut broker = FakeBroker::with_payloads(vec![vec![1], vec![2], vec![3]]);
    let mut handler = SelectiveConsumer { calls: 0, fail_on: 2 };
    let r = rc.process(&mut broker, &mut handler);
    // no transport error is raised, #1 and #3 are acknowledged, #2 is not
    assert!(r.is_ok());
    assert_eq!(broker.acked, vec![1, 3]);
    assert_eq!(rc.next_sleep_ms, 0);
}

#[test]
fn backoff_doubles_over_failed_connections() {
    let mut rc = Receiver::new("amqp://broker", "work").unwrap();
    let mut broker = FakeBroker::unreachable_broker();
    let mut handler = SelectiveConsumer { calls: 0, fail_on: 0 };

    assert_eq!(rc.process(&mut broker, &mut handler), Err(Error::TransportInternal));
    assert_eq!(rc.next_sleep_ms, 125);
    assert_eq!(rc.process(&mut broker, &mut handler), Err(Error::TransportInternal));
    assert_eq!(rc.next_sleep_ms, 250);
    assert_eq!(rc.process(&mut broker, &mut handler), Err(Error::TransportInternal));
    assert_eq!(rc.next_sleep_ms, 500);
    // each cycle waited out the backoff pending when it started
    assert_eq!(broker.waits, vec![0, 125, 250]);
    assert_eq!(MIN_BACKOFF_MS, 125);
}

#[test]
fn healthy_cycles_leave_backoff_unchanged() {
    let mut rc = Receiver::new("amqp://broker", "work").unwrap();
    let mut down = FakeBroker::unreachable_broker();
    let mut up = FakeBroker::with_payloads(vec![vec![9]]);
    let mut handler = SelectiveConsumer { calls: 0, fail_on: 0 };

    assert!(rc.process(&mut down, &mut handler).is_err());
    assert_eq!(rc.next_sleep_ms, 125);
    // a healthy cycle neither grows nor resets the pending backoff
    assert!(rc.process(&mut up, &mut handler).is_ok());
    assert_eq!(rc.next_sleep_ms, 125);
}

#[test]
fn ack_failure_is_a_transport_error() {
    let mut rc = Receiver::new("amqp://broker", "work").unwrap();
    let mut broker = FakeBroker::with_payloads(vec![vec![1]]);
    broker.fail_ack = true;
    let mut handler = SelectiveConsumer { calls: 0, fail_on: 0 };
    assert_eq!(rc.process(&mut broker, &mut handler), Err(Error::TransportInternal));
    assert_eq!(rc.next_sleep_ms, 125);
}
