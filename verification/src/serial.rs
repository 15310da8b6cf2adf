//! The abstract serial capability of the pattern strategy.
//!
//! The SPI encoder is written against [`SerialBus`], a capability with a
//! buffer-write operation and a flush operation, either of which may
//! fail. A bus keeps a ghost transcript of the payloads it accepted and
//! the flushes it performed, in order, so the encoder's contract can pin
//! down exactly what a frame puts on the wire. [`RecordingBus`] is a
//! verified implementation that never fails and stores the transcript as
//! ordinary vectors; [`FailingBus`] succeeds a chosen number of times and
//! then fails every operation, for exercising the error paths.

use vstd::prelude::*;

verus! {

/// One completed bus operation.
pub enum BusEvent {
    /// A payload accepted in full by the bus.
    Write(Seq<u8>),
    /// A flush that drained the bus.
    Flush,
}

/// A failed bus operation. The cause is opaque at this layer; an
/// implementation maps its own error to this one.
#[derive(Clone, Copy, PartialEq, Eq, Structural, Debug)]
pub struct SerialError;

/// A write-only serial bus.
///
/// The transcript records the operations that completed, in order. An
/// operation that fails completes nothing: the transcript is unchanged,
/// and the caller decides whether to retry or abort.
pub trait SerialBus {
    /// The operations this bus has completed so far, in order. The
    /// default is an unspecified sequence; an implementation overrides it
    /// with its own record.
    open spec fn transcript(&self) -> Seq<BusEvent> {
        vstd::pervasive::arbitrary()
    }

    /// Transmit `data` as one contiguous payload.
    fn write_bytes(&mut self, data: &Vec<u8>) -> (r: Result<(), SerialError>)
        ensures
            r is Ok ==> final(self).transcript() == old(self).transcript().push(
                BusEvent::Write(data@),
            ),
            r is Err ==> final(self).transcript() == old(self).transcript(),
    ;

    /// Finish the transfer in flight, if any.
    fn flush(&mut self) -> (r: Result<(), SerialError>)
        ensures
            r is Ok ==> final(self).transcript() == old(self).transcript().push(BusEvent::Flush),
            r is Err ==> final(self).transcript() == old(self).transcript(),
    ;
}

/// One recorded bus operation, in a form tests can inspect.
#[derive(PartialEq, Eq, Debug)]
pub enum RecordedOp {
    /// A payload accepted in full.
    Write(Vec<u8>),
    /// A flush.
    Flush,
}

/// The ghost view of one recorded operation.
pub open spec fn recorded_op_view(op: RecordedOp) -> BusEvent {
    match op {
        RecordedOp::Write(data) => BusEvent::Write(data@),
        RecordedOp::Flush => BusEvent::Flush,
    }
}

/// The ghost view of a whole record.
pub open spec fn recorded_ops_view(ops: Seq<RecordedOp>) -> Seq<BusEvent> {
    ops.map(|i: int, op: RecordedOp| recorded_op_view(op))
}

/// A [`SerialBus`] that transmits nothing, never fails, and records every
/// operation.
pub struct RecordingBus {
    /// The completed operations, oldest first.
    pub ops: Vec<RecordedOp>,
}

impl RecordingBus {
    /// A fresh bus with an empty transcript.
    pub fn new() -> (bus: RecordingBus)
        ensures
            bus.transcript() == Seq::<BusEvent>::empty(),
    {
        let bus = RecordingBus { ops: Vec::new() };
        proof {
            assert(bus.transcript() =~= Seq::<BusEvent>::empty());
        }
        bus
    }
}

impl SerialBus for RecordingBus {
    open spec fn transcript(&self) -> Seq<BusEvent> {
        recorded_ops_view(self.ops@)
    }

    fn write_bytes(&mut self, data: &Vec<u8>) -> (r: Result<(), SerialError>) {
        let mut copy: Vec<u8> = Vec::new();
        let mut i: usize = 0;
        while i < data.len()
            invariant
                i <= data@.len(),
                copy@ == data@.take(i as int),
            decreases data@.len() - i,
        {
            copy.push(data[i]);
            proof {
                assert(copy@ =~= data@.take(i + 1));
            }
            i = i + 1;
        }
        proof {
            assert(copy@ =~= data@);
        }
        self.ops.push(RecordedOp::Write(copy));
        proof {
            assert(self.transcript() =~= old(self).transcript().push(BusEvent::Write(data@)));
        }
        Ok(())
    }

    fn flush(&mut self) -> (r: Result<(), SerialError>) {
        self.ops.push(RecordedOp::Flush);
        proof {
            assert(self.transcript() =~= old(self).transcript().push(BusEvent::Flush));
        }
        Ok(())
    }
}

/// A [`SerialBus`] that records like [`RecordingBus`] but accepts only a
/// budget of operations fixed at construction; once the budget is spent,
/// every operation fails and completes nothing.
pub struct FailingBus {
    /// The completed operations, oldest first.
    pub ops: Vec<RecordedOp>,
    /// How many more operations will succeed.
    pub budget: usize,
}

impl FailingBus {
    /// A fresh bus that will accept the next `budget` operations.
    pub fn new(budget: usize) -> (bus: FailingBus)
        ensures
            bus.transcript() == Seq::<BusEvent>::empty(),
            bus.budget == budget,
    {
        let bus = FailingBus { ops: Vec::new(), budget };
        proof {
            assert(bus.transcript() =~= Seq::<BusEvent>::empty());
        }
        bus
    }
}

impl SerialBus for FailingBus {
    open spec fn transcript(&self) -> Seq<BusEvent> {
        recorded_ops_view(self.ops@)
    }

    fn write_bytes(&mut self, data: &Vec<u8>) -> (r: Result<(), SerialError>) {
        if self.budget == 0 {
            return Err(SerialError);
        }
        self.budget = self.budget - 1;
        let mut copy: Vec<u8> = Vec::new();
        let mut i: usize = 0;
        while i < data.len()
            invariant
                i <= data@.len(),
                copy@ == data@.take(i as int),
            decreases data@.len() - i,
        {
            copy.push(data[i]);
            proof {
                assert(copy@ =~= data@.take(i + 1));
            }
            i = i + 1;
        }
        proof {
            assert(copy@ =~= data@);
        }
        self.ops.push(RecordedOp::Write(copy));
        proof {
            assert(self.transcript() =~= old(self).transcript().push(BusEvent::Write(data@)));
        }
        Ok(())
    }

    fn flush(&mut self) -> (r: Result<(), SerialError>) {
        if self.budget == 0 {
            return Err(SerialError);
        }
        self.budget = self.budget - 1;
        self.ops.push(RecordedOp::Flush);
        proof {
            assert(self.transcript() =~= old(self).transcript().push(BusEvent::Flush));
        }
        Ok(())
    }
}

} // verus!
