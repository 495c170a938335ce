//! Recording implementations of the hardware capability traits.
//!
//! These let the command protocol run with no physical hardware: the bus and
//! the control lines record what was done to them, and the busy line replays
//! a scripted sequence of readings. A deliberately failing bus is included to
//! exercise transport-error propagation.

use vstd::prelude::*;

use crate::interface::{Delay, DigitalIn, DigitalOut, SerialWrite, TransportError};

verus! {

/// A serial bus that records every payload written to it and never fails.
pub struct SpiRecorder {
    /// The payloads written, in order, one entry per write call.
    pub writes: Vec<Vec<u8>>,
}

impl SpiRecorder {
    /// A bus with an empty history.
    pub fn new() -> (r: Self)
        ensures
            r.written() == Seq::<Seq<u8>>::empty(),
    {
        let r = SpiRecorder { writes: Vec::new() };
        proof {
            assert(r.written() =~= Seq::<Seq<u8>>::empty());
        }
        r
    }
}

impl SerialWrite for SpiRecorder {
    open spec fn written(&self) -> Seq<Seq<u8>> {
        self.writes@.map_values(|v: Vec<u8>| v@)
    }

    fn write_bytes(&mut self, data: &[u8]) -> (r: Result<(), TransportError>) {
        let copy = vstd::slice::slice_to_vec(data);
        self.writes.push(copy);
        proof {
            assert(self.written() =~= old(self).written().push(data@));
        }
        Ok(())
    }
}

/// A serial bus that refuses every write, for exercising error paths.
pub struct FailingSpi;

impl SerialWrite for FailingSpi {
    open spec fn written(&self) -> Seq<Seq<u8>> {
        Seq::empty()
    }

    fn write_bytes(&mut self, data: &[u8]) -> (r: Result<(), TransportError>) {
        Err(TransportError)
    }
}

/// A control line that records every level set and never fails.
pub struct PinRecorder {
    /// The levels set, in order: `false` for low, `true` for high.
    pub history: Vec<bool>,
}

impl PinRecorder {
    /// A line with an empty history.
    pub fn new() -> (r: Self)
        ensures
            r.levels() == Seq::<bool>::empty(),
    {
        PinRecorder { history: Vec::new() }
    }
}

impl DigitalOut for PinRecorder {
    open spec fn levels(&self) -> Seq<bool> {
        self.history@
    }

    fn set_low(&mut self) -> (r: Result<(), TransportError>) {
        self.history.push(false);
        Ok(())
    }

    fn set_high(&mut self) -> (r: Result<(), TransportError>) {
        self.history.push(true);
        Ok(())
    }
}

/// A busy line that replays a scripted sequence of readings, front first;
/// once the script is exhausted it reads idle forever.
pub struct BusyScript {
    /// The readings still to be returned, in order.
    pub pending: Vec<bool>,
}

impl BusyScript {
    /// A busy line that will replay the given readings.
    pub fn new(pending: Vec<bool>) -> (r: Self)
        ensures
            r.busy_credit() == pending@.len(),
    {
        BusyScript { pending }
    }

    /// A busy line that reads idle from the start.
    pub fn idle() -> (r: Self)
        ensures
            r.busy_credit() == 0,
    {
        BusyScript { pending: Vec::new() }
    }
}

impl DigitalIn for BusyScript {
    open spec fn busy_credit(&self) -> nat {
        self.pending@.len()
    }

    fn is_high(&mut self) -> (r: Result<bool, TransportError>) {
        if self.pending.len() == 0 {
            Ok(false)
        } else {
            let b = self.pending.remove(0);
            Ok(b)
        }
    }
}

/// A delay provider that records requested delays without sleeping.
pub struct DelayRecorder {
    /// The delays requested so far, in milliseconds, in order.
    pub delays_ms: Vec<u32>,
}

impl DelayRecorder {
    /// A delay provider with an empty history.
    pub fn new() -> (r: Self)
        ensures
            r.delays() == Seq::<u32>::empty(),
    {
        DelayRecorder { delays_ms: Vec::new() }
    }
}

impl Delay for DelayRecorder {
    open spec fn delays(&self) -> Seq<u32> {
        self.delays_ms@
    }

    fn delay_ms(&mut self, ms: u32) {
        self.delays_ms.push(ms);
    }
}

} // verus!
