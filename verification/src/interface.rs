//! Ordered command/data transactions over a serial bus with control lines.
//!
//! The hardware is abstracted as one small capability trait per concern:
//! serial write, digital output, digital input and delay. Each trait carries
//! a history of the operations performed on it, so the interface can state
//! exactly which bytes were written and how the lines were driven.
//! [`DisplayInterface`] combines the control lines into command and data
//! transactions, and records the transaction stream in its [`Tx`] log.

use vstd::prelude::*;

use core::marker::PhantomData;

verus! {

/// Opaque transport error: any failed bus write or control-line operation
/// surfaces as this value, without retries.
#[derive(Clone, Copy, Debug, PartialEq, Eq, Structural)]
pub struct TransportError;

/// How long the reset line is held on each side of a reset pulse, in
/// milliseconds.
pub const RESET_DELAY_MS: u32 = 10;

/// Largest number of bytes handed to the serial bus in one write; longer
/// payloads are split into sequential chunks within one transaction.
pub const SPI_CHUNK_LIMIT: usize = 4096;

/// One logical transaction of the display interface.
pub enum Tx {
    /// One opcode byte sent in command state.
    Cmd(u8),
    /// A payload sent in data state.
    Data(Seq<u8>),
    /// A number of repetitions of one byte sent in data state.
    Repeated(u8, u32),
    /// A reset pulse on the reset line.
    Reset,
    /// A blocking wait until the busy line reports idle.
    WaitIdle,
}

/// A payload as the serial bus sees it: split into chunks of at most
/// `SPI_CHUNK_LIMIT` bytes, in order.
pub open spec fn chunked(s: Seq<u8>) -> Seq<Seq<u8>>
    decreases s.len(),
{
    if s.len() == 0 {
        Seq::empty()
    } else if s.len() <= SPI_CHUNK_LIMIT {
        seq![s]
    } else {
        seq![s.take(SPI_CHUNK_LIMIT as int)] + chunked(s.skip(SPI_CHUNK_LIMIT as int))
    }
}

/// Chunking only splits a payload: flattening the chunks gives the payload
/// back, every chunk is non-empty, and no chunk exceeds the limit.
pub proof fn lemma_chunked_splits_exactly(s: Seq<u8>)
    ensures
        chunked(s).flatten() == s,
        forall|i: int| 0 <= i < chunked(s).len() ==> 0 < #[trigger] chunked(s)[i].len()
            <= SPI_CHUNK_LIMIT,
    decreases s.len(),
{
    if s.len() == 0 {
        assert(chunked(s) =~= Seq::<Seq<u8>>::empty());
        assert(chunked(s).flatten() =~= s);
    } else if s.len() <= SPI_CHUNK_LIMIT {
        assert(chunked(s) =~= seq![s]);
        chunked(s).lemma_flatten_one_element();
        assert(chunked(s).flatten() =~= s);
    } else {
        let head = s.take(SPI_CHUNK_LIMIT as int);
        let tail = s.skip(SPI_CHUNK_LIMIT as int);
        lemma_chunked_splits_exactly(tail);
        assert(chunked(s).first() == head);
        assert(chunked(s).drop_first() =~= chunked(tail));
        assert(chunked(s).flatten() == head + chunked(tail).flatten());
        assert(head + tail =~= s);
        assert(forall|i: int| 1 <= i < chunked(s).len() ==> chunked(s)[i]
            == chunked(tail)[i - 1]);
    }
}

/// A sequence is a prefix of itself.
pub proof fn lemma_prefix_reflexive<A>(a: Seq<A>)
    ensures
        a.is_prefix_of(a),
{
    assert(a =~= a.subrange(0, a.len() as int));
}

/// One payload repeated: the chunk list that `count` single-byte writes of
/// `val` produce.
pub open spec fn repeated_chunks(val: u8, count: u32) -> Seq<Seq<u8>> {
    Seq::new(count as nat, |i: int| seq![val])
}

/// A sequence is a prefix of itself extended by anything.
pub proof fn lemma_prefix_self<A>(a: Seq<A>, b: Seq<A>)
    ensures
        a.is_prefix_of(a + b),
{
    assert(a =~= (a + b).subrange(0, a.len() as int));
}

/// Being a prefix is transitive.
pub proof fn lemma_prefix_transitive<A>(a: Seq<A>, b: Seq<A>, c: Seq<A>)
    requires
        a.is_prefix_of(b),
        b.is_prefix_of(c),
    ensures
        a.is_prefix_of(c),
{
    assert(a =~= c.subrange(0, a.len() as int));
}

/// Serial-write capability: a byte-oriented bus that transfers whole
/// payloads, most significant bit first. The history records each write.
pub trait SerialWrite {
    /// The payloads written so far, in order, one entry per write call.
    /// Implementations outside this crate may leave the model unspecified.
    open spec fn written(&self) -> Seq<Seq<u8>> {
        arbitrary()
    }

    /// Writes one payload. On success the history grows by exactly this
    /// payload; a failure surfaces as a transport error.
    fn write_bytes(&mut self, data: &[u8]) -> (r: Result<(), TransportError>)
        ensures
            r is Ok ==> final(self).written() == old(self).written().push(data@),
    ;
}

/// Digital-output capability: a control line that can be driven low or high.
/// The history records each level set, `false` for low and `true` for high.
pub trait DigitalOut {
    /// The levels set so far, in order.
    /// Implementations outside this crate may leave the model unspecified.
    open spec fn levels(&self) -> Seq<bool> {
        arbitrary()
    }

    /// Drives the line low. On success the history grows by `false`.
    fn set_low(&mut self) -> (r: Result<(), TransportError>)
        ensures
            r is Ok ==> final(self).levels() == old(self).levels().push(false),
    ;

    /// Drives the line high. On success the history grows by `true`.
    fn set_high(&mut self) -> (r: Result<(), TransportError>)
        ensures
            r is Ok ==> final(self).levels() == old(self).levels().push(true),
    ;
}

/// Digital-input capability: the busy-sense line. `busy_credit` bounds how
/// often the line may still read busy; a read that does not report idle
/// consumes credit. A controller that eventually settles satisfies this; a
/// line stuck busy forever lies outside the model, and polling it would spin
/// forever, which is the documented behavior of the busy wait.
pub trait DigitalIn {
    /// Upper bound on the busy reads still to come.
    /// Implementations outside this crate may leave the model unspecified.
    open spec fn busy_credit(&self) -> nat {
        arbitrary()
    }

    /// Reads the line; `true` means the controller is busy. A failed read is
    /// treated as busy by callers.
    fn is_high(&mut self) -> (r: Result<bool, TransportError>)
        ensures
            (r is Ok && r->Ok_0 == false) || final(self).busy_credit()
                < old(self).busy_credit(),
    ;
}

/// Delay capability with millisecond granularity. The history records each
/// requested delay.
pub trait Delay {
    /// The delays performed so far, in milliseconds, in order.
    /// Implementations outside this crate may leave the model unspecified.
    open spec fn delays(&self) -> Seq<u32> {
        arbitrary()
    }

    /// Blocks for at least `ms` milliseconds.
    fn delay_ms(&mut self, ms: u32)
        ensures
            final(self).delays() == old(self).delays().push(ms),
    ;
}

/// The connection to the display controller: chip-select, busy-sense,
/// data/command and reset lines, plus a transaction log. The serial bus
/// itself is passed to each operation.
pub struct DisplayInterface<SPI, CS, BUSY, DC, RST> {
    _spi: PhantomData<SPI>,
    cs: CS,
    busy: BUSY,
    dc: DC,
    rst: RST,
    log: Ghost<Seq<Tx>>,
}

impl<SPI, CS, BUSY, DC, RST> DisplayInterface<SPI, CS, BUSY, DC, RST> where
    SPI: SerialWrite,
    CS: DigitalOut,
    BUSY: DigitalIn,
    DC: DigitalOut,
    RST: DigitalOut,
 {
    /// The transactions performed so far, in order.
    pub closed spec fn log(&self) -> Seq<Tx> {
        self.log@
    }

    /// History of the chip-select line.
    pub closed spec fn cs_levels(&self) -> Seq<bool> {
        self.cs.levels()
    }

    /// History of the data/command line.
    pub closed spec fn dc_levels(&self) -> Seq<bool> {
        self.dc.levels()
    }

    /// History of the reset line.
    pub closed spec fn rst_levels(&self) -> Seq<bool> {
        self.rst.levels()
    }

    /// Takes ownership of the four control lines. The transaction log starts
    /// empty.
    pub fn new(cs: CS, busy: BUSY, dc: DC, rst: RST) -> (r: Self)
        ensures
            r.log() == Seq::<Tx>::empty(),
            r.cs_levels() == cs.levels(),
            r.dc_levels() == dc.levels(),
            r.rst_levels() == rst.levels(),
    {
        DisplayInterface { _spi: PhantomData, cs, busy, dc, rst, log: Ghost(Seq::empty()) }
    }

    /// Writes one payload over the bus as a single transaction: chip-select
    /// is asserted before the first chunk and released after the last, and
    /// the payload is split into chunks of at most `SPI_CHUNK_LIMIT` bytes.
    /// Leaves the data/command and reset lines and the log alone.
    fn write(&mut self, spi: &mut SPI, data: &[u8]) -> (r: Result<(), TransportError>)
        ensures
            final(self).log() == old(self).log(),
            final(self).dc_levels() == old(self).dc_levels(),
            final(self).rst_levels() == old(self).rst_levels(),
            r is Ok ==> final(spi).written() == old(spi).written() + chunked(data@),
            r is Ok ==> final(self).cs_levels() == old(self).cs_levels() + seq![false, true],
    {
        match self.cs.set_low() {
            Ok(()) => {},
            Err(e) => {
                return Err(e);
            },
        }
        let ghost w0 = spi.written();
        let ghost cs1 = self.cs.levels();
        proof {
            assert(w0.skip(w0.len() as int) =~= Seq::<Seq<u8>>::empty());
            assert(w0.take(w0.len() as int) =~= w0);
            assert(data@.skip(0) =~= data@);
            assert(Seq::<Seq<u8>>::empty() + chunked(data@) =~= chunked(data@));
        }
        let mut i: usize = 0;
        while i < data.len()
            invariant
                i <= data@.len(),
                self.log() == old(self).log(),
                self.dc_levels() == old(self).dc_levels(),
                self.rst_levels() == old(self).rst_levels(),
                self.cs.levels() == cs1,
                cs1 == old(self).cs_levels().push(false),
                spi.written().len() >= w0.len(),
                spi.written().take(w0.len() as int) == w0,
                spi.written().skip(w0.len() as int) + chunked(data@.skip(i as int)) == chunked(
                    data@,
                ),
            decreases data@.len() - i,
        {
            let remaining = data.len() - i;
            let end = if remaining > SPI_CHUNK_LIMIT {
                i + SPI_CHUNK_LIMIT
            } else {
                data.len()
            };
            let chunk = vstd::slice::slice_subrange(data, i, end);
            let ghost w_before = spi.written();
            match spi.write_bytes(chunk) {
                Ok(()) => {},
                Err(e) => {
                    return Err(e);
                },
            }
            proof {
                let tail = data@.skip(i as int);
                if remaining > SPI_CHUNK_LIMIT {
                    assert(tail.take(SPI_CHUNK_LIMIT as int) =~= chunk@);
                    assert(tail.skip(SPI_CHUNK_LIMIT as int) =~= data@.skip(end as int));
                } else {
                    assert(tail =~= chunk@);
                    assert(data@.skip(end as int) =~= Seq::<u8>::empty());
                }
                assert(chunked(data@.skip(i as int)) == seq![chunk@] + chunked(
                    data@.skip(end as int),
                ));
                assert(spi.written().take(w0.len() as int) =~= w0);
                assert(spi.written().skip(w0.len() as int) =~= w_before.skip(w0.len() as int)
                    + seq![chunk@]);
                assert((w_before.skip(w0.len() as int) + seq![chunk@]) + chunked(
                    data@.skip(end as int),
                ) =~= w_before.skip(w0.len() as int) + (seq![chunk@] + chunked(
                    data@.skip(end as int),
                )));
            }
            i = end;
        }
        proof {
            assert(data@.skip(data@.len() as int) =~= Seq::<u8>::empty());
            assert(spi.written().skip(w0.len() as int) + Seq::<Seq<u8>>::empty() =~= spi
                .written().skip(w0.len() as int));
            assert(spi.written() =~= w0 + chunked(data@));
        }
        match self.cs.set_high() {
            Ok(()) => {},
            Err(e) => {
                return Err(e);
            },
        }
        proof {
            assert(self.cs.levels() =~= cs1.push(true));
            assert(cs1.push(true) =~= old(self).cs_levels() + seq![false, true]);
        }
        Ok(())
    }

    /// Sends one command byte: drives the data/command line to command state,
    /// then transmits the byte as one chip-select-bracketed transaction.
    pub fn cmd(&mut self, spi: &mut SPI, command: u8) -> (r: Result<(), TransportError>)
        ensures
            r is Ok ==> final(self).log() == old(self).log() + seq![Tx::Cmd(command)],
            r is Ok ==> final(spi).written() == old(spi).written() + chunked(seq![command]),
            r is Ok ==> final(self).dc_levels() == old(self).dc_levels().push(false),
            r is Ok ==> final(self).cs_levels() == old(self).cs_levels() + seq![false, true],
            r is Err ==> final(self).log() == old(self).log(),
            final(self).rst_levels() == old(self).rst_levels(),
    {
        match self.dc.set_low() {
            Ok(()) => {},
            Err(e) => {
                return Err(e);
            },
        }
        let mut payload: Vec<u8> = Vec::new();
        payload.push(command);
        proof {
            assert(payload@ =~= seq![command]);
        }
        match self.write(spi, payload.as_slice()) {
            Ok(()) => {},
            Err(e) => {
                return Err(e);
            },
        }
        self.log = Ghost(self.log@.push(Tx::Cmd(command)));
        proof {
            assert(self.log@ =~= old(self).log() + seq![Tx::Cmd(command)]);
        }
        Ok(())
    }

    /// Sends a data payload: drives the data/command line to data state, then
    /// transmits the bytes as one chip-select-bracketed transaction.
    pub fn data(&mut self, spi: &mut SPI, data: &[u8]) -> (r: Result<(), TransportError>)
        ensures
            r is Ok ==> final(self).log() == old(self).log() + seq![Tx::Data(data@)],
            r is Ok ==> final(spi).written() == old(spi).written() + chunked(data@),
            r is Ok ==> final(self).dc_levels() == old(self).dc_levels().push(true),
            r is Ok ==> final(self).cs_levels() == old(self).cs_levels() + seq![false, true],
            r is Err ==> final(self).log() == old(self).log(),
            final(self).rst_levels() == old(self).rst_levels(),
    {
        match self.dc.set_high() {
            Ok(()) => {},
            Err(e) => {
                return Err(e);
            },
        }
        match self.write(spi, data) {
            Ok(()) => {},
            Err(e) => {
                return Err(e);
            },
        }
        self.log = Ghost(self.log@.push(Tx::Data(data@)));
        proof {
            assert(self.log@ =~= old(self).log() + seq![Tx::Data(data@)]);
        }
        Ok(())
    }

    /// Sends a command byte and the payload belonging to it, as one logical
    /// step of two transactions.
    pub fn cmd_with_data(&mut self, spi: &mut SPI, command: u8, data: &[u8]) -> (r: Result<
        (),
        TransportError,
    >)
        ensures
            old(self).log().is_prefix_of(final(self).log()),
            r is Ok ==> final(self).log() == old(self).log() + seq![
                Tx::Cmd(command),
                Tx::Data(data@),
            ],
            r is Err ==> final(self).log() == old(self).log() || final(self).log() == old(
                self,
            ).log() + seq![Tx::Cmd(command)],
            final(self).rst_levels() == old(self).rst_levels(),
    {
        match self.cmd(spi, command) {
            Ok(()) => {},
            Err(e) => {
                proof {
                    lemma_prefix_reflexive(self.log());
                }
                return Err(e);
            },
        }
        let r = self.data(spi, data);
        proof {
            lemma_prefix_self(old(self).log(), self.log().skip(old(self).log().len() as int));
            if r is Ok {
                assert((old(self).log() + seq![Tx::Cmd(command)]) + seq![Tx::Data(data@)] =~= old(
                    self,
                ).log() + seq![Tx::Cmd(command), Tx::Data(data@)]);
            }
            assert(old(self).log().is_prefix_of(self.log())) by {
                lemma_prefix_self(old(self).log(), seq![Tx::Cmd(command)]);
                if r is Ok {
                    lemma_prefix_self(
                        old(self).log(),
                        seq![Tx::Cmd(command), Tx::Data(data@)],
                    );
                }
            }
        }
        r
    }

    /// Sends the same data byte a number of times, one chip-select-bracketed
    /// single-byte transaction per repetition: floods a plane without
    /// materializing a buffer.
    pub fn data_x_times(&mut self, spi: &mut SPI, val: u8, repetitions: u32) -> (r: Result<
        (),
        TransportError,
    >)
        ensures
            r is Ok ==> final(self).log() == old(self).log() + seq![
                Tx::Repeated(val, repetitions),
            ],
            r is Ok ==> final(spi).written() == old(spi).written() + repeated_chunks(
                val,
                repetitions,
            ),
            r is Ok ==> final(self).dc_levels() == old(self).dc_levels().push(true),
            r is Err ==> final(self).log() == old(self).log(),
            final(self).rst_levels() == old(self).rst_levels(),
    {
        match self.dc.set_high() {
            Ok(()) => {},
            Err(e) => {
                return Err(e);
            },
        }
        let mut payload: Vec<u8> = Vec::new();
        payload.push(val);
        proof {
            assert(payload@ =~= seq![val]);
        }
        let ghost w0 = spi.written();
        proof {
            assert(w0 + repeated_chunks(val, 0) =~= w0);
        }
        let mut i: u32 = 0;
        while i < repetitions
            invariant
                i <= repetitions,
                payload@ == seq![val],
                self.log() == old(self).log(),
                self.dc_levels() == old(self).dc_levels().push(true),
                self.rst_levels() == old(self).rst_levels(),
                spi.written() == w0 + repeated_chunks(val, i),
            decreases repetitions - i,
        {
            match self.write(spi, payload.as_slice()) {
                Ok(()) => {},
                Err(e) => {
                    return Err(e);
                },
            }
            proof {
                assert(chunked(seq![val]) =~= seq![seq![val]]);
                assert(repeated_chunks(val, (i + 1) as u32) =~= repeated_chunks(val, i) + seq![
                    seq![val],
                ]);
                assert((w0 + repeated_chunks(val, i)) + seq![seq![val]] =~= w0 + (repeated_chunks(
                    val,
                    i,
                ) + seq![seq![val]]));
            }
            i = i + 1;
        }
        self.log = Ghost(self.log@.push(Tx::Repeated(val, repetitions)));
        proof {
            assert(self.log@ =~= old(self).log() + seq![Tx::Repeated(val, repetitions)]);
        }
        Ok(())
    }

    /// Busy-polls the busy line until the controller reports idle. A failed
    /// read counts as busy. There is no timeout: a controller that never
    /// settles keeps this call polling.
    pub fn wait_until_idle(&mut self)
        ensures
            final(self).log() == old(self).log() + seq![Tx::WaitIdle],
            final(self).dc_levels() == old(self).dc_levels(),
            final(self).cs_levels() == old(self).cs_levels(),
            final(self).rst_levels() == old(self).rst_levels(),
    {
        loop
            invariant
                self.log() == old(self).log(),
                self.dc_levels() == old(self).dc_levels(),
                self.cs_levels() == old(self).cs_levels(),
                self.rst_levels() == old(self).rst_levels(),
            decreases self.busy.busy_credit(),
        {
            let busy = match self.busy.is_high() {
                Ok(b) => b,
                Err(_) => true,
            };
            if !busy {
                break;
            }
        }
        self.log = Ghost(self.log@.push(Tx::WaitIdle));
        proof {
            assert(self.log@ =~= old(self).log() + seq![Tx::WaitIdle]);
        }
    }

    /// Resets the device: drives the reset line low, waits the settle time,
    /// drives it high and waits again.
    pub fn reset<D: Delay>(&mut self, delay: &mut D) -> (r: Result<(), TransportError>)
        ensures
            r is Ok ==> final(self).log() == old(self).log() + seq![Tx::Reset],
            r is Ok ==> final(self).rst_levels() == old(self).rst_levels() + seq![false, true],
            r is Ok ==> final(delay).delays() == old(delay).delays() + seq![
                RESET_DELAY_MS,
                RESET_DELAY_MS,
            ],
            r is Err ==> final(self).log() == old(self).log(),
            final(self).dc_levels() == old(self).dc_levels(),
            final(self).cs_levels() == old(self).cs_levels(),
    {
        match self.rst.set_low() {
            Ok(()) => {},
            Err(e) => {
                return Err(e);
            },
        }
        delay.delay_ms(RESET_DELAY_MS);
        match self.rst.set_high() {
            Ok(()) => {},
            Err(e) => {
                return Err(e);
            },
        }
        delay.delay_ms(RESET_DELAY_MS);
        self.log = Ghost(self.log@.push(Tx::Reset));
        proof {
            assert(self.log@ =~= old(self).log() + seq![Tx::Reset]);
            assert(self.rst.levels() =~= old(self).rst_levels() + seq![false, true]);
            assert(delay.delays() =~= old(delay).delays() + seq![
                RESET_DELAY_MS,
                RESET_DELAY_MS,
            ]);
        }
        Ok(())
    }
}

} // verus!
