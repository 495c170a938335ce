//! The SSD1681 command protocol.
//!
//! [`Ssd1681`] sequences [`DisplayInterface`] transactions into the
//! controller's initialization, clear, update and refresh procedures. Each
//! procedure's contract names the exact transaction sequence it emits on
//! success; on a transport error the procedure stops at the failing
//! operation, leaving the log with whatever was emitted before it.

use vstd::prelude::*;

use crate::cmd::{Cmd, Flag};
use crate::color::Color;
use crate::graphics::spec_buffer_len;
use crate::interface::{
    lemma_prefix_self, lemma_prefix_transitive, Delay, DigitalIn, DigitalOut, DisplayInterface,
    SerialWrite, TransportError, Tx,
};
use crate::{HEIGHT, WIDTH};

verus! {

/// Payload bytes of the RAM x-position register: start and end columns in
/// byte granularity, one byte each.
pub open spec fn ram_x_window_bytes(start_x: u32, end_x: u32) -> Seq<u8> {
    seq![((start_x >> 3) & 0xFF) as u8, ((end_x >> 3) & 0xFF) as u8]
}

/// Payload bytes of the RAM y-position register: start and end rows as
/// little-endian 16-bit values.
pub open spec fn ram_y_window_bytes(start_y: u32, end_y: u32) -> Seq<u8> {
    seq![
        (start_y & 0xFF) as u8,
        ((start_y >> 8) & 0xFF) as u8,
        (end_y & 0xFF) as u8,
        ((end_y >> 8) & 0xFF) as u8,
    ]
}

/// Transactions that select a RAM window.
pub open spec fn ram_area_txs(start_x: u32, start_y: u32, end_x: u32, end_y: u32) -> Seq<Tx> {
    seq![
        Tx::Cmd(Cmd::SET_RAMXPOS),
        Tx::Data(ram_x_window_bytes(start_x, end_x)),
        Tx::Cmd(Cmd::SET_RAMYPOS),
        Tx::Data(ram_y_window_bytes(start_y, end_y)),
    ]
}

/// Transactions that position the RAM write counter.
pub open spec fn ram_counter_txs(x: u32, y: u32) -> Seq<Tx> {
    seq![
        Tx::Cmd(Cmd::SET_RAMX_COUNTER),
        Tx::Data(seq![((x >> 3) & 0xFF) as u8]),
        Tx::Cmd(Cmd::SET_RAMY_COUNTER),
        Tx::Data(seq![(y & 0xFF) as u8, ((y >> 8) & 0xFF) as u8]),
    ]
}

/// Transactions that select the full-panel RAM window and reset the counter
/// to the origin.
pub open spec fn full_frame_txs() -> Seq<Tx> {
    ram_area_txs(0, 0, (WIDTH - 1) as u32, (HEIGHT - 1) as u32) + ram_counter_txs(0, 0)
}

/// The controller's required initialization sequence, in order: reset, wait
/// idle, software reset, wait idle, driver control, data-entry mode, full
/// window and counter, border waveform, temperature control, wait idle.
pub open spec fn init_txs() -> Seq<Tx> {
    seq![
        Tx::Reset,
        Tx::WaitIdle,
        Tx::Cmd(Cmd::SW_RESET),
        Tx::WaitIdle,
        Tx::Cmd(Cmd::DRIVER_CONTROL),
        Tx::Data(seq![(HEIGHT - 1) as u8, 0u8, 0u8]),
        Tx::Cmd(Cmd::DATA_ENTRY_MODE),
        Tx::Data(seq![Flag::DATA_ENTRY_INCRY_INCRX]),
    ] + full_frame_txs() + seq![
        Tx::Cmd(Cmd::BORDER_WAVEFORM_CONTROL),
        Tx::Data(seq![Flag::BORDER_WAVEFORM_FOLLOW_LUT | Flag::BORDER_WAVEFORM_LUT1]),
        Tx::Cmd(Cmd::TEMP_CONTROL),
        Tx::Data(seq![Flag::INTERNAL_TEMP_SENSOR]),
        Tx::WaitIdle,
    ]
}

/// Transactions that push one whole plane: full window, counter at the
/// origin, then the plane's write opcode followed by the buffer.
pub open spec fn update_frame_txs(opcode: u8, buffer: Seq<u8>) -> Seq<Tx> {
    full_frame_txs() + seq![Tx::Cmd(opcode), Tx::Data(buffer)]
}

/// Transactions that push one plane into the byte-aligned window at
/// `(x, y)` of size `width` by `height`.
pub open spec fn partial_frame_txs(
    buffer: Seq<u8>,
    x: u32,
    y: u32,
    width: u32,
    height: u32,
) -> Seq<Tx> {
    ram_area_txs(x, y, (x + width) as u32, (y + height) as u32) + ram_counter_txs(x, y) + seq![
        Tx::Cmd(Cmd::WRITE_BW_DATA),
        Tx::Data(buffer),
    ]
}

/// Number of byte repetitions that flood one whole plane.
pub open spec fn spec_clear_repetitions() -> u32 {
    ((WIDTH as u32) / 8 * (HEIGHT as u32)) as u32
}

/// Transactions that flood one whole plane with a fill byte: full window,
/// counter at the origin, the plane's write opcode, then the repeated byte.
pub open spec fn clear_frame_txs(opcode: u8, fill: u8) -> Seq<Tx> {
    full_frame_txs() + seq![Tx::Cmd(opcode), Tx::Repeated(fill, spec_clear_repetitions())]
}

/// Transactions that trigger a physical refresh: refresh-mode flags, master
/// activate, then a blocking wait until the controller is idle again.
pub open spec fn display_frame_txs() -> Seq<Tx> {
    seq![
        Tx::Cmd(Cmd::UPDATE_DISPLAY_CTRL2),
        Tx::Data(seq![Flag::DISPLAY_UPDATE_SEQUENCE]),
        Tx::Cmd(Cmd::MASTER_ACTIVATE),
        Tx::WaitIdle,
    ]
}

/// Whether a RAM window is valid: it must be non-empty on both axes. An
/// invalid window is a programmer error; the window-setting operation
/// requires this to hold.
pub fn window_is_valid(start_x: u32, start_y: u32, end_x: u32, end_y: u32) -> (r: bool)
    ensures
        r == (start_x < end_x && start_y < end_y),
{
    start_x < end_x && start_y < end_y
}

/// A configured display driver owning the control lines through its
/// hardware interface.
pub struct Ssd1681<SPI, CS, BUSY, DC, RST> {
    interface: DisplayInterface<SPI, CS, BUSY, DC, RST>,
}

impl<SPI, CS, BUSY, DC, RST> Ssd1681<SPI, CS, BUSY, DC, RST> where
    SPI: SerialWrite,
    CS: DigitalOut,
    BUSY: DigitalIn,
    DC: DigitalOut,
    RST: DigitalOut,
 {
    /// The transactions this driver has performed, in order.
    pub closed spec fn log(&self) -> Seq<Tx> {
        self.interface.log()
    }

    /// Creates the driver and runs the controller's initialization sequence.
    pub fn new<D: Delay>(
        spi: &mut SPI,
        cs: CS,
        busy: BUSY,
        dc: DC,
        rst: RST,
        delay: &mut D,
    ) -> (r: Result<Self, TransportError>)
        ensures
            r matches Ok(d) ==> d.log() == init_txs(),
    {
        let interface = DisplayInterface::new(cs, busy, dc, rst);
        let mut ssd1681 = Ssd1681 { interface };
        match ssd1681.init(spi, delay) {
            Ok(()) => {
                proof {
                    assert(ssd1681.log() =~= init_txs());
                }
                Ok(ssd1681)
            },
            Err(e) => Err(e),
        }
    }

    /// Runs the controller's initialization sequence; its exact order is
    /// required by the controller and must not be reordered.
    pub fn init<D: Delay>(&mut self, spi: &mut SPI, delay: &mut D) -> (r: Result<
        (),
        TransportError,
    >)
        ensures
            old(self).log().is_prefix_of(final(self).log()),
            r is Ok ==> final(self).log() == old(self).log() + init_txs(),
    {
        let ghost base = self.log();
        let ghost mut done = Seq::<Tx>::empty();
        proof {
            assert(base + done =~= base);
        }
        match self.interface.reset(delay) {
            Ok(()) => {},
            Err(e) => {
                proof {
                    lemma_prefix_self(base, done);
                }
                return Err(e);
            },
        }
        proof {
            done = done + seq![Tx::Reset];
            assert(self.log() =~= base + done);
        }
        self.interface.wait_until_idle();
        proof {
            done = done + seq![Tx::WaitIdle];
            assert(self.log() =~= base + done);
        }
        match self.interface.cmd(spi, Cmd::SW_RESET) {
            Ok(()) => {},
            Err(e) => {
                proof {
                    lemma_prefix_self(base, done);
                }
                return Err(e);
            },
        }
        proof {
            done = done + seq![Tx::Cmd(Cmd::SW_RESET)];
            assert(self.log() =~= base + done);
        }
        self.interface.wait_until_idle();
        proof {
            done = done + seq![Tx::WaitIdle];
            assert(self.log() =~= base + done);
        }
        let mut driver_control: Vec<u8> = Vec::new();
        driver_control.push(HEIGHT - 1);
        driver_control.push(0x00);
        driver_control.push(0x00);
        proof {
            assert(driver_control@ =~= seq![(HEIGHT - 1) as u8, 0u8, 0u8]);
        }
        match self.interface.cmd_with_data(spi, Cmd::DRIVER_CONTROL, driver_control.as_slice()) {
            Ok(()) => {},
            Err(e) => {
                proof {
                    lemma_prefix_self(base, done);
                    lemma_prefix_transitive(base, base + done, self.log());
                }
                return Err(e);
            },
        }
        proof {
            done = done + seq![Tx::Cmd(Cmd::DRIVER_CONTROL), Tx::Data(driver_control@)];
            assert(self.log() =~= base + done);
        }
        let mut entry_mode: Vec<u8> = Vec::new();
        entry_mode.push(Flag::DATA_ENTRY_INCRY_INCRX);
        proof {
            assert(entry_mode@ =~= seq![Flag::DATA_ENTRY_INCRY_INCRX]);
        }
        match self.interface.cmd_with_data(spi, Cmd::DATA_ENTRY_MODE, entry_mode.as_slice()) {
            Ok(()) => {},
            Err(e) => {
                proof {
                    lemma_prefix_self(base, done);
                    lemma_prefix_transitive(base, base + done, self.log());
                }
                return Err(e);
            },
        }
        proof {
            done = done + seq![Tx::Cmd(Cmd::DATA_ENTRY_MODE), Tx::Data(entry_mode@)];
            assert(self.log() =~= base + done);
        }
        match self.use_full_frame(spi) {
            Ok(()) => {},
            Err(e) => {
                proof {
                    lemma_prefix_self(base, done);
                    lemma_prefix_transitive(base, base + done, self.log());
                }
                return Err(e);
            },
        }
        proof {
            done = done + full_frame_txs();
            assert(self.log() =~= base + done);
        }
        let mut border: Vec<u8> = Vec::new();
        border.push(Flag::BORDER_WAVEFORM_FOLLOW_LUT | Flag::BORDER_WAVEFORM_LUT1);
        proof {
            assert(border@ =~= seq![Flag::BORDER_WAVEFORM_FOLLOW_LUT | Flag::BORDER_WAVEFORM_LUT1]);
        }
        match self.interface.cmd_with_data(spi, Cmd::BORDER_WAVEFORM_CONTROL, border.as_slice()) {
            Ok(()) => {},
            Err(e) => {
                proof {
                    lemma_prefix_self(base, done);
                    lemma_prefix_transitive(base, base + done, self.log());
                }
                return Err(e);
            },
        }
        proof {
            done = done + seq![Tx::Cmd(Cmd::BORDER_WAVEFORM_CONTROL), Tx::Data(border@)];
            assert(self.log() =~= base + done);
        }
        let mut temp: Vec<u8> = Vec::new();
        temp.push(Flag::INTERNAL_TEMP_SENSOR);
        proof {
            assert(temp@ =~= seq![Flag::INTERNAL_TEMP_SENSOR]);
        }
        match self.interface.cmd_with_data(spi, Cmd::TEMP_CONTROL, temp.as_slice()) {
            Ok(()) => {},
            Err(e) => {
                proof {
                    lemma_prefix_self(base, done);
                    lemma_prefix_transitive(base, base + done, self.log());
                }
                return Err(e);
            },
        }
        proof {
            done = done + seq![Tx::Cmd(Cmd::TEMP_CONTROL), Tx::Data(temp@)];
            assert(self.log() =~= base + done);
        }
        self.interface.wait_until_idle();
        proof {
            done = done + seq![Tx::WaitIdle];
            assert(self.log() =~= base + done);
            assert(done =~= init_txs());
            lemma_prefix_self(base, done);
        }
        Ok(())
    }

    /// Pushes a whole black/white plane into controller RAM. Stages data
    /// only: nothing is shown until a refresh is triggered.
    pub fn update_bw_frame(&mut self, spi: &mut SPI, buffer: &[u8]) -> (r: Result<
        (),
        TransportError,
    >)
        requires
            buffer@.len() == spec_buffer_len(WIDTH as nat, HEIGHT as nat),
        ensures
            old(self).log().is_prefix_of(final(self).log()),
            r is Ok ==> final(self).log() == old(self).log() + update_frame_txs(
                Cmd::WRITE_BW_DATA,
                buffer@,
            ),
    {
        self.update_frame(spi, Cmd::WRITE_BW_DATA, buffer)
    }

    /// Pushes a whole red plane into controller RAM. Stages data only:
    /// nothing is shown until a refresh is triggered.
    pub fn update_red_frame(&mut self, spi: &mut SPI, buffer: &[u8]) -> (r: Result<
        (),
        TransportError,
    >)
        requires
            buffer@.len() == spec_buffer_len(WIDTH as nat, HEIGHT as nat),
        ensures
            old(self).log().is_prefix_of(final(self).log()),
            r is Ok ==> final(self).log() == old(self).log() + update_frame_txs(
                Cmd::WRITE_RED_DATA,
                buffer@,
            ),
    {
        self.update_frame(spi, Cmd::WRITE_RED_DATA, buffer)
    }

    /// Selects the full panel, resets the counter, then streams a plane
    /// under the given write opcode.
    fn update_frame(&mut self, spi: &mut SPI, opcode: u8, buffer: &[u8]) -> (r: Result<
        (),
        TransportError,
    >)
        ensures
            old(self).log().is_prefix_of(final(self).log()),
            r is Ok ==> final(self).log() == old(self).log() + update_frame_txs(opcode, buffer@),
    {
        let ghost base = self.log();
        match self.use_full_frame(spi) {
            Ok(()) => {},
            Err(e) => {
                return Err(e);
            },
        }
        let r = self.interface.cmd_with_data(spi, opcode, buffer);
        proof {
            lemma_prefix_self(base, full_frame_txs());
            lemma_prefix_transitive(base, base + full_frame_txs(), self.log());
            if r is Ok {
                assert((base + full_frame_txs()) + seq![Tx::Cmd(opcode), Tx::Data(buffer@)]
                    =~= base + update_frame_txs(opcode, buffer@));
            }
        }
        r
    }

    /// Pushes a black/white plane into the byte-aligned partial window at
    /// `(x, y)` of size `width` by `height`, which must lie within the
    /// panel.
    pub fn update_partial_bw_frame(
        &mut self,
        spi: &mut SPI,
        buffer: &[u8],
        x: u32,
        y: u32,
        width: u32,
        height: u32,
    ) -> (r: Result<(), TransportError>)
        requires
            x % 8 == 0,
            0 < width,
            0 < height,
            x + width <= WIDTH as u32,
            y + height <= HEIGHT as u32,
            buffer@.len() == spec_buffer_len(width as nat, height as nat),
        ensures
            old(self).log().is_prefix_of(final(self).log()),
            r is Ok ==> final(self).log() == old(self).log() + partial_frame_txs(
                buffer@,
                x,
                y,
                width,
                height,
            ),
    {
        let ghost base = self.log();
        let ghost mut done = Seq::<Tx>::empty();
        proof {
            assert(base + done =~= base);
        }
        match self.set_ram_area(spi, x, y, x + width, y + height) {
            Ok(()) => {},
            Err(e) => {
                proof {
                    lemma_prefix_self(base, done);
                    lemma_prefix_transitive(base, base + done, self.log());
                }
                return Err(e);
            },
        }
        proof {
            done = done + ram_area_txs(x, y, (x + width) as u32, (y + height) as u32);
            assert(self.log() =~= base + done);
        }
        match self.set_ram_counter(spi, x, y) {
            Ok(()) => {},
            Err(e) => {
                proof {
                    lemma_prefix_self(base, done);
                    lemma_prefix_transitive(base, base + done, self.log());
                }
                return Err(e);
            },
        }
        proof {
            done = done + ram_counter_txs(x, y);
            assert(self.log() =~= base + done);
        }
        let r = self.interface.cmd_with_data(spi, Cmd::WRITE_BW_DATA, buffer);
        proof {
            lemma_prefix_self(base, done);
            lemma_prefix_transitive(base, base + done, self.log());
            if r is Ok {
                assert((base + done) + seq![Tx::Cmd(Cmd::WRITE_BW_DATA), Tx::Data(buffer@)]
                    =~= base + partial_frame_txs(buffer@, x, y, width, height));
            }
        }
        r
    }

    /// Triggers the physical refresh: the only operation that changes what
    /// the panel shows, blocking until the controller reports idle.
    pub fn display_frame(&mut self, spi: &mut SPI) -> (r: Result<(), TransportError>)
        ensures
            old(self).log().is_prefix_of(final(self).log()),
            r is Ok ==> final(self).log() == old(self).log() + display_frame_txs(),
    {
        let ghost base = self.log();
        let mut mode: Vec<u8> = Vec::new();
        mode.push(Flag::DISPLAY_UPDATE_SEQUENCE);
        proof {
            assert(mode@ =~= seq![Flag::DISPLAY_UPDATE_SEQUENCE]);
        }
        match self.interface.cmd_with_data(spi, Cmd::UPDATE_DISPLAY_CTRL2, mode.as_slice()) {
            Ok(()) => {},
            Err(e) => {
                return Err(e);
            },
        }
        let ghost done = seq![Tx::Cmd(Cmd::UPDATE_DISPLAY_CTRL2), Tx::Data(mode@)];
        match self.interface.cmd(spi, Cmd::MASTER_ACTIVATE) {
            Ok(()) => {},
            Err(e) => {
                proof {
                    lemma_prefix_self(base, done);
                }
                return Err(e);
            },
        }
        self.interface.wait_until_idle();
        proof {
            assert(self.log() =~= base + display_frame_txs());
            lemma_prefix_self(base, display_frame_txs());
        }
        Ok(())
    }

    /// Floods the whole black/white plane in controller RAM with the white
    /// byte value for that plane's polarity, without materializing a buffer.
    pub fn clear_bw_frame(&mut self, spi: &mut SPI) -> (r: Result<(), TransportError>)
        ensures
            old(self).log().is_prefix_of(final(self).log()),
            r is Ok ==> final(self).log() == old(self).log() + clear_frame_txs(
                Cmd::WRITE_BW_DATA,
                Color::White.spec_byte_value(),
            ),
    {
        let color = Color::White.get_byte_value();
        self.clear_frame(spi, Cmd::WRITE_BW_DATA, color)
    }

    /// Floods the whole red plane in controller RAM with the white byte
    /// value for that plane's polarity, without materializing a buffer.
    pub fn clear_red_frame(&mut self, spi: &mut SPI) -> (r: Result<(), TransportError>)
        ensures
            old(self).log().is_prefix_of(final(self).log()),
            r is Ok ==> final(self).log() == old(self).log() + clear_frame_txs(
                Cmd::WRITE_RED_DATA,
                Color::White.spec_inverse().spec_byte_value(),
            ),
    {
        let color = Color::White.inverse().get_byte_value();
        self.clear_frame(spi, Cmd::WRITE_RED_DATA, color)
    }

    /// Selects the full panel, resets the counter, then floods the plane
    /// under the given write opcode with a fill byte.
    fn clear_frame(&mut self, spi: &mut SPI, opcode: u8, fill: u8) -> (r: Result<
        (),
        TransportError,
    >)
        ensures
            old(self).log().is_prefix_of(final(self).log()),
            r is Ok ==> final(self).log() == old(self).log() + clear_frame_txs(opcode, fill),
    {
        let ghost base = self.log();
        match self.use_full_frame(spi) {
            Ok(()) => {},
            Err(e) => {
                return Err(e);
            },
        }
        let ghost done = full_frame_txs();
        match self.interface.cmd(spi, opcode) {
            Ok(()) => {},
            Err(e) => {
                proof {
                    lemma_prefix_self(base, done);
                }
                return Err(e);
            },
        }
        let ghost done2 = done + seq![Tx::Cmd(opcode)];
        proof {
            assert(self.log() =~= base + done2);
        }
        let w = WIDTH as u32;
        let h = HEIGHT as u32;
        proof {
            assert(w == 200 && h == 200);
        }
        let repetitions = w / 8 * h;
        let r = self.interface.data_x_times(spi, fill, repetitions);
        proof {
            assert(repetitions == spec_clear_repetitions());
            lemma_prefix_self(base, done2);
            lemma_prefix_transitive(base, base + done2, self.log());
            if r is Ok {
                assert((base + done2) + seq![Tx::Repeated(fill, repetitions)] =~= base
                    + clear_frame_txs(opcode, fill));
            }
        }
        r
    }

    /// Selects the full-panel RAM window and resets the counter to the
    /// origin.
    fn use_full_frame(&mut self, spi: &mut SPI) -> (r: Result<(), TransportError>)
        ensures
            old(self).log().is_prefix_of(final(self).log()),
            r is Ok ==> final(self).log() == old(self).log() + full_frame_txs(),
    {
        let ghost base = self.log();
        match self.set_ram_area(spi, 0, 0, (WIDTH as u32) - 1, (HEIGHT as u32) - 1) {
            Ok(()) => {},
            Err(e) => {
                return Err(e);
            },
        }
        let ghost done = ram_area_txs(0, 0, (WIDTH - 1) as u32, (HEIGHT - 1) as u32);
        let r = self.set_ram_counter(spi, 0, 0);
        proof {
            lemma_prefix_self(base, done);
            lemma_prefix_transitive(base, base + done, self.log());
            if r is Ok {
                assert((base + done) + ram_counter_txs(0, 0) =~= base + full_frame_txs());
            }
        }
        r
    }

    /// Writes the RAM window registers: x positions in byte granularity,
    /// y positions as little-endian 16-bit values. The window must be
    /// non-empty on both axes.
    fn set_ram_area(
        &mut self,
        spi: &mut SPI,
        start_x: u32,
        start_y: u32,
        end_x: u32,
        end_y: u32,
    ) -> (r: Result<(), TransportError>)
        requires
            start_x < end_x,
            start_y < end_y,
        ensures
            old(self).log().is_prefix_of(final(self).log()),
            r is Ok ==> final(self).log() == old(self).log() + ram_area_txs(
                start_x,
                start_y,
                end_x,
                end_y,
            ),
    {
        let ghost base = self.log();
        let mut x_bytes: Vec<u8> = Vec::new();
        x_bytes.push(((start_x >> 3) & 0xFF) as u8);
        x_bytes.push(((end_x >> 3) & 0xFF) as u8);
        proof {
            assert(x_bytes@ =~= ram_x_window_bytes(start_x, end_x));
        }
        match self.interface.cmd_with_data(spi, Cmd::SET_RAMXPOS, x_bytes.as_slice()) {
            Ok(()) => {},
            Err(e) => {
                return Err(e);
            },
        }
        let ghost done = seq![Tx::Cmd(Cmd::SET_RAMXPOS), Tx::Data(ram_x_window_bytes(start_x, end_x))];
        let mut y_bytes: Vec<u8> = Vec::new();
        y_bytes.push((start_y & 0xFF) as u8);
        y_bytes.push(((start_y >> 8) & 0xFF) as u8);
        y_bytes.push((end_y & 0xFF) as u8);
        y_bytes.push(((end_y >> 8) & 0xFF) as u8);
        proof {
            assert(y_bytes@ =~= ram_y_window_bytes(start_y, end_y));
        }
        let r = self.interface.cmd_with_data(spi, Cmd::SET_RAMYPOS, y_bytes.as_slice());
        proof {
            lemma_prefix_self(base, done);
            lemma_prefix_transitive(base, base + done, self.log());
            if r is Ok {
                assert((base + done) + seq![
                    Tx::Cmd(Cmd::SET_RAMYPOS),
                    Tx::Data(ram_y_window_bytes(start_y, end_y)),
                ] =~= base + ram_area_txs(start_x, start_y, end_x, end_y));
            }
        }
        r
    }

    /// Writes the RAM counter registers: the x position in byte granularity
    /// (the three low bits are not addressable), the y position as a
    /// little-endian 16-bit value.
    fn set_ram_counter(&mut self, spi: &mut SPI, x: u32, y: u32) -> (r: Result<
        (),
        TransportError,
    >)
        ensures
            old(self).log().is_prefix_of(final(self).log()),
            r is Ok ==> final(self).log() == old(self).log() + ram_counter_txs(x, y),
    {
        let ghost base = self.log();
        let mut x_bytes: Vec<u8> = Vec::new();
        x_bytes.push(((x >> 3) & 0xFF) as u8);
        proof {
            assert(x_bytes@ =~= seq![((x >> 3) & 0xFF) as u8]);
        }
        match self.interface.cmd_with_data(spi, Cmd::SET_RAMX_COUNTER, x_bytes.as_slice()) {
            Ok(()) => {},
            Err(e) => {
                return Err(e);
            },
        }
        let ghost done = seq![Tx::Cmd(Cmd::SET_RAMX_COUNTER), Tx::Data(x_bytes@)];
        let mut y_bytes: Vec<u8> = Vec::new();
        y_bytes.push((y & 0xFF) as u8);
        y_bytes.push(((y >> 8) & 0xFF) as u8);
        proof {
            assert(y_bytes@ =~= seq![(y & 0xFF) as u8, ((y >> 8) & 0xFF) as u8]);
        }
        let r = self.interface.cmd_with_data(spi, Cmd::SET_RAMY_COUNTER, y_bytes.as_slice());
        proof {
            lemma_prefix_self(base, done);
            lemma_prefix_transitive(base, base + done, self.log());
            if r is Ok {
                assert((base + done) + seq![Tx::Cmd(Cmd::SET_RAMY_COUNTER), Tx::Data(y_bytes@)]
                    =~= base + ram_counter_txs(x, y));
            }
        }
        r
    }
}

} // verus!
