//! Register opcodes and flag values of the SSD1681 controller.

use vstd::prelude::*;

verus! {

/// Command opcodes, written with the data/command line in command state.
pub struct Cmd;

impl Cmd {
    /// Software reset.
    pub const SW_RESET: u8 = 0x12;

    /// Set panel height and gate scan direction.
    pub const DRIVER_CONTROL: u8 = 0x01;

    /// Set the RAM counter increment direction.
    pub const DATA_ENTRY_MODE: u8 = 0x11;

    /// Define the RAM window bounds on the x axis (byte granular).
    pub const SET_RAMXPOS: u8 = 0x44;

    /// Define the RAM window bounds on the y axis.
    pub const SET_RAMYPOS: u8 = 0x45;

    /// Select the border refresh waveform.
    pub const BORDER_WAVEFORM_CONTROL: u8 = 0x3C;

    /// Select the temperature-compensation source.
    pub const TEMP_CONTROL: u8 = 0x18;

    /// Set the current RAM write position on the x axis (byte granular).
    pub const SET_RAMX_COUNTER: u8 = 0x4E;

    /// Set the current RAM write position on the y axis.
    pub const SET_RAMY_COUNTER: u8 = 0x4F;

    /// Stream the black/white plane into RAM.
    pub const WRITE_BW_DATA: u8 = 0x24;

    /// Stream the red plane into RAM.
    pub const WRITE_RED_DATA: u8 = 0x26;

    /// Select the refresh mode flags.
    pub const UPDATE_DISPLAY_CTRL2: u8 = 0x22;

    /// Trigger a physical refresh from RAM contents.
    pub const MASTER_ACTIVATE: u8 = 0x20;
}

/// Flag bytes carried in command payloads.
pub struct Flag;

impl Flag {
    /// Data-entry mode: increment x and increment y.
    pub const DATA_ENTRY_INCRY_INCRX: u8 = 0b11;

    /// Temperature control: use the internal sensor.
    pub const INTERNAL_TEMP_SENSOR: u8 = 0x80;

    /// Border waveform: follow the LUT.
    pub const BORDER_WAVEFORM_FOLLOW_LUT: u8 = 0b0100;

    /// Border waveform: LUT1.
    pub const BORDER_WAVEFORM_LUT1: u8 = 0b0001;

    /// Display-update sequence for a full refresh.
    pub const DISPLAY_UPDATE_SEQUENCE: u8 = 0xF7;
}

} // verus!
