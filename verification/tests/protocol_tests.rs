use ssd1681::driver::{window_is_valid, Ssd1681};
use ssd1681::interface::{DisplayInterface, TransportError};
use ssd1681::mock::{BusyScript, DelayRecorder, FailingSpi, PinRecorder, SpiRecorder};

type TestDriver = Ssd1681<SpiRecorder, PinRecorder, BusyScript, PinRecorder, PinRecorder>;

fn new_driver(spi: &mut SpiRecorder, busy: BusyScript) -> TestDriver {
    let mut delay = DelayRecorder::new();
    Ssd1681::new(
        spi,
        PinRecorder::new(),
        busy,
        PinRecorder::new(),
        PinRecorder::new(),
        &mut delay,
    )
    .unwrap()
}

fn init_writes() -> Vec<Vec<u8>> {
    vec![
        vec![0x12],               // software reset
        vec![0x01],               // driver control
        vec![199, 0x00, 0x00],    // panel height - 1, scan direction
        vec![0x11],               // data entry mode
        vec![0b11],               // increment x, increment y
        vec![0x44],               // RAM x window
        vec![0, 24],              // 0 .. 199 in byte granularity
        vec![0x45],               // RAM y window
        vec![0, 0, 199, 0],       // 0 .. 199 little-endian
        vec![0x4E],               // RAM x counter
        vec![0],
        vec![0x4F],               // RAM y counter
        vec![0, 0],
        vec![0x3C],               // border waveform
        vec![0x05],               // follow LUT, LUT1
        vec![0x18],               // temperature control
        vec![0x80],               // internal sensor
    ]
}

fn full_window_writes() -> Vec<Vec<u8>> {
    vec![
        vec![0x44],
        vec![0, 24],
        vec![0x45],
        vec![0, 0, 199, 0],
        vec![0x4E],
        vec![0],
        vec![0x4F],
        vec![0, 0],
    ]
}

#[test]
fn init_emits_exact_sequence() {
    let mut spi = SpiRecorder::new();
    let _driver = new_driver(&mut spi, BusyScript::idle());
    assert_eq!(spi.writes, init_writes());
}

#[test]
fn clear_bw_frame_emits_window_opcode_and_flood() {
    let mut spi = SpiRecorder::new();
    let mut driver = new_driver(&mut spi, BusyScript::idle());
    let start = spi.writes.len();

    driver.clear_bw_frame(&mut spi).unwrap();

    let mut expected = full_window_writes();
    expected.push(vec![0x24]);
    for _ in 0..5000 {
        expected.push(vec![0xFF]);
    }
    assert_eq!(spi.writes.len(), start + expected.len());
    assert_eq!(&spi.writes[start..], expected.as_slice());
}

#[test]
fn clear_red_frame_emits_window_opcode_and_flood() {
    let mut spi = SpiRecorder::new();
    let mut driver = new_driver(&mut spi, BusyScript::idle());
    let start = spi.writes.len();

    driver.clear_red_frame(&mut spi).unwrap();

    let mut expected = full_window_writes();
    expected.push(vec![0x26]);
    for _ in 0..5000 {
        expected.push(vec![0x00]);
    }
    assert_eq!(&spi.writes[start..], expected.as_slice());
}

#[test]
fn display_frame_emits_refresh_sequence() {
    let mut spi = SpiRecorder::new();
    // two busy readings before the controller settles; the busy waits poll
    // through them and emit nothing on the bus
    let mut driver = new_driver(&mut spi, BusyScript::new(vec![true, true]));
    let start = spi.writes.len();

    driver.display_frame(&mut spi).unwrap();

    let expected: Vec<Vec<u8>> = vec![vec![0x22], vec![0xF7], vec![0x20]];
    assert_eq!(&spi.writes[start..], expected.as_slice());
}

#[test]
fn update_bw_frame_streams_buffer_in_chunks() {
    let mut spi = SpiRecorder::new();
    let mut driver = new_driver(&mut spi, BusyScript::idle());
    let start = spi.writes.len();

    let buffer = vec![0xAB; 5000];
    driver.update_bw_frame(&mut spi, &buffer).unwrap();

    let mut expected = full_window_writes();
    expected.push(vec![0x24]);
    // one transaction, split at the bus chunk ceiling
    expected.push(vec![0xAB; 4096]);
    expected.push(vec![0xAB; 904]);
    assert_eq!(&spi.writes[start..], expected.as_slice());
}

#[test]
fn update_red_frame_uses_red_opcode() {
    let mut spi = SpiRecorder::new();
    let mut driver = new_driver(&mut spi, BusyScript::idle());
    let start = spi.writes.len();

    let buffer = vec![0x00; 5000];
    driver.update_red_frame(&mut spi, &buffer).unwrap();

    assert_eq!(spi.writes[start + 8], vec![0x26]);
    assert_eq!(spi.writes[start + 9], vec![0x00; 4096]);
    assert_eq!(spi.writes[start + 10], vec![0x00; 904]);
}

#[test]
fn update_partial_bw_frame_sets_partial_window() {
    let mut spi = SpiRecorder::new();
    let mut driver = new_driver(&mut spi, BusyScript::idle());
    let start = spi.writes.len();

    let buffer = vec![0x55, 0xAA];
    driver.update_partial_bw_frame(&mut spi, &buffer, 8, 4, 8, 2).unwrap();

    let expected: Vec<Vec<u8>> = vec![
        vec![0x44],
        vec![1, 2],          // columns 8 .. 16 in byte granularity
        vec![0x45],
        vec![4, 0, 6, 0],    // rows 4 .. 6 little-endian
        vec![0x4E],
        vec![1],
        vec![0x4F],
        vec![4, 0],
        vec![0x24],
        vec![0x55, 0xAA],
    ];
    assert_eq!(&spi.writes[start..], expected.as_slice());
}

#[test]
fn ram_window_must_not_be_empty() {
    // a window is valid only while start < end on both axes: the second
    // window here collapses on the x axis and must be refused
    assert!(window_is_valid(0, 0, 10, 20));
    assert!(!window_is_valid(0, 0, 0, 20));
    assert!(!window_is_valid(0, 5, 10, 5));
}

#[test]
fn transport_error_aborts_initialization() {
    let mut spi = FailingSpi;
    let mut delay = DelayRecorder::new();
    let result = Ssd1681::new(
        &mut spi,
        PinRecorder::new(),
        BusyScript::idle(),
        PinRecorder::new(),
        PinRecorder::new(),
        &mut delay,
    );
    assert_eq!(result.err(), Some(TransportError));
}

#[test]
fn transport_error_propagates_from_commands() {
    let mut spi = FailingSpi;
    let mut interface: DisplayInterface<FailingSpi, PinRecorder, BusyScript, PinRecorder, PinRecorder> =
        DisplayInterface::new(
            PinRecorder::new(),
            BusyScript::idle(),
            PinRecorder::new(),
            PinRecorder::new(),
        );
    assert_eq!(interface.cmd(&mut spi, 0x12), Err(TransportError));
    assert_eq!(interface.data(&mut spi, &[1, 2, 3]), Err(TransportError));
    assert_eq!(interface.data_x_times(&mut spi, 0xFF, 3), Err(TransportError));
}

#[test]
fn reset_waits_the_settle_time_twice() {
    let mut delay = DelayRecorder::new();
    let mut interface: DisplayInterface<SpiRecorder, PinRecorder, BusyScript, PinRecorder, PinRecorder> =
        DisplayInterface::new(
            PinRecorder::new(),
            BusyScript::idle(),
            PinRecorder::new(),
            PinRecorder::new(),
        );
    interface.reset(&mut delay).unwrap();
    assert_eq!(delay.delays_ms, vec![10, 10]);
}

#[test]
fn initialization_pulses_reset_once() {
    let mut spi = SpiRecorder::new();
    let mut delay = DelayRecorder::new();
    Ssd1681::new(
        &mut spi,
        PinRecorder::new(),
        BusyScript::idle(),
        PinRecorder::new(),
        PinRecorder::new(),
        &mut delay,
    )
    .unwrap();
    assert_eq!(delay.delays_ms, vec![10, 10]);
}

#[test]
fn interface_sends_commands_and_data_unaltered() {
    let mut spi = SpiRecorder::new();
    let mut interface: DisplayInterface<SpiRecorder, PinRecorder, BusyScript, PinRecorder, PinRecorder> =
        DisplayInterface::new(
            PinRecorder::new(),
            BusyScript::idle(),
            PinRecorder::new(),
            PinRecorder::new(),
        );
    interface.cmd(&mut spi, 0xAA).unwrap();
    interface.data(&mut spi, &[1, 2, 3]).unwrap();
    interface.cmd_with_data(&mut spi, 0x10, &[9]).unwrap();
    interface.data_x_times(&mut spi, 7, 4).unwrap();
    let expected: Vec<Vec<u8>> = vec![
        vec![0xAA],
        vec![1, 2, 3],
        vec![0x10],
        vec![9],
        vec![7],
        vec![7],
        vec![7],
        vec![7],
    ];
    assert_eq!(spi.writes, expected);
}
