use dmx_bridge::dmx::{
    frame_actions, init_outcome, line_settings, start_transmitter, transmit_frame,
    transmitter_step, wire_frame, write_outcome, DMXController, DMXControllerError, DMXDriver,
    DriverError, FTDIDMXController, LineAction, LineSettings, Parity, TransmitterEvent, BAUD_RATE,
    BREAK_MICROS, DMX_CHANNELS, FLUSH_MILLIS, FRAME_GAP_MICROS, MARK_AFTER_BREAK_MICROS,
    MIN_BREAK_MICROS, MIN_MARK_AFTER_BREAK_MICROS, START_CODE,
};

struct Recorder {
    inits: usize,
    frames: Vec<Vec<u8>>,
    broken: bool,
}

impl Recorder {
    fn new() -> Self {
        Recorder { inits: 0, frames: Vec::new(), broken: false }
    }

    fn broken() -> Self {
        Recorder { inits: 0, frames: Vec::new(), broken: true }
    }
}

impl DMXDriver for Recorder {
    fn init(&mut self) -> Result<(), DriverError> {
        if self.broken {
            return Err(DriverError { reason: "no device".to_string() });
        }
        self.inits += 1;
        Ok(())
    }

    fn write_frame(&mut self, data: &[u8]) -> Result<(), DriverError> {
        if self.broken {
            return Err(DriverError { reason: "line down".to_string() });
        }
        self.frames.push(wire_frame(data));
        Ok(())
    }
}

#[test]
fn new_universe_is_dark_and_idle() {
    let universe = FTDIDMXController::new(Recorder::new());
    assert_eq!(universe.frame(), [0u8; 512]);
    assert!(!universe.is_running());
    assert!(universe.into_driver().is_some());
}

#[test]
fn update_one_sets_the_channel_and_no_other() {
    let mut universe = FTDIDMXController::new(Recorder::new());
    assert_eq!(universe.update_one(7, 200), Ok(()));
    let mut expected = [0u8; 512];
    expected[7] = 200;
    assert_eq!(universe.frame(), expected);
}

#[test]
fn update_one_reaches_the_first_and_the_last_channel() {
    let mut universe = FTDIDMXController::new(Recorder::new());
    assert_eq!(universe.update_one(0, 1), Ok(()));
    assert_eq!(universe.update_one(511, 2), Ok(()));
    assert_eq!(universe.frame()[0], 1);
    assert_eq!(universe.frame()[511], 2);
}

#[test]
fn update_one_refuses_an_address_outside_the_universe() {
    let mut universe = FTDIDMXController::new(Recorder::new());
    universe.update_one(3, 9).unwrap();
    let before = universe.frame();
    assert_eq!(universe.update_one(512, 1), Err(DMXControllerError::OutOfRange));
    assert_eq!(universe.update_one(u16::MAX, 1), Err(DMXControllerError::OutOfRange));
    assert_eq!(universe.frame(), before);
}

#[test]
fn update_many_writes_in_order_and_the_last_write_wins() {
    let mut universe = FTDIDMXController::new(Recorder::new());
    assert_eq!(universe.update_many(vec![(1, 10), (2, 20), (1, 30)]), Ok(()));
    let mut expected = [0u8; 512];
    expected[1] = 30;
    expected[2] = 20;
    assert_eq!(universe.frame(), expected);
}

#[test]
fn update_many_with_one_bad_address_changes_nothing() {
    let mut universe = FTDIDMXController::new(Recorder::new());
    universe.update_many(vec![(1, 10), (2, 20)]).unwrap();
    let before = universe.frame();
    assert_eq!(
        universe.update_many(vec![(1, 99), (512, 1), (2, 98)]),
        Err(DMXControllerError::OutOfRange)
    );
    assert_eq!(universe.frame(), before);
    assert_eq!(
        universe.update_many(vec![(3, 1), (4, 1), (600, 1)]),
        Err(DMXControllerError::OutOfRange)
    );
    assert_eq!(universe.frame(), before);
}

#[test]
fn update_many_with_no_write_changes_nothing() {
    let mut universe = FTDIDMXController::new(Recorder::new());
    universe.update_one(5, 5).unwrap();
    let before = universe.frame();
    assert_eq!(universe.update_many(Vec::new()), Ok(()));
    assert_eq!(universe.frame(), before);
}

#[test]
fn start_hands_out_the_device_once() {
    let mut universe = FTDIDMXController::new(Recorder::new());
    assert!(universe.start().is_ok());
    assert!(universe.is_running());
    assert_eq!(universe.start().err(), Some(DMXControllerError::InitError));
    assert!(universe.is_running());
}

#[test]
fn stop_without_start_fails_and_still_darkens() {
    let mut universe = FTDIDMXController::new(Recorder::new());
    universe.update_one(1, 1).unwrap();
    assert_eq!(universe.stop(), Err(DMXControllerError::NotRunning));
    assert_eq!(universe.frame(), [0u8; 512]);
}

#[test]
fn stop_twice_fails_the_second_time() {
    let mut universe = FTDIDMXController::new(Recorder::new());
    let _driver = universe.start().unwrap();
    assert_eq!(universe.stop(), Ok(()));
    assert_eq!(universe.stop(), Err(DMXControllerError::NotRunning));
}

#[test]
fn last_frame_before_the_device_comes_back_is_dark() {
    let mut universe = FTDIDMXController::new(Recorder::new());
    let mut driver = universe.start().unwrap();
    start_transmitter(&mut driver).unwrap();
    universe.update_many(vec![(0, 10), (255, 20), (511, 30)]).unwrap();
    transmit_frame(&mut driver, &universe.frame()).unwrap();
    assert_eq!(driver.frames.last().unwrap()[1], 10);

    assert_eq!(universe.stop(), Ok(()));
    transmit_frame(&mut driver, &universe.frame()).unwrap();
    assert_eq!(universe.reclaim(Some(Ok(driver))), Ok(()));

    let driver = universe.into_driver().unwrap();
    assert_eq!(driver.inits, 1);
    assert_eq!(driver.frames.len(), 2);
    let last = driver.frames.last().unwrap();
    assert_eq!(last.len(), 513);
    assert!(last.iter().all(|byte| *byte == 0));
}

#[test]
fn universe_can_start_again_after_the_device_came_back() {
    let mut universe = FTDIDMXController::new(Recorder::new());
    let driver = universe.start().unwrap();
    universe.stop().unwrap();
    universe.reclaim(Some(Ok(driver))).unwrap();
    assert!(!universe.is_running());
    assert!(universe.start().is_ok());
    assert!(universe.is_running());
}

#[test]
fn reclaim_passes_on_the_error_that_ended_the_transmitter() {
    let mut universe = FTDIDMXController::new(Recorder::new());
    let _driver = universe.start().unwrap();
    universe.stop().unwrap();
    assert_eq!(
        universe.reclaim(Some(Err(DMXControllerError::WriteError))),
        Err(DMXControllerError::WriteError)
    );
    assert_eq!(
        universe.reclaim(Some(Err(DMXControllerError::InitError))),
        Err(DMXControllerError::InitError)
    );
    assert!(universe.into_driver().is_none());
}

#[test]
fn reclaim_without_a_transmitter_to_join_is_not_running() {
    let mut universe = FTDIDMXController::new(Recorder::new());
    let _driver = universe.start().unwrap();
    universe.stop().unwrap();
    assert_eq!(universe.reclaim(None), Err(DMXControllerError::NotRunning));
}

#[test]
fn wire_frame_puts_the_start_code_first() {
    assert_eq!(wire_frame(&[1, 2, 3]), vec![0, 1, 2, 3]);
    assert_eq!(wire_frame(&[]), vec![START_CODE]);
    let mut channels = [0u8; 512];
    channels[0] = 255;
    channels[511] = 7;
    let bytes = wire_frame(&channels);
    assert_eq!(bytes.len(), DMX_CHANNELS + 1);
    assert_eq!(bytes[0], 0);
    assert_eq!(bytes[1], 255);
    assert_eq!(bytes[512], 7);
}

#[test]
fn frame_actions_follow_the_protocol() {
    assert_eq!(
        frame_actions(&[9, 8]),
        vec![
            LineAction::BreakOn,
            LineAction::Pause { micros: 10_000 },
            LineAction::BreakOff,
            LineAction::Pause { micros: 8 },
            LineAction::Send { bytes: vec![0, 9, 8] },
            LineAction::Pause { micros: 15_000 },
        ]
    );
}

#[test]
fn frame_timing_is_not_shorter_than_the_protocol_asks() {
    assert_eq!(BREAK_MICROS, 10_000);
    assert_eq!(MARK_AFTER_BREAK_MICROS, 8);
    assert_eq!(FRAME_GAP_MICROS, 15_000);
    assert!(BREAK_MICROS >= MIN_BREAK_MICROS);
    assert!(MARK_AFTER_BREAK_MICROS >= MIN_MARK_AFTER_BREAK_MICROS);
}

#[test]
fn line_settings_are_those_of_dmx512() {
    assert_eq!(
        line_settings(),
        LineSettings { baud_rate: 250_000, data_bits: 8, stop_bits: 2, parity: Parity::No }
    );
    assert_eq!(BAUD_RATE, 250_000);
}

#[test]
fn device_errors_become_init_and_write_errors() {
    let fault = || DriverError { reason: "gone".to_string() };
    assert_eq!(init_outcome(Ok(())), Ok(()));
    assert_eq!(init_outcome(Err(fault())), Err(DMXControllerError::InitError));
    assert_eq!(write_outcome(Ok(())), Ok(()));
    assert_eq!(write_outcome(Err(fault())), Err(DMXControllerError::WriteError));
}

#[test]
fn transmitter_reports_a_broken_device() {
    let mut driver = Recorder::broken();
    assert_eq!(start_transmitter(&mut driver), Err(DMXControllerError::InitError));
    assert_eq!(transmit_frame(&mut driver, &[0u8; 512]), Err(DMXControllerError::WriteError));
    assert!(driver.frames.is_empty());
}

#[test]
fn transmitter_hands_all_channels_to_the_device() {
    let mut driver = Recorder::new();
    let mut channels = [0u8; 512];
    channels[100] = 42;
    assert_eq!(transmit_frame(&mut driver, &channels), Ok(()));
    assert_eq!(driver.frames.len(), 1);
    assert_eq!(driver.frames[0].len(), 513);
    assert_eq!(driver.frames[0][101], 42);
}

#[test]
fn error_messages_say_what_went_wrong() {
    assert_eq!(DMXControllerError::InitError.message(), "Failed to initialize DMX controller");
    assert_eq!(DMXControllerError::WriteError.message(), "Failed to write to DMX controller");
    assert_eq!(DMXControllerError::NotRunning.message(), "DMX controller is not running");
    assert_eq!(DMXControllerError::OutOfRange.message(), "DMX channel is out of range");
}

#[test]
fn writing_a_batch_again_changes_nothing() {
    let mut universe = FTDIDMXController::new(Recorder::new());
    universe.update_one(2, 77).unwrap();
    let batch = vec![(1, 10), (2, 20), (1, 30), (400, 4)];
    universe.update_many(batch.clone()).unwrap();
    let once = universe.frame();
    universe.update_many(batch).unwrap();
    assert_eq!(universe.frame(), once);
}

#[test]
fn transmitter_step_ends_on_cancellation_and_goes_on_after_a_frame() {
    let mut driver = Recorder::new();
    assert_eq!(transmitter_step(&mut driver, TransmitterEvent::Cancelled), Ok(false));
    assert!(driver.frames.is_empty());
    assert_eq!(transmitter_step(&mut driver, TransmitterEvent::Frame([3u8; 512])), Ok(true));
    assert_eq!(driver.frames.len(), 1);
    assert_eq!(driver.frames[0][512], 3);
    let mut broken = Recorder::broken();
    assert_eq!(
        transmitter_step(&mut broken, TransmitterEvent::Frame([0u8; 512])),
        Err(DMXControllerError::WriteError)
    );
    assert_eq!(FLUSH_MILLIS, 100);
}

#[test]
fn transmitter_asks_the_device_for_one_thing_at_a_time() {
    let mut driver = Recorder::new();
    assert_eq!(start_transmitter(&mut driver), Ok(()));
    assert_eq!(driver.inits, 1);
    assert!(driver.frames.is_empty());

    let mut channels = [0u8; 512];
    channels[0] = 1;
    channels[511] = 2;
    assert_eq!(transmit_frame(&mut driver, &channels), Ok(()));
    assert_eq!(driver.inits, 1);
    assert_eq!(driver.frames.len(), 1);
    assert_eq!(driver.frames[0], wire_frame(&channels));
}

#[test]
fn device_comes_back_after_a_dark_frame() {
    let mut universe = FTDIDMXController::new(Recorder::new());
    let mut driver = universe.start().unwrap();
    start_transmitter(&mut driver).unwrap();
    universe.update_many(vec![(0, 10), (255, 20), (511, 30)]).unwrap();
    transmit_frame(&mut driver, &universe.frame()).unwrap();
    assert_eq!(universe.stop(), Ok(()));

    assert_eq!(universe.hand_back(driver), Ok(()));
    assert!(!universe.is_running());
    assert_eq!(universe.frame(), [0u8; 512]);
    let driver = universe.into_driver().unwrap();
    assert_eq!(driver.frames.len(), 2);
    assert_eq!(driver.frames[0][1], 10);
    assert_eq!(driver.frames[1], vec![0u8; 513]);
}

#[test]
fn hand_back_darkens_the_line_whatever_the_frame_held() {
    let mut universe = FTDIDMXController::new(Recorder::new());
    let driver = universe.start().unwrap();
    universe.update_one(7, 99).unwrap();
    assert_eq!(universe.hand_back(driver), Ok(()));
    assert!(universe.is_running());
    assert_eq!(universe.frame(), [0u8; 512]);
    assert_eq!(universe.into_driver().unwrap().frames, vec![vec![0u8; 513]]);
}

#[test]
fn hand_back_keeps_a_device_that_failed() {
    let mut universe = FTDIDMXController::new(Recorder::new());
    let _first = universe.start().unwrap();
    universe.stop().unwrap();
    assert_eq!(universe.hand_back(Recorder::broken()), Err(DMXControllerError::WriteError));
    assert_eq!(universe.frame(), [0u8; 512]);
    let driver = universe.into_driver().unwrap();
    assert!(driver.broken);
    assert!(driver.frames.is_empty());
}
