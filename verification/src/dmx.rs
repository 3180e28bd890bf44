//! One DMX512 universe: the frame buffer, the framing on the wire and the life
//! cycle of the transmitter that owns the device.

use vstd::prelude::*;

verus! {

/// The number of channels of a universe.
pub const DMX_CHANNELS: usize = 512;

/// The byte that precedes the channel values of a dimmer frame.
pub const START_CODE: u8 = 0x00;

/// Line speed in bits per second.
pub const BAUD_RATE: u32 = 250_000;

/// How long the line is held in break before a frame, in microseconds.
pub const BREAK_MICROS: u64 = 10_000;

/// How long the line idles between break and start code, in microseconds.
pub const MARK_AFTER_BREAK_MICROS: u64 = 8;

/// How long the line idles after a frame, in microseconds.
pub const FRAME_GAP_MICROS: u64 = 15_000;

/// How long a stopped universe is given to send its dark frame before its
/// transmitter is cancelled, in milliseconds.
pub const FLUSH_MILLIS: u64 = 100;

/// The shortest break that DMX512 accepts, in microseconds.
pub const MIN_BREAK_MICROS: u64 = 92;

/// The shortest mark after break that DMX512 accepts, in microseconds.
pub const MIN_MARK_AFTER_BREAK_MICROS: u64 = 8;

/// Why a device refused a call. The transmitter does not look inside.
#[derive(Debug, PartialEq, Eq)]
pub struct DriverError {
    pub reason: String,
}

/// A device that can put frames on a DMX line.
///
/// What a device does when it is called is its own affair, and so is whether it
/// succeeds. An implementation may say what can come of a call by giving
/// `prepares` and `sends`; one that does not admits every outcome. The
/// transmitter tells its callers in these terms which call the device has been
/// through, and with which data.
pub trait DMXDriver {
    /// Whether a device that is asked to prepare the line as it is in `self` can
    /// be as in `after` when the call is over, having succeeded or not.
    open spec fn prepares(&self, after: &Self, succeeded: bool) -> bool {
        true
    }

    /// Whether a device that is asked to send a frame with the channel values in
    /// `data` as it is in `self` can be as in `after` when the call is over,
    /// having succeeded or not.
    open spec fn sends(&self, data: Seq<u8>, after: &Self, succeeded: bool) -> bool {
        true
    }

    /// Prepares the line for DMX512.
    fn init(&mut self) -> (answer: Result<(), DriverError>)
        ensures
            old(self).prepares(final(self), answer is Ok),
    ;

    /// Sends one frame that carries the channel values in `data`.
    fn write_frame(&mut self, data: &[u8]) -> (answer: Result<(), DriverError>)
        ensures
            old(self).sends(data@, final(self), answer is Ok),
    ;
}

/// What can go wrong with a universe.
#[derive(Clone, Copy, Debug, PartialEq, Eq, Structural)]
pub enum DMXControllerError {
    InitError,
    WriteError,
    NotRunning,
    OutOfRange,
}

impl DMXControllerError {
    /// The text of the error.
    pub open spec fn text(&self) -> Seq<char> {
        match self {
            DMXControllerError::InitError => "Failed to initialize DMX controller"@,
            DMXControllerError::WriteError => "Failed to write to DMX controller"@,
            DMXControllerError::NotRunning => "DMX controller is not running"@,
            DMXControllerError::OutOfRange => "DMX channel is out of range"@,
        }
    }

    /// The error as a line for a log or a user.
    pub fn message(&self) -> (s: String)
        ensures
            s@ == self.text(),
    {
        match self {
            DMXControllerError::InitError => "Failed to initialize DMX controller".to_string(),
            DMXControllerError::WriteError => "Failed to write to DMX controller".to_string(),
            DMXControllerError::NotRunning => "DMX controller is not running".to_string(),
            DMXControllerError::OutOfRange => "DMX channel is out of range".to_string(),
        }
    }
}

/// Whether every write of the batch addresses a channel of the universe.
pub open spec fn writes_in_range(writes: Seq<(u16, u8)>) -> bool {
    forall|i: int| 0 <= i < writes.len() ==> (#[trigger] writes[i]).0 < DMX_CHANNELS
}

/// The frame after the writes of the batch, taken in order. A write replaces the
/// value of its channel; a write to a channel that the frame does not have changes
/// nothing.
pub open spec fn apply_writes(frame: Seq<u8>, writes: Seq<(u16, u8)>) -> Seq<u8>
    decreases writes.len(),
{
    if writes.len() == 0 {
        frame
    } else {
        let before = apply_writes(frame, writes.drop_last());
        let (channel, value) = writes.last();
        if channel < before.len() {
            before.update(channel as int, value)
        } else {
            before
        }
    }
}

/// A frame in which every channel is dark.
pub open spec fn dark_frame() -> Seq<u8> {
    Seq::new(DMX_CHANNELS as nat, |i: int| 0u8)
}

/// A batch of writes leaves the number of channels as it was.
pub proof fn apply_writes_keeps_length(frame: Seq<u8>, writes: Seq<(u16, u8)>)
    ensures
        apply_writes(frame, writes).len() == frame.len(),
    decreases writes.len(),
{
    if writes.len() > 0 {
        apply_writes_keeps_length(frame, writes.drop_last());
    }
}

/// After a batch, a channel holds the value of the last write that addressed it,
/// and its old value if none did.
pub proof fn last_write_wins(frame: Seq<u8>, writes: Seq<(u16, u8)>, channel: int)
    requires
        0 <= channel < frame.len(),
    ensures
        (forall|i: int| 0 <= i < writes.len() ==> (#[trigger] writes[i]).0 != channel)
            ==> apply_writes(frame, writes)[channel] == frame[channel],
        forall|i: int|
            0 <= i < writes.len() && (#[trigger] writes[i]).0 == channel && (forall|j: int|
                i < j < writes.len() ==> (#[trigger] writes[j]).0 != channel) ==> apply_writes(
                frame,
                writes,
            )[channel] == writes[i].1,
    decreases writes.len(),
{
    if writes.len() > 0 {
        let head = writes.drop_last();
        last_write_wins(frame, head, channel);
        apply_writes_keeps_length(frame, head);
        let n = writes.len() - 1;
        if (forall|i: int| 0 <= i < writes.len() ==> (#[trigger] writes[i]).0 != channel) {
            assert forall|i: int| 0 <= i < head.len() implies (#[trigger] head[i]).0
                != channel by {
                assert(head[i] == writes[i]);
            }
        }
        assert forall|i: int|
            0 <= i < writes.len() && (#[trigger] writes[i]).0 == channel && (forall|j: int|
                i < j < writes.len() ==> (#[trigger] writes[j]).0
                    != channel) implies apply_writes(frame, writes)[channel] == writes[i].1 by {
            if i < n {
                assert(head[i] == writes[i]);
                assert forall|j: int| i < j < head.len() implies (#[trigger] head[j]).0
                    != channel by {
                    assert(head[j] == writes[j]);
                }
                assert(writes[n].0 != channel);
            }
        }
    }
}

/// The value that the batch leaves on the channel of a frame that has it: that of
/// the last write to the channel, or the value that was there.
spec fn settled(frame: Seq<u8>, writes: Seq<(u16, u8)>, channel: int) -> u8
    decreases writes.len(),
{
    if writes.len() == 0 {
        frame[channel]
    } else if writes.last().0 == channel {
        writes.last().1
    } else {
        settled(frame, writes.drop_last(), channel)
    }
}

/// Whether a write of the batch addresses the channel.
spec fn addresses(writes: Seq<(u16, u8)>, channel: int) -> bool {
    exists|i: int| 0 <= i < writes.len() && (#[trigger] writes[i]).0 == channel
}

proof fn apply_writes_settles(frame: Seq<u8>, writes: Seq<(u16, u8)>, channel: int)
    requires
        0 <= channel < frame.len(),
    ensures
        apply_writes(frame, writes)[channel] == settled(frame, writes, channel),
    decreases writes.len(),
{
    if writes.len() > 0 {
        apply_writes_settles(frame, writes.drop_last(), channel);
        apply_writes_keeps_length(frame, writes.drop_last());
    }
}

proof fn settled_needs_no_frame(
    frame: Seq<u8>,
    other: Seq<u8>,
    writes: Seq<(u16, u8)>,
    channel: int,
)
    ensures
        addresses(writes, channel) ==> settled(frame, writes, channel) == settled(
            other,
            writes,
            channel,
        ),
        !addresses(writes, channel) ==> settled(frame, writes, channel) == frame[channel],
    decreases writes.len(),
{
    if writes.len() > 0 {
        let head = writes.drop_last();
        settled_needs_no_frame(frame, other, head, channel);
        if writes.last().0 != channel {
            if addresses(writes, channel) {
                let i = choose|i: int| 0 <= i < writes.len() && (#[trigger] writes[i]).0 == channel;
                assert(head[i] == writes[i]);
                assert(addresses(head, channel));
            } else {
                assert forall|i: int| 0 <= i < head.len() implies (#[trigger] head[i]).0
                    != channel by {
                    assert(head[i] == writes[i]);
                }
            }
        } else {
            assert(writes[writes.len() - 1].0 == channel);
        }
    }
}

/// A batch that has been written changes nothing when it is written again.
pub proof fn writing_twice_is_writing_once(frame: Seq<u8>, writes: Seq<(u16, u8)>)
    ensures
        apply_writes(apply_writes(frame, writes), writes) == apply_writes(frame, writes),
{
    let once = apply_writes(frame, writes);
    let twice = apply_writes(once, writes);
    apply_writes_keeps_length(frame, writes);
    apply_writes_keeps_length(once, writes);
    assert forall|channel: int| 0 <= channel < once.len() implies twice[channel]
        == once[channel] by {
        apply_writes_settles(frame, writes, channel);
        apply_writes_settles(once, writes, channel);
        settled_needs_no_frame(once, frame, writes, channel);
    }
}

/// The operations of a universe: writes into its frame, and the start and stop of
/// its transmitter.
pub trait DMXController {
    /// The device handle that the transmitter works with.
    type Driver;

    /// The value of every channel, by address.
    spec fn channels(&self) -> Seq<u8>;

    /// Whether the transmitter has been started and not stopped since.
    spec fn running(&self) -> bool;

    /// The device handle, while the universe holds it.
    spec fn parked_driver(&self) -> Option<Self::Driver>;

    /// Marks the universe as running and hands out the device handle for the
    /// transmitter to own. Fails where the universe holds no handle.
    fn start(&mut self) -> (r: Result<Self::Driver, DMXControllerError>)
        ensures
            final(self).channels() == old(self).channels(),
            match r {
                Ok(driver) => {
                    &&& old(self).parked_driver() == Some(driver)
                    &&& final(self).parked_driver() is None
                    &&& final(self).running()
                },
                Err(e) => {
                    &&& e == DMXControllerError::InitError
                    &&& old(self).parked_driver() is None
                    &&& final(self).parked_driver() is None
                    &&& final(self).running() == old(self).running()
                },
            },
    ;

    /// Sets one channel. An address outside the universe changes nothing.
    fn update_one(&mut self, channel: u16, value: u8) -> (r: Result<(), DMXControllerError>)
        ensures
            final(self).running() == old(self).running(),
            final(self).parked_driver() == old(self).parked_driver(),
            channel < DMX_CHANNELS ==> r is Ok && final(self).channels()
                == old(self).channels().update(channel as int, value),
            channel >= DMX_CHANNELS ==> r == Err::<(), _>(DMXControllerError::OutOfRange)
                && final(self).channels() == old(self).channels(),
    ;

    /// Sets the channels of a batch, in order. If any address lies outside the
    /// universe, no channel changes.
    fn update_many(&mut self, values: Vec<(u16, u8)>) -> (r: Result<(), DMXControllerError>)
        ensures
            final(self).running() == old(self).running(),
            final(self).parked_driver() == old(self).parked_driver(),
            writes_in_range(values@) ==> r is Ok && final(self).channels() == apply_writes(
                old(self).channels(),
                values@,
            ),
            !writes_in_range(values@) ==> r == Err::<(), _>(DMXControllerError::OutOfRange)
                && final(self).channels() == old(self).channels(),
    ;

    /// Darkens every channel and marks the universe as stopped. Fails, with the
    /// frame dark all the same, where the universe was not running.
    fn stop(&mut self) -> (r: Result<(), DMXControllerError>)
        ensures
            final(self).channels() == dark_frame(),
            !final(self).running(),
            final(self).parked_driver() == old(self).parked_driver(),
            old(self).running() ==> r is Ok,
            !old(self).running() ==> r == Err::<(), _>(DMXControllerError::NotRunning),
    ;
}

/// The channel values of a universe in which nothing is lit.
fn dark_channels() -> (f: [u8; 512])
    ensures
        f@ == dark_frame(),
{
    let mut f: [u8; 512] = [0; 512];
    let mut i: usize = 0;
    while i < DMX_CHANNELS
        invariant
            i <= DMX_CHANNELS,
            forall|k: int| 0 <= k < i ==> f@[k] == 0u8,
        decreases DMX_CHANNELS - i,
    {
        f[i] = 0;
        i += 1;
    }
    f
}

/// A universe: 512 channel values, and the device handle while no transmitter
/// owns it.
pub struct FTDIDMXController<D> {
    shared_frame: [u8; 512],
    driver: Option<D>,
    running: bool,
}

impl<D> FTDIDMXController<D> {
    /// A dark universe that holds `driver` and is not running.
    pub fn new(driver: D) -> (c: Self)
        ensures
            c.channels() == dark_frame(),
            c.parked_driver() == Some(driver),
            !c.running(),
    {
        FTDIDMXController { shared_frame: dark_channels(), driver: Some(driver), running: false }
    }

    /// A universe has 512 channels at all times.
    pub proof fn has_all_channels(&self)
        ensures
            self.channels().len() == DMX_CHANNELS,
    {
    }

    /// A copy of the frame as it is now, for the transmitter to send.
    pub fn frame(&self) -> (f: [u8; 512])
        ensures
            f@ == self.channels(),
    {
        self.shared_frame
    }

    /// Whether the transmitter has been started and not stopped since.
    pub fn is_running(&self) -> (b: bool)
        ensures
            b == self.running(),
    {
        self.running
    }

    /// Takes back what the transmitter left when it ended: the device handle, the
    /// error that ended it, or nothing where it could not be joined.
    pub fn reclaim(&mut self, outcome: Option<Result<D, DMXControllerError>>) -> (r: Result<
        (),
        DMXControllerError,
    >)
        ensures
            final(self).channels() == old(self).channels(),
            final(self).running() == old(self).running(),
            match outcome {
                Some(Ok(driver)) => r is Ok && final(self).parked_driver() == Some(driver),
                Some(Err(e)) => {
                    &&& r == Err::<(), _>(e)
                    &&& final(self).parked_driver() == old(self).parked_driver()
                },
                None => {
                    &&& r == Err::<(), _>(DMXControllerError::NotRunning)
                    &&& final(self).parked_driver() == old(self).parked_driver()
                },
            },
    {
        match outcome {
            Some(Ok(driver)) => {
                self.driver = Some(driver);
                Ok(())
            },
            Some(Err(e)) => Err(e),
            None => Err(DMXControllerError::NotRunning),
        }
    }

    /// Gives the universe up for its device handle, so that the caller can close
    /// the device.
    pub fn into_driver(self) -> (d: Option<D>)
        ensures
            d == self.parked_driver(),
    {
        self.driver
    }
}

impl<D> DMXController for FTDIDMXController<D> {
    type Driver = D;

    closed spec fn channels(&self) -> Seq<u8> {
        self.shared_frame@
    }

    closed spec fn running(&self) -> bool {
        self.running
    }

    closed spec fn parked_driver(&self) -> Option<D> {
        self.driver
    }

    fn start(&mut self) -> (r: Result<D, DMXControllerError>) {
        match self.driver.take() {
            Some(driver) => {
                self.running = true;
                Ok(driver)
            },
            None => Err(DMXControllerError::InitError),
        }
    }

    fn update_one(&mut self, channel: u16, value: u8) -> (r: Result<(), DMXControllerError>) {
        if channel as usize >= DMX_CHANNELS {
            return Err(DMXControllerError::OutOfRange);
        }
        self.shared_frame[channel as usize] = value;
        Ok(())
    }

    fn update_many(&mut self, values: Vec<(u16, u8)>) -> (r: Result<(), DMXControllerError>) {
        let mut i: usize = 0;
        while i < values.len()
            invariant
                i <= values.len(),
                forall|k: int| 0 <= k < i ==> (#[trigger] values@[k]).0 < DMX_CHANNELS,
            decreases values.len() - i,
        {
            if values[i].0 as usize >= DMX_CHANNELS {
                return Err(DMXControllerError::OutOfRange);
            }
            i += 1;
        }
        let mut j: usize = 0;
        while j < values.len()
            invariant
                j <= values.len(),
                writes_in_range(values@),
                self.running == old(self).running,
                self.driver == old(self).driver,
                self.shared_frame@ == apply_writes(
                    old(self).shared_frame@,
                    values@.subrange(0, j as int),
                ),
            decreases values.len() - j,
        {
            let (channel, value) = values[j];
            assert(values@.subrange(0, j + 1).drop_last() =~= values@.subrange(0, j as int));
            self.shared_frame[channel as usize] = value;
            j += 1;
        }
        assert(values@.subrange(0, j as int) =~= values@);
        Ok(())
    }

    fn stop(&mut self) -> (r: Result<(), DMXControllerError>) {
        self.shared_frame = dark_channels();
        if self.running {
            self.running = false;
            Ok(())
        } else {
            Err(DMXControllerError::NotRunning)
        }
    }
}

/// The serial format of a DMX512 line.
#[derive(Clone, Copy, Debug, PartialEq, Eq, Structural)]
pub struct LineSettings {
    pub baud_rate: u32,
    pub data_bits: u8,
    pub stop_bits: u8,
    pub parity: Parity,
}

/// The parity bit of a serial format.
#[derive(Clone, Copy, Debug, PartialEq, Eq, Structural)]
pub enum Parity {
    No,
    Odd,
    Even,
}

/// The format that a device has to be set to before the first frame: 250 kbaud,
/// eight data bits, two stop bits, no parity.
pub fn line_settings() -> (s: LineSettings)
    ensures
        s.baud_rate == BAUD_RATE,
        s.data_bits == 8,
        s.stop_bits == 2,
        s.parity == Parity::No,
{
    LineSettings { baud_rate: BAUD_RATE, data_bits: 8, stop_bits: 2, parity: Parity::No }
}

/// One thing to do with the line while a frame is sent.
#[derive(Debug, PartialEq, Eq)]
pub enum LineAction {
    /// Put the line into break.
    BreakOn,
    /// Take the line out of break.
    BreakOff,
    /// Leave the line alone for so many microseconds.
    Pause { micros: u64 },
    /// Send the bytes.
    Send { bytes: Vec<u8> },
}

/// A line action as a value of specifications.
pub enum LineStep {
    BreakOn,
    BreakOff,
    Pause { micros: u64 },
    Send { bytes: Seq<u8> },
}

impl View for LineAction {
    type V = LineStep;

    open spec fn view(&self) -> LineStep {
        match self {
            LineAction::BreakOn => LineStep::BreakOn,
            LineAction::BreakOff => LineStep::BreakOff,
            LineAction::Pause { micros } => LineStep::Pause { micros: *micros },
            LineAction::Send { bytes } => LineStep::Send { bytes: bytes@ },
        }
    }
}

/// The bytes of a frame on the wire: the start code, then the channel values.
pub open spec fn wire_bytes(data: Seq<u8>) -> Seq<u8> {
    seq![START_CODE] + data
}

/// What sending a frame takes, step by step: break, mark after break, the bytes,
/// and the gap before the next frame.
pub open spec fn frame_steps(data: Seq<u8>) -> Seq<LineStep> {
    seq![
        LineStep::BreakOn,
        LineStep::Pause { micros: BREAK_MICROS },
        LineStep::BreakOff,
        LineStep::Pause { micros: MARK_AFTER_BREAK_MICROS },
        LineStep::Send { bytes: wire_bytes(data) },
        LineStep::Pause { micros: FRAME_GAP_MICROS },
    ]
}

/// A dark frame goes over the wire as the start code and 512 zero bytes.
pub proof fn dark_frame_on_the_wire()
    ensures
        wire_bytes(dark_frame()).len() == DMX_CHANNELS + 1,
        forall|i: int| 0 <= i <= DMX_CHANNELS ==> wire_bytes(dark_frame())[i] == 0u8,
{
}

/// The bytes to send for a frame with the given channel values.
pub fn wire_frame(data: &[u8]) -> (bytes: Vec<u8>)
    ensures
        bytes@ == wire_bytes(data@),
        bytes@.len() == data@.len() + 1,
{
    let mut buffer: Vec<u8> = Vec::with_capacity(1);
    buffer.push(START_CODE);
    buffer.extend_from_slice(data);
    buffer
}

/// The actions that send one frame with the given channel values, in order.
pub fn frame_actions(data: &[u8]) -> (actions: Vec<LineAction>)
    ensures
        actions@.map_values(|a: LineAction| a@) == frame_steps(data@),
{
    vec![
        LineAction::BreakOn,
        LineAction::Pause { micros: BREAK_MICROS },
        LineAction::BreakOff,
        LineAction::Pause { micros: MARK_AFTER_BREAK_MICROS },
        LineAction::Send { bytes: wire_frame(data) },
        LineAction::Pause { micros: FRAME_GAP_MICROS },
    ]
}

/// The break and the mark after break of a frame are at least as long as DMX512
/// asks.
pub proof fn frame_timing_conforms(data: Seq<u8>)
    ensures
        frame_steps(data)[1] == (LineStep::Pause { micros: BREAK_MICROS }),
        frame_steps(data)[3] == (LineStep::Pause { micros: MARK_AFTER_BREAK_MICROS }),
        BREAK_MICROS >= MIN_BREAK_MICROS,
        MARK_AFTER_BREAK_MICROS >= MIN_MARK_AFTER_BREAK_MICROS,
{
}

/// What the transmitter makes of the device's answer to `init`.
pub fn init_outcome(answer: Result<(), DriverError>) -> (r: Result<(), DMXControllerError>)
    ensures
        answer is Ok ==> r is Ok,
        answer is Err ==> r == Err::<(), _>(DMXControllerError::InitError),
{
    match answer {
        Ok(()) => Ok(()),
        Err(_) => Err(DMXControllerError::InitError),
    }
}

/// What the transmitter makes of the device's answer to `write_frame`.
pub fn write_outcome(answer: Result<(), DriverError>) -> (r: Result<(), DMXControllerError>)
    ensures
        answer is Ok ==> r is Ok,
        answer is Err ==> r == Err::<(), _>(DMXControllerError::WriteError),
{
    match answer {
        Ok(()) => Ok(()),
        Err(_) => Err(DMXControllerError::WriteError),
    }
}

/// The first thing a transmitter does with its device: prepare the line. The
/// device has been asked to do so once, and to do nothing else. The transmitter
/// succeeds if and only if the device did; whatever went wrong, the error is
/// `InitError`.
pub fn start_transmitter<D: DMXDriver>(driver: &mut D) -> (r: Result<(), DMXControllerError>)
    ensures
        old(driver).prepares(final(driver), r is Ok),
        r is Err ==> r == Err::<(), _>(DMXControllerError::InitError),
{
    init_outcome(driver.init())
}

/// One cycle of a transmitter: hand the 512 channel values of `frame` to the
/// device. The device has been asked once to send a frame with just these values,
/// and to do nothing else. The transmitter succeeds if and only if the device did;
/// whatever went wrong, the error is `WriteError`.
pub fn transmit_frame<D: DMXDriver>(driver: &mut D, frame: &[u8; 512]) -> (r: Result<
    (),
    DMXControllerError,
>)
    ensures
        old(driver).sends(frame@, final(driver), r is Ok),
        r is Err ==> r == Err::<(), _>(DMXControllerError::WriteError),
{
    write_outcome(driver.write_frame(frame.as_slice()))
}

impl<D: DMXDriver> FTDIDMXController<D> {
    /// Takes the device back from a transmitter that has ended well, and leaves
    /// the line dark: the frame is darkened and handed to the device once more
    /// before the universe holds the device again. So the last frame that the
    /// device was asked to send before it came back is the dark frame, whatever
    /// the transmitter sent before.
    ///
    /// The universe holds the device afterwards even where the device failed, so
    /// that it can be closed; the error is then `WriteError`.
    pub fn hand_back(&mut self, driver: D) -> (r: Result<(), DMXControllerError>)
        ensures
            final(self).channels() == dark_frame(),
            final(self).running() == old(self).running(),
            final(self).parked_driver() matches Some(after) && driver.sends(
                dark_frame(),
                &after,
                r is Ok,
            ),
            r is Err ==> r == Err::<(), _>(DMXControllerError::WriteError),
    {
        let mut driver = driver;
        self.shared_frame = dark_channels();
        let sent = transmit_frame(&mut driver, &self.shared_frame);
        self.driver = Some(driver);
        sent
    }
}

/// What the loop of a transmitter can wake up to.
#[derive(Clone, Copy, Debug, PartialEq, Eq)]
pub enum TransmitterEvent {
    /// The transmitter has been told to end.
    Cancelled,
    /// The frame buffer has been read; here are its channel values.
    Frame([u8; 512]),
}

/// One turn of the loop of a transmitter. A cancellation ends the loop and leaves
/// the device alone; a frame is sent, and the loop goes on unless the device
/// failed. The answer says whether the loop goes on.
pub fn transmitter_step<D: DMXDriver>(driver: &mut D, event: TransmitterEvent) -> (r: Result<
    bool,
    DMXControllerError,
>)
    ensures
        match event {
            TransmitterEvent::Cancelled => {
                &&& r == Ok::<_, DMXControllerError>(false)
                &&& *final(driver) == *old(driver)
            },
            TransmitterEvent::Frame(frame) => {
                &&& old(driver).sends(frame@, final(driver), r is Ok)
                &&& r is Ok ==> r == Ok::<_, DMXControllerError>(true)
                &&& r is Err ==> r == Err::<bool, _>(DMXControllerError::WriteError)
            },
        },
{
    match event {
        TransmitterEvent::Cancelled => Ok(false),
        TransmitterEvent::Frame(frame) => match transmit_frame(driver, &frame) {
            Ok(()) => Ok(true),
            Err(e) => Err(e),
        },
    }
}

} // verus!
