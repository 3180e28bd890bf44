//! Bridges Home-Assistant style light states to DMX512 universes.
//!
//! The crate holds the part of such a bridge that can be reasoned about without a
//! device or a broker: the channel mappings of the supported fixtures, the merge of
//! partial light states, the frame buffer of a universe with its wire framing, and
//! the controller that routes state updates to universes.
//!
//! Nothing in here waits, sleeps or talks to a device. A program that uses the
//! crate owns the tasks and the locks: it feeds the controller the events of its
//! loop ([`control::LightController::on_event`]), hands the frames to a device
//! through a [`dmx::DMXDriver`], and tells the controller what became of its
//! transmitters. The contracts say what each step does to the lights and the
//! frames, over models of both, and Verus proves them.

pub mod config;
pub mod control;
pub mod dmx;
pub mod hass;
pub mod light;
pub mod topic;
