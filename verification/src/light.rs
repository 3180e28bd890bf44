//! Fixture kinds and the interface shared by the stand-alone light objects.

use vstd::prelude::*;

use crate::hass::HomeAssistantLightState;

mod rgbdimmer;
mod rgbwdimmer;

pub use rgbdimmer::{RGBDimmerLight, RGBDimmerMapping};
pub use rgbwdimmer::{RGBWDimmerLight, RGBWDimmerMapping};

verus! {

/// The fixture topologies that have a stand-alone light object.
#[derive(Clone, Copy, Debug, PartialEq, Eq, Structural)]
pub enum LightType {
    RGBWDimmer,
    RGBDimmer,
}

/// Why a light did not take a requested state.
#[derive(Clone, Copy, Debug, PartialEq, Eq, Structural)]
pub enum UpdateError {
    /// With the requested state the light would be on with a color of a kind that
    /// the fixture cannot show.
    InvalidState,
}

/// What a light that reports `current` reports after it has been sent `update`.
///
/// Brightness is taken when the update carries one. A color is taken when it is of
/// the kind the light already reports; a color of another kind is ignored. The power
/// state is always taken. Color mode and effect are the light's own.
pub open spec fn absorbed(
    current: HomeAssistantLightState,
    update: HomeAssistantLightState,
) -> HomeAssistantLightState {
    HomeAssistantLightState {
        brightness: if update.brightness is Some {
            update.brightness
        } else {
            current.brightness
        },
        color_mode: current.color_mode,
        color: if update.color is Some && current.color is Some
            && update.color->0.mode() == current.color->0.mode() {
            update.color
        } else {
            current.color
        },
        state: update.state,
        effect: current.effect,
    }
}

/// A light that keeps its own state and knows its channel values.
pub trait DMXLight {
    /// The topology of the fixture.
    spec fn kind(&self) -> LightType;

    /// The state that the light reports.
    spec fn logical_state(&self) -> HomeAssistantLightState;

    /// The state that the light had when it was made.
    spec fn first_state(&self) -> HomeAssistantLightState;

    /// The channel writes that show the light's state.
    spec fn dmx_values(&self) -> Seq<(u16, u8)>;

    /// Puts the light back into the state it had when it was made.
    fn reset_state(&mut self)
        ensures
            final(self).kind() == old(self).kind(),
            final(self).first_state() == old(self).first_state(),
            final(self).logical_state() == old(self).first_state(),
    ;

    /// The topology of the fixture.
    fn light_type(&self) -> (t: LightType)
        ensures
            t == self.kind(),
    ;

    /// Takes the parts of `state` that the light supports. Never fails.
    fn update(&mut self, state: &HomeAssistantLightState) -> (r: Result<(), UpdateError>)
        ensures
            r is Ok,
            final(self).kind() == old(self).kind(),
            final(self).first_state() == old(self).first_state(),
            final(self).logical_state() == absorbed(old(self).logical_state(), *state),
    ;

    /// The state of the light, as it is reported to Home Assistant.
    fn hass_state(&self) -> (s: HomeAssistantLightState)
        ensures
            s == self.logical_state(),
    ;

    /// The channel writes that show the light as it is now.
    fn current_dmx_values(&self) -> (v: Vec<(u16, u8)>)
        ensures
            v@ == self.dmx_values(),
    ;
}

} // verus!
