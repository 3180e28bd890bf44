//! A fixture with red, green, blue and white channels and a master dimmer.

use vstd::prelude::*;

use crate::hass::{Color, ColorMode, HomeAssistantLightState, State};
use crate::light::{DMXLight, LightType, UpdateError};

verus! {

/// The DMX addresses of the five channels of the fixture.
#[derive(Clone, Copy, Debug, PartialEq, Eq, Structural)]
pub struct RGBWDimmerMapping {
    pub dimmer: u16,
    pub r: u16,
    pub g: u16,
    pub b: u16,
    pub w: u16,
}

/// The values that the light holds while it is on or off.
#[derive(Clone, Copy, Debug, PartialEq, Eq, Structural)]
pub struct RGBWDimmerState {
    pub r: u8,
    pub g: u8,
    pub b: u8,
    pub w: u8,
    pub brightness: u8,
    pub on: bool,
}

impl Default for RGBWDimmerState {
    fn default() -> (s: Self)
        ensures
            s.r == 255,
            s.g == 255,
            s.b == 255,
            s.w == 255,
            s.brightness == 255,
            !s.on,
    {
        RGBWDimmerState { r: 255, g: 255, b: 255, w: 255, brightness: 255, on: false }
    }
}

/// A light of this topology together with the state it was last given.
pub struct RGBWDimmerLight {
    pub mapping: RGBWDimmerMapping,
    state: RGBWDimmerState,
}

impl RGBWDimmerLight {
    /// A light that is off, with full color and full brightness stored.
    pub fn new(mapping: RGBWDimmerMapping) -> (l: Self)
        ensures
            l.channels() == mapping,
            l.logical_state() == Self::initial_state(),
    {
        RGBWDimmerLight { mapping, state: RGBWDimmerState::default() }
    }

    /// The channel mapping that the light was made with.
    pub closed spec fn channels(&self) -> RGBWDimmerMapping {
        self.mapping
    }

    /// The channel mapping that the light was made with.
    pub fn mapping(&self) -> (m: RGBWDimmerMapping)
        ensures
            m == self.channels(),
    {
        self.mapping
    }

    /// Whether the state is of the kind that a light of this topology reports: it
    /// holds a brightness, a color of the light's own kind, the light's own color
    /// mode and no effect.
    pub open spec fn own_kind(state: HomeAssistantLightState) -> bool {
        &&& state.brightness is Some
        &&& state.color is Some
        &&& state.color->0 is RGBW
        &&& state.color_mode == Some(ColorMode::RGBW)
        &&& state.effect is None
    }

    /// Whatever the light has been sent, the state that it reports is of its own
    /// kind.
    pub proof fn reports_its_own_kind(&self)
        ensures
            Self::own_kind(self.logical_state()),
    {
    }

    /// The state that a new light, and a light after a reset, reports.
    pub open spec fn initial_state() -> HomeAssistantLightState {
        HomeAssistantLightState {
            brightness: Some(255u8),
            color_mode: Some(ColorMode::RGBW),
            color: Some(Color::RGBW { r: 255, g: 255, b: 255, w: 255 }),
            state: State::Off,
            effect: None,
        }
    }
}

impl DMXLight for RGBWDimmerLight {
    open spec fn kind(&self) -> LightType {
        LightType::RGBWDimmer
    }

    open spec fn first_state(&self) -> HomeAssistantLightState {
        Self::initial_state()
    }

    closed spec fn logical_state(&self) -> HomeAssistantLightState {
        HomeAssistantLightState {
            brightness: Some(self.state.brightness),
            color_mode: Some(ColorMode::RGBW),
            color: Some(
                Color::RGBW { r: self.state.r, g: self.state.g, b: self.state.b, w: self.state.w },
            ),
            state: if self.state.on {
                State::On
            } else {
                State::Off
            },
            effect: None,
        }
    }

    /// Off: every channel at zero. On: the color on the color channels and the
    /// brightness on the dimmer.
    open spec fn dmx_values(&self) -> Seq<(u16, u8)> {
        let m = self.channels();
        let s = self.logical_state();
        if s.state == State::Off {
            seq![(m.r, 0u8), (m.g, 0u8), (m.b, 0u8), (m.w, 0u8), (m.dimmer, 0u8)]
        } else {
            match s.color {
                Some(Color::RGBW { r, g, b, w }) => seq![
                    (m.r, r),
                    (m.g, g),
                    (m.b, b),
                    (m.w, w),
                    (m.dimmer, s.brightness->0),
                ],
                _ => Seq::empty(),
            }
        }
    }

    fn current_dmx_values(&self) -> (v: Vec<(u16, u8)>)
        ensures
            Self::own_kind(self.logical_state()),
    {
        if !self.state.on {
            vec![
                (self.mapping.r, 0),
                (self.mapping.g, 0),
                (self.mapping.b, 0),
                (self.mapping.w, 0),
                (self.mapping.dimmer, 0),
            ]
        } else {
            vec![
                (self.mapping.r, self.state.r),
                (self.mapping.g, self.state.g),
                (self.mapping.b, self.state.b),
                (self.mapping.w, self.state.w),
                (self.mapping.dimmer, self.state.brightness),
            ]
        }
    }

    fn update(&mut self, state: &HomeAssistantLightState) -> (r: Result<(), UpdateError>)
        ensures
            final(self).channels() == old(self).channels(),
            Self::own_kind(old(self).logical_state()),
            Self::own_kind(final(self).logical_state()),
    {
        match state.color {
            Some(Color::RGBW { r, g, b, w }) => {
                self.state.r = r;
                self.state.g = g;
                self.state.b = b;
                self.state.w = w;
            },
            _ => {},
        }
        match state.brightness {
            Some(brightness) => {
                self.state.brightness = brightness;
            },
            None => {},
        }
        self.state.on = match state.state {
            State::On => true,
            State::Off => false,
        };
        Ok(())
    }

    fn reset_state(&mut self)
        ensures
            final(self).channels() == old(self).channels(),
    {
        self.state = RGBWDimmerState::default();
    }

    fn hass_state(&self) -> (s: HomeAssistantLightState)
        ensures
            Self::own_kind(s),
    {
        HomeAssistantLightState {
            brightness: Some(self.state.brightness),
            color_mode: Some(ColorMode::RGBW),
            color: Some(
                Color::RGBW { r: self.state.r, g: self.state.g, b: self.state.b, w: self.state.w },
            ),
            state: if self.state.on {
                State::On
            } else {
                State::Off
            },
            effect: None,
        }
    }

    fn light_type(&self) -> (t: LightType) {
        LightType::RGBWDimmer
    }
}

} // verus!
