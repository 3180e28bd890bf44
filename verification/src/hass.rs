//! The light state that Home Assistant sends and expects, and how states merge.

use vstd::prelude::*;

use crate::config::{LightChannelMapping, LightSpecification};

verus! {

/// Whether Home Assistant is up.
#[derive(Clone, Copy, Debug, PartialEq, Eq, Structural)]
pub enum HassStatus {
    Online,
    Offline,
}

/// The birth or last-will message of Home Assistant.
#[derive(Clone, Copy, Debug, PartialEq, Eq, Structural)]
pub struct HassStatusMessage {
    pub status: HassStatus,
}

/// A color in one of the color spaces of Home Assistant.
#[derive(Clone, Copy, Debug, PartialEq, Eq, Structural)]
pub enum Color {
    RGBWW { r: u8, g: u8, b: u8, c: u8, w: u8 },
    RGBW { r: u8, g: u8, b: u8, w: u8 },
    RGB { r: u8, g: u8, b: u8 },
    XY { x: u8, y: u8 },
    HS { h: u16, s: u8 },
}

/// The name of a color space.
#[derive(Clone, Copy, Debug, PartialEq, Eq, Structural)]
pub enum ColorMode {
    RGBWW,
    RGBW,
    RGB,
    XY,
    HS,
}

impl Color {
    /// The color space that the color is given in.
    pub open spec fn mode(&self) -> ColorMode {
        match self {
            Color::RGBWW { .. } => ColorMode::RGBWW,
            Color::RGBW { .. } => ColorMode::RGBW,
            Color::RGB { .. } => ColorMode::RGB,
            Color::XY { .. } => ColorMode::XY,
            Color::HS { .. } => ColorMode::HS,
        }
    }
}

/// Power state of a light.
#[derive(Clone, Copy, Debug, PartialEq, Eq, Structural)]
pub enum State {
    On,
    Off,
}

/// A light state, whole or partial: a field that is `None` says nothing.
/// The power state is always given.
#[derive(Debug, PartialEq, Eq)]
pub struct HomeAssistantLightState {
    pub brightness: Option<u8>,
    pub color_mode: Option<ColorMode>,
    pub color: Option<Color>,
    pub state: State,
    pub effect: Option<String>,
}

impl Clone for HomeAssistantLightState {
    fn clone(&self) -> (r: Self)
        ensures
            r == *self,
    {
        HomeAssistantLightState {
            brightness: self.brightness,
            color_mode: self.color_mode,
            color: self.color,
            state: self.state,
            effect: match &self.effect {
                Some(effect) => Some(effect.clone()),
                None => None,
            },
        }
    }
}

impl Default for HomeAssistantLightState {
    /// The state that says nothing but "off".
    fn default() -> (s: Self)
        ensures
            s == (HomeAssistantLightState {
                brightness: None,
                color_mode: None,
                color: None,
                state: State::Off,
                effect: None,
            }),
    {
        HomeAssistantLightState {
            brightness: None,
            color_mode: None,
            color: None,
            state: State::Off,
            effect: None,
        }
    }
}

impl HomeAssistantLightState {
    /// The state of a light of the given topology before any command: on, at full
    /// brightness, every color component at full, no effect.
    pub open spec fn default_for(mapping: LightChannelMapping) -> HomeAssistantLightState {
        match mapping {
            LightChannelMapping::RGBWDimmer(_) => HomeAssistantLightState {
                brightness: Some(255u8),
                color_mode: Some(ColorMode::RGBW),
                color: Some(Color::RGBW { r: 255, g: 255, b: 255, w: 255 }),
                state: State::On,
                effect: None,
            },
            LightChannelMapping::RGBDimmer(_) => HomeAssistantLightState {
                brightness: Some(255u8),
                color_mode: Some(ColorMode::RGB),
                color: Some(Color::RGB { r: 255, g: 255, b: 255 }),
                state: State::On,
                effect: None,
            },
        }
    }

    /// This state after `update` has been merged into it. Brightness, color mode,
    /// color and effect are taken from the update where it gives them and kept
    /// otherwise; the power state is always the update's.
    pub open spec fn merged(self, update: HomeAssistantLightState) -> HomeAssistantLightState {
        HomeAssistantLightState {
            brightness: if update.brightness is Some {
                update.brightness
            } else {
                self.brightness
            },
            color_mode: if update.color_mode is Some {
                update.color_mode
            } else {
                self.color_mode
            },
            color: if update.color is Some {
                update.color
            } else {
                self.color
            },
            state: update.state,
            effect: if update.effect is Some {
                update.effect
            } else {
                self.effect
            },
        }
    }

    /// The state that a light starts with when it is registered.
    pub fn default_from_specification(spec: &LightSpecification) -> (s: Self)
        ensures
            s == Self::default_for(spec.mapping),
    {
        match &spec.mapping {
            LightChannelMapping::RGBWDimmer(_) => HomeAssistantLightState {
                brightness: Some(255),
                color_mode: Some(ColorMode::RGBW),
                color: Some(Color::RGBW { r: 255, g: 255, b: 255, w: 255 }),
                state: State::On,
                effect: None,
            },
            LightChannelMapping::RGBDimmer(_) => HomeAssistantLightState {
                brightness: Some(255),
                color_mode: Some(ColorMode::RGB),
                color: Some(Color::RGB { r: 255, g: 255, b: 255 }),
                state: State::On,
                effect: None,
            },
        }
    }

    /// Merges `other` into this state.
    pub fn update_with(&mut self, other: &HomeAssistantLightState)
        ensures
            *final(self) == old(self).merged(*other),
            final(self).state == other.state,
            other.brightness is None ==> final(self).brightness == old(self).brightness,
            other.color_mode is None ==> final(self).color_mode == old(self).color_mode,
            other.color is None ==> final(self).color == old(self).color,
            other.effect is None ==> final(self).effect == old(self).effect,
    {
        if other.brightness.is_some() {
            self.brightness = other.brightness;
        }
        if other.color_mode.is_some() {
            self.color_mode = other.color_mode;
        }
        if other.color.is_some() {
            self.color = other.color;
        }
        match &other.effect {
            Some(effect) => {
                self.effect = Some(effect.clone());
            },
            None => {},
        }
        self.state = other.state;
    }
}

/// Merging an update says nothing new the second time: the state after two merges
/// of the same update is the state after one.
pub proof fn merge_is_idempotent(state: HomeAssistantLightState, update: HomeAssistantLightState)
    ensures
        state.merged(update).merged(update) == state.merged(update),
{
}

} // verus!
