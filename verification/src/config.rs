//! What a deployment declares: the broker, the lights and their channel mappings.

use vstd::prelude::*;

use crate::dmx::DMX_CHANNELS;
use crate::light::{RGBDimmerMapping, RGBWDimmerMapping};

verus! {

/// The whole configuration of a bridge.
#[derive(Debug, PartialEq, Eq)]
pub struct Config {
    pub mqtt: MQTTConfig,
    pub lights: Vec<LightSpecification>,
}

/// Where the broker is and how to log in.
#[derive(Debug, PartialEq, Eq)]
pub struct MQTTConfig {
    pub host: String,
    pub username: Option<String>,
    pub password: Option<String>,
}

/// One light: its names, the universe that carries it and its channels.
#[derive(Debug, PartialEq, Eq)]
pub struct LightSpecification {
    pub universe: String,
    pub id: String,
    pub display_name: String,
    pub mapping: LightChannelMapping,
}

impl Clone for LightSpecification {
    fn clone(&self) -> (r: Self)
        ensures
            r == *self,
    {
        LightSpecification {
            universe: self.universe.clone(),
            id: self.id.clone(),
            display_name: self.display_name.clone(),
            mapping: self.mapping,
        }
    }
}

impl LightSpecification {
    /// The color space that the light is advertised with.
    pub fn color_mode(&self) -> (r: Option<String>)
        ensures
            r matches Some(name) && name@ == self.mapping.color_mode_name(),
    {
        match &self.mapping {
            LightChannelMapping::RGBWDimmer(_) => Some("rgbw".to_string()),
            LightChannelMapping::RGBDimmer(_) => Some("rgb".to_string()),
        }
    }
}

/// The channel mapping of a light, one variant for each supported topology.
#[derive(Clone, Copy, Debug, PartialEq, Eq, Structural)]
pub enum LightChannelMapping {
    RGBWDimmer(RGBWDimmerMapping),
    RGBDimmer(RGBDimmerMapping),
}

impl LightChannelMapping {
    /// The name of the color space of the topology.
    pub open spec fn color_mode_name(&self) -> Seq<char> {
        match self {
            LightChannelMapping::RGBWDimmer(_) => "rgbw"@,
            LightChannelMapping::RGBDimmer(_) => "rgb"@,
        }
    }

    /// The address of every role of the mapping, color roles first, dimmer last.
    pub open spec fn role_addresses(&self) -> Seq<u16> {
        match self {
            LightChannelMapping::RGBWDimmer(m) => seq![m.r, m.g, m.b, m.w, m.dimmer],
            LightChannelMapping::RGBDimmer(m) => seq![m.r, m.g, m.b, m.dimmer],
        }
    }

    /// The address of the dimmer role.
    pub open spec fn dimmer_address(&self) -> u16 {
        match self {
            LightChannelMapping::RGBWDimmer(m) => m.dimmer,
            LightChannelMapping::RGBDimmer(m) => m.dimmer,
        }
    }

    /// Whether every role of the mapping has an address within a universe.
    pub open spec fn within_universe(&self) -> bool {
        forall|i: int|
            0 <= i < self.role_addresses().len() ==> #[trigger] self.role_addresses()[i]
                < DMX_CHANNELS
    }

    /// The writes that make the light dark: zero on every role.
    pub open spec fn off_values(&self) -> Seq<(u16, u8)> {
        self.role_addresses().map_values(|address: u16| (address, 0u8))
    }

    /// The writes that black the light out, whatever state it is in.
    pub fn off_frame_values(&self) -> (v: Vec<(u16, u8)>)
        ensures
            v@ == self.off_values(),
            v@.len() == self.role_addresses().len(),
            forall|i: int|
                0 <= i < v@.len() ==> (#[trigger] v@[i]).1 == 0 && self.role_addresses().contains(
                    v@[i].0,
                ),
    {
        match self {
            LightChannelMapping::RGBWDimmer(mapping) => vec![
                (mapping.r, 0),
                (mapping.g, 0),
                (mapping.b, 0),
                (mapping.w, 0),
                (mapping.dimmer, 0),
            ],
            LightChannelMapping::RGBDimmer(mapping) => vec![
                (mapping.r, 0),
                (mapping.g, 0),
                (mapping.b, 0),
                (mapping.dimmer, 0),
            ],
        }
    }
}

} // verus!
