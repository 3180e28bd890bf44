use dmx_bridge::config::{Config, LightChannelMapping, LightSpecification, MQTTConfig};
use dmx_bridge::hass::{
    Color, ColorMode, HassStatus, HassStatusMessage, HomeAssistantLightState, State,
};
use dmx_bridge::light::{RGBDimmerMapping, RGBWDimmerMapping};
use dmx_bridge::topic::{command_topic, light_of_topic, state_topic};

fn rgbw_spec() -> LightSpecification {
    LightSpecification {
        universe: "u1".to_string(),
        id: "spot".to_string(),
        display_name: "Spot".to_string(),
        mapping: LightChannelMapping::RGBWDimmer(RGBWDimmerMapping {
            dimmer: 5,
            r: 1,
            g: 2,
            b: 3,
            w: 4,
        }),
    }
}

fn rgb_spec() -> LightSpecification {
    LightSpecification {
        universe: "u1".to_string(),
        id: "bar".to_string(),
        display_name: "Bar".to_string(),
        mapping: LightChannelMapping::RGBDimmer(RGBDimmerMapping {
            dimmer: 13,
            r: 10,
            g: 11,
            b: 12,
        }),
    }
}

fn partial(state: State) -> HomeAssistantLightState {
    HomeAssistantLightState { brightness: None, color_mode: None, color: None, state, effect: None }
}

#[test]
fn default_state_says_only_off() {
    let state = HomeAssistantLightState::default();
    assert_eq!(state, partial(State::Off));
}

#[test]
fn default_state_of_rgbw_light_is_on_and_full() {
    let state = HomeAssistantLightState::default_from_specification(&rgbw_spec());
    assert_eq!(
        state,
        HomeAssistantLightState {
            brightness: Some(255),
            color_mode: Some(ColorMode::RGBW),
            color: Some(Color::RGBW { r: 255, g: 255, b: 255, w: 255 }),
            state: State::On,
            effect: None,
        }
    );
}

#[test]
fn default_state_of_rgb_light_is_on_and_full() {
    let state = HomeAssistantLightState::default_from_specification(&rgb_spec());
    assert_eq!(
        state,
        HomeAssistantLightState {
            brightness: Some(255),
            color_mode: Some(ColorMode::RGB),
            color: Some(Color::RGB { r: 255, g: 255, b: 255 }),
            state: State::On,
            effect: None,
        }
    );
}

#[test]
fn merge_keeps_fields_that_the_update_leaves_out() {
    let mut state = HomeAssistantLightState {
        brightness: Some(40),
        color_mode: Some(ColorMode::RGB),
        color: Some(Color::RGB { r: 1, g: 2, b: 3 }),
        state: State::On,
        effect: Some("fire".to_string()),
    };
    state.update_with(&partial(State::Off));
    assert_eq!(state.brightness, Some(40));
    assert_eq!(state.color_mode, Some(ColorMode::RGB));
    assert_eq!(state.color, Some(Color::RGB { r: 1, g: 2, b: 3 }));
    assert_eq!(state.effect, Some("fire".to_string()));
    assert_eq!(state.state, State::Off);
}

#[test]
fn merge_takes_every_field_that_the_update_gives() {
    let mut state = HomeAssistantLightState::default_from_specification(&rgbw_spec());
    let update = HomeAssistantLightState {
        brightness: Some(7),
        color_mode: Some(ColorMode::HS),
        color: Some(Color::HS { h: 300, s: 50 }),
        state: State::Off,
        effect: Some("stars".to_string()),
    };
    state.update_with(&update);
    assert_eq!(state, update);
}

#[test]
fn merge_always_takes_the_power_state() {
    let mut state = partial(State::Off);
    state.update_with(&partial(State::On));
    assert_eq!(state.state, State::On);
    state.update_with(&partial(State::Off));
    assert_eq!(state.state, State::Off);
}

#[test]
fn merging_twice_is_merging_once() {
    let update = HomeAssistantLightState {
        brightness: Some(99),
        color_mode: None,
        color: Some(Color::RGBW { r: 9, g: 8, b: 7, w: 6 }),
        state: State::On,
        effect: None,
    };
    let mut once = HomeAssistantLightState::default_from_specification(&rgbw_spec());
    once.update_with(&update);
    let mut twice = once.clone();
    twice.update_with(&update);
    assert_eq!(once, twice);
}

#[test]
fn clone_of_a_state_is_equal() {
    let state = HomeAssistantLightState {
        brightness: Some(3),
        color_mode: Some(ColorMode::XY),
        color: Some(Color::XY { x: 1, y: 2 }),
        state: State::On,
        effect: Some("fire".to_string()),
    };
    assert_eq!(state.clone(), state);
}

#[test]
fn color_mode_names_the_color_space() {
    assert_eq!(rgbw_spec().color_mode(), Some("rgbw".to_string()));
    assert_eq!(rgb_spec().color_mode(), Some("rgb".to_string()));
}

#[test]
fn clone_of_a_specification_is_equal() {
    assert_eq!(rgbw_spec().clone(), rgbw_spec());
}

#[test]
fn off_frame_values_of_rgbw_mapping_zero_every_role() {
    assert_eq!(
        rgbw_spec().mapping.off_frame_values(),
        vec![(1, 0), (2, 0), (3, 0), (4, 0), (5, 0)]
    );
}

#[test]
fn off_frame_values_of_rgb_mapping_zero_every_role() {
    assert_eq!(rgb_spec().mapping.off_frame_values(), vec![(10, 0), (11, 0), (12, 0), (13, 0)]);
}

#[test]
fn off_frame_values_stay_within_the_roles() {
    let mapping = RGBWDimmerMapping { dimmer: 500, r: 7, g: 7, b: 300, w: 0 };
    let roles = [7u16, 7, 300, 0, 500];
    for (address, value) in LightChannelMapping::RGBWDimmer(mapping).off_frame_values() {
        assert!(roles.contains(&address));
        assert_eq!(value, 0);
    }
}

#[test]
fn status_message_carries_the_status() {
    let message = HassStatusMessage { status: HassStatus::Online };
    assert_eq!(message.status, HassStatus::Online);
    assert_ne!(message, HassStatusMessage { status: HassStatus::Offline });
}

#[test]
fn topics_are_built_from_the_light_id() {
    assert_eq!(state_topic("spot"), "homeassistant/dmx/spot");
    assert_eq!(command_topic("spot"), "homeassistant/dmx/spot/set");
    assert_eq!(state_topic(""), "homeassistant/dmx/");
}

#[test]
fn light_id_is_read_from_a_topic() {
    assert_eq!(light_of_topic("homeassistant/dmx/spot/set"), Some("spot".to_string()));
    assert_eq!(light_of_topic("homeassistant/dmx/spot"), Some("spot".to_string()));
    assert_eq!(light_of_topic("homeassistant/dmx/"), Some(String::new()));
    assert_eq!(light_of_topic("homeassistant/dmx//set"), Some(String::new()));
    assert_eq!(light_of_topic("homeassistant/dmx/b\u{e4}r/set/more"), Some("b\u{e4}r".to_string()));
    assert_eq!(light_of_topic("homeassistant/dmx"), None);
    assert_eq!(light_of_topic("homeassistant/status"), None);
    assert_eq!(light_of_topic(""), None);
}

#[test]
fn topic_of_a_light_leads_back_to_the_light() {
    assert_eq!(light_of_topic(&command_topic("bar")), Some("bar".to_string()));
    assert_eq!(light_of_topic(&state_topic("bar")), Some("bar".to_string()));
}

#[test]
fn config_holds_the_broker_and_the_lights() {
    let config = Config {
        mqtt: MQTTConfig {
            host: "mqtt://broker:1883".to_string(),
            username: Some("user".to_string()),
            password: None,
        },
        lights: vec![rgbw_spec(), rgb_spec()],
    };
    assert_eq!(config.mqtt.host, "mqtt://broker:1883");
    assert_eq!(config.mqtt.username, Some("user".to_string()));
    assert_eq!(config.mqtt.password, None);
    assert_eq!(config.lights.len(), 2);
    assert_eq!(config.lights[0].color_mode(), Some("rgbw".to_string()));
    assert_eq!(config.lights[1].display_name, "Bar");
}
