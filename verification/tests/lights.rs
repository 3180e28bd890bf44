use dmx_bridge::hass::{Color, ColorMode, HomeAssistantLightState, State};
use dmx_bridge::light::{
    DMXLight, LightType, RGBDimmerLight, RGBDimmerMapping, RGBWDimmerLight, RGBWDimmerMapping,
};

fn rgbw() -> RGBWDimmerLight {
    RGBWDimmerLight::new(RGBWDimmerMapping { dimmer: 5, r: 1, g: 2, b: 3, w: 4 })
}

fn rgb() -> RGBDimmerLight {
    RGBDimmerLight::new(RGBDimmerMapping { dimmer: 9, r: 6, g: 7, b: 8 })
}

fn request(
    state: State,
    brightness: Option<u8>,
    color: Option<Color>,
) -> HomeAssistantLightState {
    HomeAssistantLightState { brightness, color_mode: None, color, state, effect: None }
}

#[test]
fn new_rgbw_light_is_off_with_full_values_stored() {
    let light = rgbw();
    assert_eq!(
        light.hass_state(),
        HomeAssistantLightState {
            brightness: Some(255),
            color_mode: Some(ColorMode::RGBW),
            color: Some(Color::RGBW { r: 255, g: 255, b: 255, w: 255 }),
            state: State::Off,
            effect: None,
        }
    );
    assert_eq!(light.current_dmx_values(), vec![(1, 0), (2, 0), (3, 0), (4, 0), (5, 0)]);
    assert_eq!(light.light_type(), LightType::RGBWDimmer);
}

#[test]
fn new_rgb_light_is_off_with_full_values_stored() {
    let light = rgb();
    assert_eq!(
        light.hass_state(),
        HomeAssistantLightState {
            brightness: Some(255),
            color_mode: Some(ColorMode::RGB),
            color: Some(Color::RGB { r: 255, g: 255, b: 255 }),
            state: State::Off,
            effect: None,
        }
    );
    assert_eq!(light.current_dmx_values(), vec![(6, 0), (7, 0), (8, 0), (9, 0)]);
    assert_eq!(light.light_type(), LightType::RGBDimmer);
}

#[test]
fn rgbw_light_shows_what_it_was_sent() {
    let mut light = rgbw();
    let sent = request(State::On, Some(128), Some(Color::RGBW { r: 10, g: 20, b: 30, w: 40 }));
    assert_eq!(light.update(&sent), Ok(()));
    assert_eq!(light.current_dmx_values(), vec![(1, 10), (2, 20), (3, 30), (4, 40), (5, 128)]);
    assert_eq!(light.hass_state().state, State::On);
    assert_eq!(light.hass_state().brightness, Some(128));
}

#[test]
fn rgb_light_shows_what_it_was_sent() {
    let mut light = rgb();
    let sent = request(State::On, Some(64), Some(Color::RGB { r: 1, g: 2, b: 3 }));
    assert_eq!(light.update(&sent), Ok(()));
    assert_eq!(light.current_dmx_values(), vec![(6, 1), (7, 2), (8, 3), (9, 64)]);
}

#[test]
fn rgbw_light_ignores_a_color_of_another_kind() {
    let mut light = rgbw();
    let sent = request(State::On, Some(50), Some(Color::RGB { r: 1, g: 2, b: 3 }));
    assert_eq!(light.update(&sent), Ok(()));
    assert_eq!(
        light.current_dmx_values(),
        vec![(1, 255), (2, 255), (3, 255), (4, 255), (5, 50)]
    );
}

#[test]
fn rgb_light_ignores_a_color_of_another_kind() {
    let mut light = rgb();
    let sent = request(State::On, None, Some(Color::RGBW { r: 1, g: 2, b: 3, w: 4 }));
    assert_eq!(light.update(&sent), Ok(()));
    assert_eq!(light.current_dmx_values(), vec![(6, 255), (7, 255), (8, 255), (9, 255)]);
}

#[test]
fn light_that_is_switched_off_keeps_its_values_and_goes_dark() {
    let mut light = rgbw();
    light
        .update(&request(State::On, Some(200), Some(Color::RGBW { r: 4, g: 3, b: 2, w: 1 })))
        .unwrap();
    light.update(&request(State::Off, None, None)).unwrap();
    assert_eq!(light.current_dmx_values(), vec![(1, 0), (2, 0), (3, 0), (4, 0), (5, 0)]);
    assert_eq!(light.hass_state().color, Some(Color::RGBW { r: 4, g: 3, b: 2, w: 1 }));
    assert_eq!(light.hass_state().brightness, Some(200));
    light.update(&request(State::On, None, None)).unwrap();
    assert_eq!(light.current_dmx_values(), vec![(1, 4), (2, 3), (3, 2), (4, 1), (5, 200)]);
}

#[test]
fn reset_puts_a_light_back_to_its_first_state() {
    let mut light = rgb();
    light.update(&request(State::On, Some(1), Some(Color::RGB { r: 1, g: 1, b: 1 }))).unwrap();
    light.reset_state();
    assert_eq!(light.hass_state(), rgb().hass_state());
    assert_eq!(light.mapping, RGBDimmerMapping { dimmer: 9, r: 6, g: 7, b: 8 });
}

#[test]
fn lights_never_report_an_effect() {
    let mut light = rgbw();
    let mut sent = request(State::On, None, None);
    sent.effect = Some("fire".to_string());
    light.update(&sent).unwrap();
    assert_eq!(light.hass_state().effect, None);
}

#[test]
fn lights_of_both_kinds_work_behind_one_interface() {
    let mut lights: Vec<Box<dyn DMXLight>> = vec![Box::new(rgbw()), Box::new(rgb())];
    let sent = request(State::On, Some(9), None);
    for light in lights.iter_mut() {
        assert_eq!(light.update(&sent), Ok(()));
    }
    assert_eq!(lights[0].light_type(), LightType::RGBWDimmer);
    assert_eq!(lights[1].light_type(), LightType::RGBDimmer);
    assert_eq!(
        lights[0].current_dmx_values(),
        vec![(1, 255), (2, 255), (3, 255), (4, 255), (5, 9)]
    );
    assert_eq!(lights[1].current_dmx_values(), vec![(6, 255), (7, 255), (8, 255), (9, 9)]);
}

#[test]
fn light_gives_the_mapping_that_it_was_made_with() {
    assert_eq!(rgbw().mapping(), RGBWDimmerMapping { dimmer: 5, r: 1, g: 2, b: 3, w: 4 });
    assert_eq!(rgb().mapping(), RGBDimmerMapping { dimmer: 9, r: 6, g: 7, b: 8 });
    let mut light = rgbw();
    light.update(&request(State::On, Some(1), None)).unwrap();
    assert_eq!(light.mapping(), light.mapping);
}

#[test]
fn light_reports_a_color_of_its_own_kind_whatever_it_was_sent() {
    let mut light = rgbw();
    for color in [
        Color::RGB { r: 1, g: 2, b: 3 },
        Color::RGBWW { r: 1, g: 2, b: 3, c: 4, w: 5 },
        Color::XY { x: 1, y: 2 },
        Color::HS { h: 1, s: 2 },
    ] {
        light.update(&request(State::On, None, Some(color))).unwrap();
        let state = light.hass_state();
        assert_eq!(state.color, Some(Color::RGBW { r: 255, g: 255, b: 255, w: 255 }));
        assert_eq!(state.color_mode, Some(ColorMode::RGBW));
        assert_eq!(state.brightness, Some(255));
    }
    let mut light = rgb();
    light.update(&request(State::On, None, Some(Color::HS { h: 1, s: 2 }))).unwrap();
    assert_eq!(light.hass_state().color, Some(Color::RGB { r: 255, g: 255, b: 255 }));
    assert_eq!(light.hass_state().color_mode, Some(ColorMode::RGB));
}
