//! The controller as a value of specifications: what its lights and universes
//! are, and what every step of the controller makes of them.

use vstd::prelude::*;

use crate::config::{LightChannelMapping, LightSpecification};
use crate::control::{ControlError, ControlMessage, ControllerEvent};
use crate::dmx::{
    apply_writes, apply_writes_keeps_length, dark_frame, last_write_wins, writes_in_range,
    writing_twice_is_writing_once, DMXControllerError, DMX_CHANNELS,
};
use crate::hass::{merge_is_idempotent, Color, HomeAssistantLightState, State};

verus! {

/// Whether a fixture with the given mapping can show the color.
pub open spec fn shows(mapping: LightChannelMapping, color: Color) -> bool {
    match mapping {
        LightChannelMapping::RGBWDimmer(_) => color is RGBW,
        LightChannelMapping::RGBDimmer(_) => color is RGB,
    }
}

/// Whether the state holds what it takes to drive a fixture with the given
/// mapping: a brightness and a color, and, while the light is on, a color that the
/// fixture can show. A light that is off may hold any color.
pub open spec fn drivable(mapping: LightChannelMapping, state: HomeAssistantLightState) -> bool {
    &&& state.brightness is Some
    &&& state.color is Some
    &&& state.state == State::On ==> shows(mapping, state.color->0)
}

/// Whether a light with the given mapping and state takes the update: the state
/// after the merge does not ask a lit fixture for a color that it cannot show. An
/// update that switches the light off is always taken.
pub open spec fn accepts(
    mapping: LightChannelMapping,
    current: HomeAssistantLightState,
    update: HomeAssistantLightState,
) -> bool {
    let merged = current.merged(update);
    merged.state == State::On && merged.color is Some ==> shows(mapping, merged.color->0)
}

/// The channel writes that show the state on a fixture with the given mapping.
///
/// A light that is off gets its dimmer set to zero and nothing else, so that its
/// color channels keep their values. A light that is on gets its color on the color
/// channels and its brightness on the dimmer.
pub open spec fn frame_values_of(
    mapping: LightChannelMapping,
    state: HomeAssistantLightState,
) -> Seq<(u16, u8)>
    recommends
        state.state == State::On ==> drivable(mapping, state),
{
    if state.state == State::Off {
        seq![(mapping.dimmer_address(), 0u8)]
    } else {
        match (mapping, state.color) {
            (LightChannelMapping::RGBWDimmer(m), Some(Color::RGBW { r, g, b, w })) => seq![
                (m.r, r),
                (m.g, g),
                (m.b, b),
                (m.w, w),
                (m.dimmer, state.brightness->0),
            ],
            (LightChannelMapping::RGBDimmer(m), Some(Color::RGB { r, g, b })) => seq![
                (m.r, r),
                (m.g, g),
                (m.b, b),
                (m.dimmer, state.brightness->0),
            ],
            _ => Seq::empty(),
        }
    }
}

/// A light that is switched on with a color and a brightness, starting from the
/// state it was registered with, gets one write for each role of its mapping, in
/// the order of the roles: the components of the color on the color roles and the
/// brightness on the dimmer.
pub proof fn frame_values_round_trip(
    mapping: LightChannelMapping,
    update: HomeAssistantLightState,
)
    requires
        update.state == State::On,
        update.brightness is Some,
        update.color is Some,
        shows(mapping, update.color->0),
    ensures
        ({
            let state = HomeAssistantLightState::default_for(mapping).merged(update);
            let values = frame_values_of(mapping, state);
            &&& values.len() == mapping.role_addresses().len()
            &&& forall|i: int|
                0 <= i < values.len() ==> (#[trigger] values[i]).0 == mapping.role_addresses()[i]
            &&& values.last() == (mapping.dimmer_address(), update.brightness->0)
            &&& match (mapping, update.color->0) {
                (LightChannelMapping::RGBWDimmer(_), Color::RGBW { r, g, b, w }) => {
                    values.map_values(|write: (u16, u8)| write.1) == seq![
                        r,
                        g,
                        b,
                        w,
                        update.brightness->0,
                    ]
                },
                (LightChannelMapping::RGBDimmer(_), Color::RGB { r, g, b }) => {
                    values.map_values(|write: (u16, u8)| write.1) == seq![
                        r,
                        g,
                        b,
                        update.brightness->0,
                    ]
                },
                _ => false,
            }
        }),
{
}

/// The frame values of a light address roles of its mapping and nothing else. So
/// a light whose mapping lies within a universe is never refused by one.
pub proof fn frame_values_address_roles(
    mapping: LightChannelMapping,
    state: HomeAssistantLightState,
)
    ensures
        forall|i: int|
            0 <= i < frame_values_of(mapping, state).len() ==> mapping.role_addresses().contains(
                (#[trigger] frame_values_of(mapping, state)[i]).0,
            ),
        mapping.within_universe() ==> writes_in_range(frame_values_of(mapping, state)),
{
    let values = frame_values_of(mapping, state);
    let roles = mapping.role_addresses();
    if mapping.within_universe() {
        assert forall|i: int| 0 <= i < values.len() implies (#[trigger] values[i]).0
            < DMX_CHANNELS by {
            let k = roles.index_of(values[i].0);
            assert(roles[k] < DMX_CHANNELS);
        }
    }
}

/// An update that switches a light off is always taken, whatever color it names
/// and whatever the light holds, and the frame values of the light are then the
/// dimmer at zero and nothing else.
pub proof fn off_is_always_taken(
    mapping: LightChannelMapping,
    current: HomeAssistantLightState,
    update: HomeAssistantLightState,
)
    requires
        update.state == State::Off,
    ensures
        accepts(mapping, current, update),
        current.merged(update).state == State::Off,
        frame_values_of(mapping, current.merged(update)) == seq![(mapping.dimmer_address(), 0u8)],
        drivable(mapping, current) ==> drivable(mapping, current.merged(update)),
{
}

/// A registered light as a value of specifications.
pub struct LightModel {
    pub specification: LightSpecification,
    pub state: HomeAssistantLightState,
}

/// A universe of the controller as a value of specifications.
pub struct UniverseModel<D> {
    pub id: Seq<char>,
    pub channels: Seq<u8>,
    pub running: bool,
    pub parked_driver: Option<D>,
}

/// Where in `ids` the id stands, if it is there.
pub open spec fn position_of(ids: Seq<Seq<char>>, id: Seq<char>) -> Option<int> {
    if ids.contains(id) {
        Some(ids.index_of(id))
    } else {
        None
    }
}

/// In a sequence without duplicates an id stands where it is found.
pub proof fn position_of_found(ids: Seq<Seq<char>>, i: int)
    requires
        ids.no_duplicates(),
        0 <= i < ids.len(),
    ensures
        position_of(ids, ids[i]) == Some(i),
{
}

/// The ids of the universes, in the order of the table.
pub open spec fn ids_of<D>(universes: Seq<UniverseModel<D>>) -> Seq<Seq<char>> {
    universes.map_values(|universe: UniverseModel<D>| universe.id)
}

/// Whether the universes refuse the frame values of the light: the universe that
/// the light names is there, and one of the addresses lies outside it.
pub open spec fn refuses<D>(universes: Seq<UniverseModel<D>>, light: LightModel) -> bool {
    &&& position_of(ids_of(universes), light.specification.universe@) is Some
    &&& !writes_in_range(frame_values_of(light.specification.mapping, light.state))
}

/// The universes after the frame values of the light have been written into the
/// universe that the light names. Nothing changes where no universe has that id,
/// and nothing where the universes refuse the values.
pub open spec fn pushed_onto<D>(universes: Seq<UniverseModel<D>>, light: LightModel) -> Seq<
    UniverseModel<D>,
> {
    let writes = frame_values_of(light.specification.mapping, light.state);
    match position_of(ids_of(universes), light.specification.universe@) {
        Some(j) => if writes_in_range(writes) {
            universes.update(
                j,
                UniverseModel {
                    channels: apply_writes(universes[j].channels, writes),
                    ..universes[j]
                },
            )
        } else {
            universes
        },
        None => universes,
    }
}

/// The universes after the frame values of the first `n` lights have been written
/// into them, light by light.
pub open spec fn synced_with<D>(
    universes: Seq<UniverseModel<D>>,
    lights: Seq<LightModel>,
    n: nat,
) -> Seq<UniverseModel<D>>
    decreases n,
{
    if n == 0 {
        universes
    } else {
        pushed_onto(synced_with(universes, lights, (n - 1) as nat), lights[n - 1])
    }
}

/// A universe after its transmitter has been asked to start: it runs if it had a
/// device handle to give, and holds none now.
pub open spec fn started_universe<D>(universe: UniverseModel<D>) -> UniverseModel<D> {
    UniverseModel {
        running: universe.running || universe.parked_driver is Some,
        parked_driver: None,
        ..universe
    }
}

/// What a universe answers when its transmitter is asked to start: the device
/// handle that it held, or that it had none.
pub open spec fn start_outcome<D>(universe: UniverseModel<D>) -> Result<D, DMXControllerError> {
    match universe.parked_driver {
        Some(driver) => Ok(driver),
        None => Err(DMXControllerError::InitError),
    }
}

/// A universe after it has been stopped: dark, and not running.
pub open spec fn stopped_universe<D>(universe: UniverseModel<D>) -> UniverseModel<D> {
    UniverseModel { channels: dark_frame(), running: false, ..universe }
}

/// The controller as a value of specifications: its universes and its lights, each
/// in the order of registration, and whether it runs.
pub struct ControllerModel<D> {
    pub universes: Seq<UniverseModel<D>>,
    pub lights: Seq<LightModel>,
    pub running: bool,
}

impl<D> ControllerModel<D> {
    /// The ids of the lights, in the order of the table.
    pub open spec fn light_ids(self) -> Seq<Seq<char>> {
        self.lights.map_values(|light: LightModel| light.specification.id@)
    }

    /// The ids of the universes, in the order of the table.
    pub open spec fn universe_ids(self) -> Seq<Seq<char>> {
        ids_of(self.universes)
    }

    /// No id names two lights or two universes, every light can drive its
    /// fixture, and every universe has all its channels.
    pub open spec fn well_formed(self) -> bool {
        &&& self.light_ids().no_duplicates()
        &&& self.universe_ids().no_duplicates()
        &&& forall|i: int|
            0 <= i < self.lights.len() ==> drivable(
                (#[trigger] self.lights[i]).specification.mapping,
                self.lights[i].state,
            )
        &&& forall|j: int|
            0 <= j < self.universes.len() ==> (#[trigger] self.universes[j]).channels.len()
                == DMX_CHANNELS
    }

    /// Where the light with the id stands in the table.
    pub open spec fn light_at(self, id: Seq<char>) -> Option<int> {
        position_of(self.light_ids(), id)
    }

    /// Where the universe with the id stands in the table.
    pub open spec fn universe_at(self, id: Seq<char>) -> Option<int> {
        position_of(self.universe_ids(), id)
    }

    /// The controller after a light has been registered: in its starting state,
    /// in the place of the light that had its id, or after the others if none had.
    pub open spec fn registered(self, specification: LightSpecification) -> Self {
        let light = LightModel {
            specification,
            state: HomeAssistantLightState::default_for(specification.mapping),
        };
        ControllerModel {
            lights: match self.light_at(specification.id@) {
                Some(i) => self.lights.update(i, light),
                None => self.lights.push(light),
            },
            ..self
        }
    }

    /// The controller after the first `n` of the lights have been registered, one
    /// after the other.
    pub open spec fn registered_all(self, specifications: Seq<LightSpecification>, n: nat) -> Self
        decreases n,
    {
        if n == 0 {
            self
        } else {
            self.registered_all(specifications, (n - 1) as nat).registered(
                specifications[n - 1],
            )
        }
    }

    /// The controller after a universe has been added: in the place of the
    /// universe that had its id, or after the others if none had.
    pub open spec fn with_universe(self, universe: UniverseModel<D>) -> Self {
        ControllerModel {
            universes: match self.universe_at(universe.id) {
                Some(j) => self.universes.update(j, universe),
                None => self.universes.push(universe),
            },
            ..self
        }
    }

    /// The controller without the universe that has the id.
    pub open spec fn without_universe(self, id: Seq<char>) -> Self {
        ControllerModel {
            universes: match self.universe_at(id) {
                Some(j) => self.universes.remove(j),
                None => self.universes,
            },
            ..self
        }
    }

    /// What becomes of an update for the light with the id.
    ///
    /// An id that names no light changes nothing, and neither does an update
    /// after which the light would be on with a color that its fixture cannot
    /// show. Otherwise the update is merged into the state of the light; an update
    /// that switches the light off always is.
    /// The frame values of the new state are written into the universe of the
    /// light, unless that universe refuses them: then the light has its new state
    /// and the frame is as it was.
    pub open spec fn applied(self, id: Seq<char>, update: HomeAssistantLightState) -> (
        Self,
        Result<(), ControlError>,
    ) {
        match self.light_at(id) {
            None => (self, Err(ControlError::UnknownLight)),
            Some(i) => {
                let light = self.lights[i];
                if accepts(light.specification.mapping, light.state, update) {
                    let merged = LightModel { state: light.state.merged(update), ..light };
                    (
                        ControllerModel {
                            lights: self.lights.update(i, merged),
                            universes: pushed_onto(self.universes, merged),
                            ..self
                        },
                        if refuses(self.universes, merged) {
                            Err(ControlError::Universe(DMXControllerError::OutOfRange))
                        } else {
                            Ok(())
                        },
                    )
                } else {
                    (self, Err(ControlError::InvalidState))
                }
            },
        }
    }

    /// What becomes of a message.
    pub open spec fn handled(self, message: ControlMessage) -> (Self, Result<(), ControlError>) {
        match message {
            ControlMessage::LightState(id, update) => self.applied(id@, update),
        }
    }

    /// The controller after the first `n` of the messages, taken in order.
    pub open spec fn handled_all(self, messages: Seq<ControlMessage>, n: nat) -> Self
        decreases n,
    {
        if n == 0 {
            self
        } else {
            self.handled_all(messages, (n - 1) as nat).handled(messages[n - 1]).0
        }
    }

    /// The controller after the frame values of every light have been written
    /// into the universes, in the order of the table of lights.
    pub open spec fn synced(self) -> Self {
        ControllerModel {
            universes: synced_with(self.universes, self.lights, self.lights.len()),
            ..self
        }
    }

    /// Whether the universes refuse the frame values of one of the lights.
    pub open spec fn refuses_some_light(self) -> bool {
        exists|i: int|
            0 <= i < self.lights.len() && refuses(self.universes, #[trigger] self.lights[i])
    }

    /// The controller after a turn of its loop. Only a running controller changes,
    /// and only on messages and ticks.
    pub open spec fn after_event(self, event: ControllerEvent) -> Self {
        if self.running {
            match event {
                ControllerEvent::Cancelled => self,
                ControllerEvent::Messages(messages) => self.handled_all(messages@, messages@.len()),
                ControllerEvent::Tick => self.synced(),
            }
        } else {
            self
        }
    }

    /// How a resynchronisation ends: well, unless a universe refuses a light.
    pub open spec fn sync_outcome(self) -> Result<(), ControlError> {
        if self.refuses_some_light() {
            Err(ControlError::Universe(DMXControllerError::OutOfRange))
        } else {
            Ok(())
        }
    }

    /// How the message at place `k` goes when the messages are handled in order.
    pub open spec fn outcome_of(self, messages: Seq<ControlMessage>, k: int) -> Result<
        (),
        ControlError,
    > {
        self.handled_all(messages, k as nat).handled(messages[k]).1
    }

    /// The controller after a start: it runs, every universe has been asked to
    /// start, and the frames show the lights.
    pub open spec fn started(self) -> Self {
        ControllerModel {
            universes: synced_with(
                self.universes.map_values(|universe: UniverseModel<D>| started_universe(universe)),
                self.lights,
                self.lights.len(),
            ),
            running: true,
            ..self
        }
    }

    /// Whether every universe of the controller runs.
    pub open spec fn every_universe_runs(self) -> bool {
        forall|j: int| 0 <= j < self.universes.len() ==> (#[trigger] self.universes[j]).running
    }

    /// The controller after a stop: it does not run, and neither does a universe;
    /// every frame is dark.
    pub open spec fn stopped(self) -> Self {
        ControllerModel {
            universes: self.universes.map_values(
                |universe: UniverseModel<D>| stopped_universe(universe),
            ),
            running: false,
            ..self
        }
    }
}

/// After an update has been handled, the frame shows the light: where the roles of
/// the light have addresses of their own within the universe, every channel that
/// the frame values address holds its value, and every other channel of the
/// universe is as it was. No other universe changes.
pub proof fn frame_shows_the_light<D>(
    controller: ControllerModel<D>,
    id: Seq<char>,
    update: HomeAssistantLightState,
)
    requires
        controller.well_formed(),
        controller.light_at(id) is Some,
        ({
            let light = controller.lights[controller.light_at(id)->0];
            &&& accepts(light.specification.mapping, light.state, update)
            &&& light.specification.mapping.within_universe()
            &&& light.specification.mapping.role_addresses().no_duplicates()
            &&& controller.universe_at(light.specification.universe@) is Some
        }),
    ensures
        ({
            let light = controller.lights[controller.light_at(id)->0];
            let mapping = light.specification.mapping;
            let values = frame_values_of(mapping, light.state.merged(update));
            let j = controller.universe_at(light.specification.universe@)->0;
            let (after, answer) = controller.applied(id, update);
            &&& answer is Ok
            &&& after.universes.len() == controller.universes.len()
            &&& forall|k: int|
                0 <= k < values.len() ==> after.universes[j].channels[(
                #[trigger] values[k]).0 as int] == values[k].1
            &&& forall|channel: int|
                0 <= channel < DMX_CHANNELS && (forall|k: int|
                    0 <= k < values.len() ==> (#[trigger] values[k]).0 != channel)
                    ==> after.universes[j].channels[channel]
                    == controller.universes[j].channels[channel]
            &&& forall|other: int|
                0 <= other < controller.universes.len() && other != j
                    ==> after.universes[other] == controller.universes[other]
        }),
{
    let light = controller.lights[controller.light_at(id)->0];
    let mapping = light.specification.mapping;
    let merged = light.state.merged(update);
    let values = frame_values_of(mapping, merged);
    let roles = mapping.role_addresses();
    let j = controller.universe_at(light.specification.universe@)->0;
    let frame = controller.universes[j].channels;
    frame_values_address_roles(mapping, merged);
    assert forall|a: int, b: int| 0 <= a < b < values.len() implies values[a].0
        != values[b].0 by {
        assert(roles[a] == values[a].0 && roles[b] == values[b].0);
    }
    assert forall|k: int| 0 <= k < values.len() implies apply_writes(
        frame,
        values,
    )[(#[trigger] values[k]).0 as int] == values[k].1 by {
        last_write_wins(frame, values, values[k].0 as int);
    }
    assert forall|channel: int|
        0 <= channel < DMX_CHANNELS && (forall|k: int|
            0 <= k < values.len() ==> (#[trigger] values[k]).0 != channel) implies apply_writes(
        frame,
        values,
    )[channel] == frame[channel] by {
        last_write_wins(frame, values, channel);
    }
}

/// The light that a message is for.
pub open spec fn addressee(message: ControlMessage) -> Seq<char> {
    match message {
        ControlMessage::LightState(id, _) => id@,
    }
}

/// The update that a message carries.
pub open spec fn update_of(message: ControlMessage) -> HomeAssistantLightState {
    match message {
        ControlMessage::LightState(_, update) => update,
    }
}

/// The state of a light after the first `n` of the updates, taken in order: each
/// is merged into what the ones before it left, unless the light refuses it.
pub open spec fn folded(
    mapping: LightChannelMapping,
    state: HomeAssistantLightState,
    updates: Seq<HomeAssistantLightState>,
    n: nat,
) -> HomeAssistantLightState
    decreases n,
{
    if n == 0 {
        state
    } else {
        let before = folded(mapping, state, updates, (n - 1) as nat);
        if accepts(mapping, before, updates[n - 1]) {
            before.merged(updates[n - 1])
        } else {
            before
        }
    }
}

/// An update leaves the tables of the controller in order and touches one light
/// at most: every light keeps its place and what it was declared as, and every
/// light but the one that the update is for keeps its state.
pub proof fn update_touches_one_light<D>(
    controller: ControllerModel<D>,
    id: Seq<char>,
    update: HomeAssistantLightState,
)
    requires
        controller.well_formed(),
    ensures
        controller.applied(id, update).0.well_formed(),
        controller.applied(id, update).0.running == controller.running,
        controller.applied(id, update).0.light_ids() == controller.light_ids(),
        controller.applied(id, update).0.universe_ids() == controller.universe_ids(),
        controller.applied(id, update).0.lights.len() == controller.lights.len(),
        forall|k: int|
            0 <= k < controller.lights.len() ==> (#[trigger] controller.applied(
                id,
                update,
            ).0.lights[k]).specification == controller.lights[k].specification,
        forall|k: int|
            0 <= k < controller.lights.len() && controller.light_at(id) != Some(k)
                ==> #[trigger] controller.applied(id, update).0.lights[k] == controller.lights[k],
{
    let after = controller.applied(id, update).0;
    match controller.light_at(id) {
        None => {},
        Some(i) => {
            let light = controller.lights[i];
            if accepts(light.specification.mapping, light.state, update) {
                let merged = LightModel { state: light.state.merged(update), ..light };
                pushed_onto_keeps_shape(controller.universes, merged);
                assert(after.light_ids() =~= controller.light_ids());
            }
        },
    }
}

/// Messages for one light are merged into it one after the other, in the order in
/// which they stand: after the first `n` of them the state of the light is the
/// fold of their updates over the state it had, and no other light has changed.
pub proof fn messages_fold_into_their_light<D>(
    controller: ControllerModel<D>,
    id: Seq<char>,
    messages: Seq<ControlMessage>,
    n: nat,
)
    requires
        controller.well_formed(),
        controller.light_at(id) is Some,
        n <= messages.len(),
        forall|k: int| 0 <= k < n ==> addressee(#[trigger] messages[k]) == id,
    ensures
        ({
            let i = controller.light_at(id)->0;
            let after = controller.handled_all(messages, n);
            let updates = messages.map_values(|message: ControlMessage| update_of(message));
            &&& after.well_formed()
            &&& after.light_ids() == controller.light_ids()
            &&& after.lights.len() == controller.lights.len()
            &&& after.lights[i].specification == controller.lights[i].specification
            &&& after.lights[i].state == folded(
                controller.lights[i].specification.mapping,
                controller.lights[i].state,
                updates,
                n,
            )
            &&& forall|k: int|
                0 <= k < controller.lights.len() && k != i ==> #[trigger] after.lights[k]
                    == controller.lights[k]
        }),
    decreases n,
{
    if n > 0 {
        let before = controller.handled_all(messages, (n - 1) as nat);
        messages_fold_into_their_light(controller, id, messages, (n - 1) as nat);
        update_touches_one_light(before, id, update_of(messages[n - 1]));
        assert(before.handled(messages[n - 1]) == before.applied(id, update_of(messages[n - 1])));
    }
}

/// An update that has been handled changes nothing when it is handled again: the
/// lights, the frames and the answer are the same after the second time as after
/// the first.
pub proof fn handling_twice_is_handling_once<D>(
    controller: ControllerModel<D>,
    id: Seq<char>,
    update: HomeAssistantLightState,
)
    requires
        controller.well_formed(),
    ensures
        controller.applied(id, update).0.applied(id, update) == controller.applied(id, update),
{
    let once = controller.applied(id, update).0;
    match controller.light_at(id) {
        None => {},
        Some(i) => {
            let light = controller.lights[i];
            if accepts(light.specification.mapping, light.state, update) {
                let merged = LightModel { state: light.state.merged(update), ..light };
                merge_is_idempotent(light.state, update);
                assert(once.light_ids() =~= controller.light_ids());
                assert(once.lights.update(i, merged) =~= once.lights);
                pushed_onto_keeps_shape(controller.universes, merged);
                let writes = frame_values_of(merged.specification.mapping, merged.state);
                match position_of(ids_of(controller.universes), merged.specification.universe@) {
                    Some(j) => {
                        if writes_in_range(writes) {
                            let frame = controller.universes[j].channels;
                            writing_twice_is_writing_once(frame, writes);
                            assert(pushed_onto(once.universes, merged) =~= once.universes);
                        }
                    },
                    None => {},
                }
            }
        },
    }
}

/// Once a controller has been stopped, its frames are dark and stay dark, whatever
/// events still reach its loop.
pub proof fn stopped_frames_stay_dark<D>(controller: ControllerModel<D>, event: ControllerEvent)
    ensures
        controller.stopped().after_event(event) == controller.stopped(),
        controller.stopped().universes.len() == controller.universes.len(),
        forall|j: int|
            0 <= j < controller.universes.len() ==> (
            #[trigger] controller.stopped().universes[j]).channels == dark_frame(),
{
}

/// Ids stay distinct where one of them gives way to an id that was not there, or to
/// itself.
pub(crate) proof fn replacing_keeps_distinct(ids: Seq<Seq<char>>, i: int, id: Seq<char>)
    requires
        ids.no_duplicates(),
        0 <= i < ids.len(),
        position_of(ids, id) == Some(i),
    ensures
        ids.update(i, id).no_duplicates(),
{
}

/// Ids stay distinct where an id that was not there comes after them.
pub(crate) proof fn appending_keeps_distinct(ids: Seq<Seq<char>>, id: Seq<char>)
    requires
        ids.no_duplicates(),
        position_of(ids, id) is None,
    ensures
        ids.push(id).no_duplicates(),
{
}

/// Ids stay distinct where one of them leaves.
pub(crate) proof fn removing_keeps_distinct(ids: Seq<Seq<char>>, i: int)
    requires
        ids.no_duplicates(),
        0 <= i < ids.len(),
    ensures
        ids.remove(i).no_duplicates(),
{
}

/// Writing the frame values of a light keeps every universe under its id, and
/// with all its channels.
pub(crate) proof fn pushed_onto_keeps_shape<D>(universes: Seq<UniverseModel<D>>, light: LightModel)
    requires
        forall|j: int|
            0 <= j < universes.len() ==> (#[trigger] universes[j]).channels.len() == DMX_CHANNELS,
    ensures
        ids_of(pushed_onto(universes, light)) == ids_of(universes),
        pushed_onto(universes, light).len() == universes.len(),
        forall|j: int|
            0 <= j < universes.len() ==> (#[trigger] pushed_onto(
                universes,
                light,
            )[j]).channels.len() == DMX_CHANNELS,
{
    let writes = frame_values_of(light.specification.mapping, light.state);
    match position_of(ids_of(universes), light.specification.universe@) {
        Some(j) => {
            apply_writes_keeps_length(universes[j].channels, writes);
        },
        None => {},
    }
}

/// Writing the frame values of lights keeps every universe under its id, and with
/// all its channels.
pub(crate) proof fn synced_with_keeps_shape<D>(
    universes: Seq<UniverseModel<D>>,
    lights: Seq<LightModel>,
    n: nat,
)
    requires
        forall|j: int|
            0 <= j < universes.len() ==> (#[trigger] universes[j]).channels.len() == DMX_CHANNELS,
    ensures
        ids_of(synced_with(universes, lights, n)) == ids_of(universes),
        synced_with(universes, lights, n).len() == universes.len(),
        forall|j: int|
            0 <= j < universes.len() ==> (#[trigger] synced_with(
                universes,
                lights,
                n,
            )[j]).channels.len() == DMX_CHANNELS,
    decreases n,
{
    if n > 0 {
        synced_with_keeps_shape(universes, lights, (n - 1) as nat);
        pushed_onto_keeps_shape(synced_with(universes, lights, (n - 1) as nat), lights[n - 1]);
    }
}

} // verus!
