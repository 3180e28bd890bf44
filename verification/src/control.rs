//! The controller: the table of lights, the universes that carry them, and the way
//! a state update travels from a message into a frame.

use vstd::prelude::*;

use crate::config::{LightChannelMapping, LightSpecification};
use crate::dmx::{DMXController, DMXControllerError, FTDIDMXController, DMX_CHANNELS};
use crate::hass::{Color, HomeAssistantLightState, State};
use crate::light::UpdateError;

mod model;

pub use model::{
    accepts, addressee, drivable, folded, frame_shows_the_light, frame_values_address_roles,
    frame_values_of, frame_values_round_trip, handling_twice_is_handling_once, ids_of,
    messages_fold_into_their_light, off_is_always_taken, position_of, update_of,
    update_touches_one_light,
    position_of_found, pushed_onto, refuses, shows, start_outcome, started_universe,
    stopped_frames_stay_dark, stopped_universe, synced_with, ControllerModel, LightModel,
    UniverseModel,
};

use model::{
    appending_keeps_distinct, pushed_onto_keeps_shape, removing_keeps_distinct,
    replacing_keeps_distinct, synced_with_keeps_shape,
};

verus! {

/// What the controller is asked to do.
#[derive(Debug, PartialEq, Eq)]
pub enum ControlMessage {
    /// Merge the state into the light with the given id.
    LightState(String, HomeAssistantLightState),
}

impl Clone for ControlMessage {
    fn clone(&self) -> (r: Self)
        ensures
            r == *self,
    {
        match self {
            ControlMessage::LightState(id, state) => ControlMessage::LightState(
                id.clone(),
                state.clone(),
            ),
        }
    }
}

/// How many messages the mailbox of a controller holds.
pub const MAILBOX_CAPACITY: usize = 100;

/// How many messages the controller takes from its mailbox at a time.
pub const BATCH_SIZE: usize = 10;

/// The time between two resynchronisations, in milliseconds.
pub const TICK_MILLIS: u64 = 10;

/// What the loop of a running controller can wake up to.
#[derive(Debug, PartialEq, Eq)]
pub enum ControllerEvent {
    /// The controller has been told to end.
    Cancelled,
    /// Messages have come out of the mailbox, the oldest first.
    Messages(Vec<ControlMessage>),
    /// The time for a resynchronisation has come.
    Tick,
}

/// What the controller did about an event.
#[derive(Debug, PartialEq, Eq)]
pub enum Reaction {
    /// Nothing; the loop has to end.
    Exit,
    /// It handled the messages; how each of them went, in their order.
    Handled(Vec<Result<(), ControlError>>),
    /// It wrote every light into the frames again; how that went.
    Resynced(Result<(), ControlError>),
}

/// Why the controller did not do what it was asked.
#[derive(Clone, Copy, Debug, PartialEq, Eq, Structural)]
pub enum ControlError {
    /// The controller is not running, so nothing takes messages.
    MailboxClosed,
    /// The controller was asked to stop while it was not running.
    NotRunning,
    /// No light is registered under the id.
    UnknownLight,
    /// With the update the light would be on with a color that it cannot show.
    InvalidState,
    /// A universe refused what it was asked.
    Universe(DMXControllerError),
}

/// A registered light: what it was declared as, and the state it was last given.
/// The state always holds a brightness and a color, and while the light is on the
/// color is one that the fixture can show.
pub struct LightObject {
    specification: LightSpecification,
    control_state: HomeAssistantLightState,
}

impl View for LightObject {
    type V = LightModel;

    closed spec fn view(&self) -> LightModel {
        LightModel { specification: self.specification, state: self.control_state }
    }
}

impl LightObject {
    #[verifier::type_invariant]
    spec fn can_drive(self) -> bool {
        drivable(self.specification.mapping, self.control_state)
    }

    /// A light in the state that every light starts with.
    pub fn new(specification: LightSpecification) -> (light: Self)
        ensures
            light@.specification == specification,
            light@.state == HomeAssistantLightState::default_for(specification.mapping),
            drivable(light@.specification.mapping, light@.state),
    {
        let control_state = HomeAssistantLightState::default_from_specification(&specification);
        LightObject { specification, control_state }
    }

    /// What the light was declared as.
    pub fn specification(&self) -> (s: &LightSpecification)
        ensures
            *s == self@.specification,
    {
        &self.specification
    }

    /// A copy of the state of the light.
    pub fn hass_state(&self) -> (s: HomeAssistantLightState)
        ensures
            s == self@.state,
            drivable(self@.specification.mapping, self@.state),
    {
        proof {
            use_type_invariant(self);
        }
        self.control_state.clone()
    }

    /// Merges the update into the state of the light, unless the light would then
    /// be on with a color that the fixture cannot show: then the light stays as it
    /// is. An update that switches the light off is always merged.
    pub fn update(&mut self, update: &HomeAssistantLightState) -> (r: Result<(), UpdateError>)
        ensures
            final(self)@.specification == old(self)@.specification,
            drivable(final(self)@.specification.mapping, final(self)@.state),
            accepts(old(self)@.specification.mapping, old(self)@.state, *update) ==> {
                &&& r is Ok
                &&& final(self)@.state == old(self)@.state.merged(*update)
            },
            !accepts(old(self)@.specification.mapping, old(self)@.state, *update) ==> {
                &&& r == Err::<(), _>(UpdateError::InvalidState)
                &&& final(self)@ == old(self)@
            },
            update.state == State::Off ==> r is Ok,
    {
        proof {
            use_type_invariant(&*self);
        }
        let mut merged = self.control_state.clone();
        merged.update_with(update);
        let fits = match merged.state {
            State::Off => true,
            State::On => match (&self.specification.mapping, &merged.color) {
                (LightChannelMapping::RGBWDimmer(_), Some(Color::RGBW { .. })) => true,
                (LightChannelMapping::RGBDimmer(_), Some(Color::RGB { .. })) => true,
                _ => false,
            },
        };
        if !fits {
            return Err(UpdateError::InvalidState);
        }
        self.control_state = merged;
        Ok(())
    }

    /// The channel writes that show the light as it is now.
    pub fn frame_values(&self) -> (v: Vec<(u16, u8)>)
        ensures
            v@ == frame_values_of(self@.specification.mapping, self@.state),
    {
        proof {
            use_type_invariant(self);
        }
        match &self.specification.mapping {
            LightChannelMapping::RGBWDimmer(mapping) => {
                if self.control_state.state == State::Off {
                    return vec![(mapping.dimmer, 0)];
                }
                let (r, g, b, w) = match self.control_state.color {
                    Some(Color::RGBW { r, g, b, w }) => (r, g, b, w),
                    _ => unreached(),
                };
                let dimmer = self.control_state.brightness.unwrap();
                vec![
                    (mapping.r, r),
                    (mapping.g, g),
                    (mapping.b, b),
                    (mapping.w, w),
                    (mapping.dimmer, dimmer),
                ]
            },
            LightChannelMapping::RGBDimmer(mapping) => {
                if self.control_state.state == State::Off {
                    return vec![(mapping.dimmer, 0)];
                }
                let (r, g, b) = match self.control_state.color {
                    Some(Color::RGB { r, g, b }) => (r, g, b),
                    _ => unreached(),
                };
                let dimmer = self.control_state.brightness.unwrap();
                vec![(mapping.r, r), (mapping.g, g), (mapping.b, b), (mapping.dimmer, dimmer)]
            },
        }
    }
}

struct UniverseEntry<D> {
    id: String,
    controller: FTDIDMXController<D>,
}

impl<D> View for UniverseEntry<D> {
    type V = UniverseModel<D>;

    closed spec fn view(&self) -> UniverseModel<D> {
        UniverseModel {
            id: self.id@,
            channels: self.controller.channels(),
            running: self.controller.running(),
            parked_driver: self.controller.parked_driver(),
        }
    }
}

spec fn light_models(lights: Seq<LightObject>) -> Seq<LightModel> {
    lights.map_values(|light: LightObject| light@)
}

spec fn universe_models<D>(entries: Seq<UniverseEntry<D>>) -> Seq<UniverseModel<D>> {
    entries.map_values(|entry: UniverseEntry<D>| entry@)
}

spec fn ids_of_lights(lights: Seq<LightObject>) -> Seq<Seq<char>> {
    light_models(lights).map_values(|light: LightModel| light.specification.id@)
}

spec fn ids_of_universes<D>(entries: Seq<UniverseEntry<D>>) -> Seq<Seq<char>> {
    ids_of(universe_models(entries))
}

/// Looks the id up in the table of lights.
fn find_light(lights: &Vec<LightObject>, id: &String) -> (r: Option<usize>)
    requires
        ids_of_lights(lights@).no_duplicates(),
    ensures
        match r {
            Some(i) => i < lights.len() && position_of(ids_of_lights(lights@), id@) == Some(
                i as int,
            ),
            None => position_of(ids_of_lights(lights@), id@) is None,
        },
{
    let ghost ids = ids_of_lights(lights@);
    let mut k: usize = 0;
    while k < lights.len()
        invariant
            k <= lights.len(),
            ids == ids_of_lights(lights@),
            ids.no_duplicates(),
            forall|i: int| 0 <= i < k ==> ids[i] != id@,
        decreases lights.len() - k,
    {
        if lights[k].specification.id == *id {
            proof {
                position_of_found(ids, k as int);
            }
            return Some(k);
        }
        k += 1;
    }
    None
}

/// Looks the id up in the table of universes.
fn find_universe<D>(entries: &Vec<UniverseEntry<D>>, id: &String) -> (r: Option<usize>)
    requires
        ids_of_universes(entries@).no_duplicates(),
    ensures
        match r {
            Some(j) => j < entries.len() && position_of(ids_of_universes(entries@), id@) == Some(
                j as int,
            ),
            None => position_of(ids_of_universes(entries@), id@) is None,
        },
{
    let ghost ids = ids_of_universes(entries@);
    let mut k: usize = 0;
    while k < entries.len()
        invariant
            k <= entries.len(),
            ids == ids_of_universes(entries@),
            ids.no_duplicates(),
            forall|j: int| 0 <= j < k ==> ids[j] != id@,
        decreases entries.len() - k,
    {
        if entries[k].id == *id {
            proof {
                position_of_found(ids, k as int);
            }
            return Some(k);
        }
        k += 1;
    }
    None
}

/// Writes the frame values of the light into the universe that carries it.
fn push_light<D>(entries: &mut Vec<UniverseEntry<D>>, light: &LightObject) -> (refused: bool)
    requires
        ids_of_universes(old(entries)@).no_duplicates(),
    ensures
        universe_models(final(entries)@) == pushed_onto(universe_models(old(entries)@), light@),
        refused == refuses(universe_models(old(entries)@), light@),
        ids_of_universes(final(entries)@) == ids_of_universes(old(entries)@),
{
    let ghost before = universe_models(entries@);
    proof {
        assert forall|j: int| 0 <= j < before.len() implies (#[trigger] before[j]).channels.len()
            == DMX_CHANNELS by {
            entries@[j].controller.has_all_channels();
        }
        pushed_onto_keeps_shape(before, light@);
    }
    match find_universe(entries, &light.specification.universe) {
        Some(j) => {
            let values = light.frame_values();
            let outcome = entries[j].controller.update_many(values);
            outcome.is_err()
        },
        None => false,
    }
}

/// Writes the frame values of every light into the universes, light by light.
fn sync_entries<D>(entries: &mut Vec<UniverseEntry<D>>, lights: &Vec<LightObject>) -> (refused:
    bool)
    requires
        ids_of_universes(old(entries)@).no_duplicates(),
    ensures
        universe_models(final(entries)@) == synced_with(
            universe_models(old(entries)@),
            light_models(lights@),
            lights@.len(),
        ),
        refused == (exists|i: int|
            0 <= i < lights@.len() && refuses(
                universe_models(old(entries)@),
                #[trigger] light_models(lights@)[i],
            )),
        ids_of_universes(final(entries)@) == ids_of_universes(old(entries)@),
{
    let ghost before = universe_models(entries@);
    let ghost models = light_models(lights@);
    let mut refused = false;
    let mut i: usize = 0;
    while i < lights.len()
        invariant
            i <= lights.len(),
            models == light_models(lights@),
            before == universe_models(old(entries)@),
            ids_of_universes(entries@) == ids_of(before),
            ids_of(before).no_duplicates(),
            universe_models(entries@) == synced_with(before, models, i as nat),
            refused == (exists|k: int| 0 <= k < i && refuses(before, #[trigger] models[k])),
        decreases lights.len() - i,
    {
        let refused_now = push_light(entries, &lights[i]);
        if refused_now {
            refused = true;
        }
        i += 1;
    }
    refused
}

/// What a start hands to the caller.
pub struct Started<D> {
    /// For every universe, in the order of the table, its id and the device
    /// handle for its transmitter, or why the universe did not start.
    pub transmitters: Vec<(String, Result<D, DMXControllerError>)>,
    /// Whether every light found its place in the frames.
    pub primed: Result<(), ControlError>,
}

/// The lights and the universes of an installation, and the switch that says
/// whether updates are taken.
pub struct LightController<D> {
    universes: Vec<UniverseEntry<D>>,
    lights: Vec<LightObject>,
    running: bool,
}

impl<D> View for LightController<D> {
    type V = ControllerModel<D>;

    closed spec fn view(&self) -> ControllerModel<D> {
        ControllerModel {
            universes: universe_models(self.universes@),
            lights: light_models(self.lights@),
            running: self.running,
        }
    }
}

impl<D> LightController<D> {
    #[verifier::type_invariant]
    spec fn tables_well_formed(self) -> bool {
        self@.well_formed()
    }

    /// A controller without lights or universes that is not running.
    pub fn new() -> (c: Self)
        ensures
            c@.lights.len() == 0,
            c@.universes.len() == 0,
            !c@.running,
            c@.well_formed(),
    {
        LightController { universes: Vec::new(), lights: Vec::new(), running: false }
    }

    /// Whether the controller has been started and not stopped since.
    pub fn is_running(&self) -> (b: bool)
        ensures
            b == self@.running,
            self@.well_formed(),
    {
        proof {
            use_type_invariant(self);
        }
        self.running
    }

    /// Adds a universe under the id. A universe that had the id is replaced.
    pub fn add_universe(&mut self, id: &str, universe: FTDIDMXController<D>)
        ensures
            final(self)@ == old(self)@.with_universe(
                UniverseModel {
                    id: id@,
                    channels: universe.channels(),
                    running: universe.running(),
                    parked_driver: universe.parked_driver(),
                },
            ),
            final(self)@.well_formed(),
    {
        proof {
            use_type_invariant(&*self);
            universe.has_all_channels();
        }
        let ghost before = self@;
        let entry = UniverseEntry { id: id.to_owned(), controller: universe };
        let mut entries: Vec<UniverseEntry<D>> = Vec::new();
        core::mem::swap(&mut self.universes, &mut entries);
        match find_universe(&entries, &entry.id) {
            Some(j) => {
                entries[j] = entry;
                proof {
                    assert(universe_models(entries@) =~= before.universes.update(j as int, entry@));
                    replacing_keeps_distinct(before.universe_ids(), j as int, id@);
                    assert(ids_of_universes(entries@) =~= before.universe_ids().update(
                        j as int,
                        id@,
                    ));
                }
            },
            None => {
                entries.push(entry);
                proof {
                    assert(universe_models(entries@) =~= before.universes.push(entry@));
                    appending_keeps_distinct(before.universe_ids(), id@);
                    assert(ids_of_universes(entries@) =~= before.universe_ids().push(id@));
                }
            },
        }
        self.universes = entries;
    }

    /// Takes the universe with the id out of the controller, so that the caller
    /// can reclaim and close its device.
    pub fn remove_universe(&mut self, universe: &str) -> (r: Option<FTDIDMXController<D>>)
        ensures
            final(self)@ == old(self)@.without_universe(universe@),
            final(self)@.well_formed(),
            match old(self)@.universe_at(universe@) {
                Some(j) => {
                    &&& r matches Some(removed)
                    &&& removed.channels() == old(self)@.universes[j].channels
                    &&& removed.running() == old(self)@.universes[j].running
                    &&& removed.parked_driver() == old(self)@.universes[j].parked_driver
                },
                None => r is None,
            },
    {
        proof {
            use_type_invariant(&*self);
        }
        let ghost before = self@;
        let key = universe.to_owned();
        let mut entries: Vec<UniverseEntry<D>> = Vec::new();
        core::mem::swap(&mut self.universes, &mut entries);
        let removed = match find_universe(&entries, &key) {
            Some(j) => {
                let entry = entries.remove(j);
                proof {
                    assert(universe_models(entries@) =~= before.universes.remove(j as int));
                    removing_keeps_distinct(before.universe_ids(), j as int);
                    assert(ids_of_universes(entries@) =~= before.universe_ids().remove(j as int));
                }
                Some(entry.controller)
            },
            None => None,
        };
        self.universes = entries;
        removed
    }

    /// A copy of the frame of the universe with the id, for its transmitter to
    /// send.
    pub fn universe_frame(&self, universe: &str) -> (r: Option<[u8; 512]>)
        ensures
            self@.well_formed(),
            match self@.universe_at(universe@) {
                Some(j) => r matches Some(frame) && frame@ == self@.universes[j].channels,
                None => r is None,
            },
    {
        proof {
            use_type_invariant(self);
        }
        let key = universe.to_owned();
        match find_universe(&self.universes, &key) {
            Some(j) => Some(self.universes[j].controller.frame()),
            None => None,
        }
    }

    /// Registers a light in its starting state. A light that had the id is
    /// replaced. Never fails.
    pub fn add_light(&mut self, light: LightSpecification) -> (r: Result<(), ControlError>)
        ensures
            r is Ok,
            final(self)@ == old(self)@.registered(light),
            final(self)@.well_formed(),
    {
        proof {
            use_type_invariant(&*self);
        }
        let ghost before = self@;
        let object = LightObject::new(light);
        let mut lights: Vec<LightObject> = Vec::new();
        core::mem::swap(&mut self.lights, &mut lights);
        match find_light(&lights, &object.specification.id) {
            Some(i) => {
                lights[i] = object;
                proof {
                    assert(light_models(lights@) =~= before.lights.update(i as int, object@));
                    replacing_keeps_distinct(before.light_ids(), i as int, light.id@);
                    assert(ids_of_lights(lights@) =~= before.light_ids().update(
                        i as int,
                        light.id@,
                    ));
                }
            },
            None => {
                lights.push(object);
                proof {
                    assert(light_models(lights@) =~= before.lights.push(object@));
                    appending_keeps_distinct(before.light_ids(), light.id@);
                    assert(ids_of_lights(lights@) =~= before.light_ids().push(light.id@));
                }
            },
        }
        self.lights = lights;
        Ok(())
    }

    /// Registers the lights, one after the other. Never fails.
    pub fn add_lights(&mut self, lights: Vec<LightSpecification>) -> (r: Result<(), ControlError>)
        ensures
            r is Ok,
            final(self)@ == old(self)@.registered_all(lights@, lights@.len()),
            final(self)@.well_formed(),
    {
        proof {
            use_type_invariant(&*self);
        }
        let mut i: usize = 0;
        while i < lights.len()
            invariant
                i <= lights.len(),
                self@ == old(self)@.registered_all(lights@, i as nat),
                self@.well_formed(),
            decreases lights.len() - i,
        {
            let _ = self.add_light(lights[i].clone());
            i += 1;
        }
        Ok(())
    }

    /// The state of the light with the id, as the last update that was handled
    /// left it.
    pub fn get_hass_state(&self, light_id: &str) -> (r: Option<HomeAssistantLightState>)
        ensures
            self@.well_formed(),
            r == match self@.light_at(light_id@) {
                Some(i) => Some(self@.lights[i].state),
                None => None,
            },
    {
        proof {
            use_type_invariant(self);
        }
        let key = light_id.to_owned();
        match find_light(&self.lights, &key) {
            Some(i) => Some(self.lights[i].hass_state()),
            None => None,
        }
    }

    /// The id and the state of every light, in the order of the table.
    pub fn get_all_hass_states(&self) -> (r: Vec<(String, HomeAssistantLightState)>)
        ensures
            self@.well_formed(),
            r@.len() == self@.lights.len(),
            forall|i: int|
                0 <= i < r@.len() ==> (#[trigger] r@[i]).0@ == self@.lights[i].specification.id@
                    && r@[i].1 == self@.lights[i].state,
    {
        proof {
            use_type_invariant(self);
        }
        let mut states: Vec<(String, HomeAssistantLightState)> = Vec::new();
        let mut i: usize = 0;
        while i < self.lights.len()
            invariant
                i <= self.lights.len(),
                states@.len() == i,
                forall|k: int|
                    0 <= k < i ==> (#[trigger] states@[k]).0@ == self@.lights[k].specification.id@
                        && states@[k].1 == self@.lights[k].state,
            decreases self.lights.len() - i,
        {
            let light = &self.lights[i];
            states.push((light.specification.id.clone(), light.hass_state()));
            i += 1;
        }
        states
    }

    /// The message that asks for the update, for the caller to put into the
    /// mailbox of the controller. While the controller is not running the mailbox
    /// is closed.
    pub fn update_light_state(&self, light_id: &str, state: HomeAssistantLightState) -> (r: Result<
        ControlMessage,
        ControlError,
    >)
        ensures
            self@.running ==> (r matches Ok(ControlMessage::LightState(id, update)) && id@
                == light_id@ && update == state),
            !self@.running ==> r == Err::<ControlMessage, _>(ControlError::MailboxClosed),
    {
        if self.running {
            Ok(ControlMessage::LightState(light_id.to_owned(), state))
        } else {
            Err(ControlError::MailboxClosed)
        }
    }

    /// Starts the controller: asks every universe to start, writes the frame
    /// values of every light into the universes, and opens the mailbox.
    pub fn start(&mut self) -> (r: Started<D>)
        ensures
            final(self)@ == old(self)@.started(),
            final(self)@.well_formed(),
            r.transmitters@.len() == old(self)@.universes.len(),
            forall|j: int|
                0 <= j < r.transmitters@.len() ==> {
                    &&& (#[trigger] r.transmitters@[j]).0@ == old(self)@.universes[j].id
                    &&& r.transmitters@[j].1 == start_outcome(old(self)@.universes[j])
                },
            r.primed == old(self)@.sync_outcome(),
    {
        proof {
            use_type_invariant(&*self);
        }
        let ghost before = self@;
        let mut entries: Vec<UniverseEntry<D>> = Vec::new();
        core::mem::swap(&mut self.universes, &mut entries);
        let mut transmitters: Vec<(String, Result<D, DMXControllerError>)> = Vec::new();
        let mut j: usize = 0;
        while j < entries.len()
            invariant
                j <= entries.len(),
                entries@.len() == before.universes.len(),
                forall|k: int|
                    0 <= k < j ==> (#[trigger] entries@[k])@ == started_universe(
                        before.universes[k],
                    ),
                forall|k: int|
                    j <= k < entries@.len() ==> (#[trigger] entries@[k])@ == before.universes[k],
                transmitters@.len() == j,
                forall|k: int|
                    0 <= k < j ==> {
                        &&& (#[trigger] transmitters@[k]).0@ == before.universes[k].id
                        &&& transmitters@[k].1 == start_outcome(before.universes[k])
                    },
            decreases entries.len() - j,
        {
            let outcome = entries[j].controller.start();
            transmitters.push((entries[j].id.clone(), outcome));
            j += 1;
        }
        let ghost asked = before.universes.map_values(
            |universe: UniverseModel<D>| started_universe(universe),
        );
        assert(universe_models(entries@) =~= asked);
        assert(ids_of(asked) =~= ids_of(before.universes));
        let refused = sync_entries(&mut entries, &self.lights);
        proof {
            synced_with_keeps_shape(asked, before.lights, before.lights.len());
            assert forall|i: int| 0 <= i < before.lights.len() implies refuses(
                asked,
                #[trigger] before.lights[i],
            ) == refuses(before.universes, before.lights[i]) by {}
        }
        self.universes = entries;
        self.running = true;
        Started {
            transmitters,
            primed: if refused {
                Err(ControlError::Universe(DMXControllerError::OutOfRange))
            } else {
                Ok(())
            },
        }
    }

    /// Handles one message: merges the update into the light and writes the new
    /// frame values into the universe of the light.
    pub fn handle_message(&mut self, message: ControlMessage) -> (r: Result<(), ControlError>)
        ensures
            final(self)@ == old(self)@.handled(message).0,
            r == old(self)@.handled(message).1,
            final(self)@.well_formed(),
    {
        proof {
            use_type_invariant(&*self);
        }
        let ghost before = self@;
        match message {
            ControlMessage::LightState(light_id, update) => {
                let mut lights: Vec<LightObject> = Vec::new();
                core::mem::swap(&mut self.lights, &mut lights);
                let result = match find_light(&lights, &light_id) {
                    None => Err(ControlError::UnknownLight),
                    Some(i) => {
                        match lights[i].update(&update) {
                            Err(_) => {
                                assert(light_models(lights@) =~= before.lights);
                                Err(ControlError::InvalidState)
                            },
                            Ok(()) => {
                                assert(light_models(lights@) =~= before.lights.update(
                                    i as int,
                                    lights@[i as int]@,
                                ));
                                assert(ids_of_lights(lights@) =~= before.light_ids());
                                let mut entries: Vec<UniverseEntry<D>> = Vec::new();
                                core::mem::swap(&mut self.universes, &mut entries);
                                let refused = push_light(&mut entries, &lights[i]);
                                proof {
                                    pushed_onto_keeps_shape(before.universes, lights@[i as int]@);
                                }
                                self.universes = entries;
                                if refused {
                                    Err(ControlError::Universe(DMXControllerError::OutOfRange))
                                } else {
                                    Ok(())
                                }
                            },
                        }
                    },
                };
                self.lights = lights;
                result
            },
        }
    }

    /// Handles the messages in the order in which they stand, and says for each
    /// how it went. A message that fails is dropped; the others are handled all
    /// the same.
    pub fn handle_messages(&mut self, messages: Vec<ControlMessage>) -> (r: Vec<
        Result<(), ControlError>,
    >)
        ensures
            final(self)@ == old(self)@.handled_all(messages@, messages@.len()),
            final(self)@.well_formed(),
            r@.len() == messages@.len(),
            forall|k: int|
                0 <= k < r@.len() ==> #[trigger] r@[k] == old(self)@.outcome_of(messages@, k),
    {
        proof {
            use_type_invariant(&*self);
        }
        let mut outcomes: Vec<Result<(), ControlError>> = Vec::new();
        let mut i: usize = 0;
        while i < messages.len()
            invariant
                i <= messages.len(),
                self@ == old(self)@.handled_all(messages@, i as nat),
                self@.well_formed(),
                outcomes@.len() == i,
                forall|k: int|
                    0 <= k < i ==> #[trigger] outcomes@[k] == old(self)@.outcome_of(messages@, k),
            decreases messages.len() - i,
        {
            let outcome = self.handle_message(messages[i].clone());
            outcomes.push(outcome);
            i += 1;
        }
        outcomes
    }

    /// Writes the frame values of every light into the universes again, so that
    /// the frames show the lights whatever happened to them. Fails, with the
    /// other lights written all the same, where a universe refuses a light.
    pub fn resync(&mut self) -> (r: Result<(), ControlError>)
        ensures
            final(self)@ == old(self)@.synced(),
            final(self)@.well_formed(),
            r == old(self)@.sync_outcome(),
    {
        proof {
            use_type_invariant(&*self);
        }
        let ghost before = self@;
        let mut entries: Vec<UniverseEntry<D>> = Vec::new();
        core::mem::swap(&mut self.universes, &mut entries);
        let refused = sync_entries(&mut entries, &self.lights);
        proof {
            synced_with_keeps_shape(before.universes, before.lights, before.lights.len());
        }
        self.universes = entries;
        if refused {
            Err(ControlError::Universe(DMXControllerError::OutOfRange))
        } else {
            Ok(())
        }
    }

    /// One turn of the loop of the controller. While the controller runs, messages
    /// are handled in their order, a tick brings a resynchronisation, and a
    /// cancellation ends the loop and changes nothing. While it does not run, every
    /// event ends the loop and changes nothing.
    pub fn on_event(&mut self, event: ControllerEvent) -> (r: Reaction)
        ensures
            final(self)@.well_formed(),
            final(self)@ == old(self)@.after_event(event),
            !old(self)@.running ==> r == Reaction::Exit,
            old(self)@.running ==> match event {
                ControllerEvent::Cancelled => r == Reaction::Exit,
                ControllerEvent::Messages(messages) => {
                    &&& r matches Reaction::Handled(outcomes)
                    &&& outcomes@.len() == messages@.len()
                    &&& forall|k: int|
                        0 <= k < outcomes@.len() ==> #[trigger] outcomes@[k]
                            == old(self)@.outcome_of(messages@, k)
                },
                ControllerEvent::Tick => r == Reaction::Resynced(old(self)@.sync_outcome()),
            },
    {
        proof {
            use_type_invariant(&*self);
        }
        if !self.running {
            return Reaction::Exit;
        }
        match event {
            ControllerEvent::Cancelled => Reaction::Exit,
            ControllerEvent::Messages(messages) => {
                Reaction::Handled(self.handle_messages(messages))
            },
            ControllerEvent::Tick => Reaction::Resynced(self.resync()),
        }
    }

    /// Whether every universe of the controller runs. A universe does not run
    /// where it had no device to give when the controller was started, or where it
    /// was added since.
    pub fn every_universe_runs(&self) -> (b: bool)
        ensures
            self@.well_formed(),
            b == self@.every_universe_runs(),
    {
        proof {
            use_type_invariant(self);
        }
        let mut j: usize = 0;
        while j < self.universes.len()
            invariant
                j <= self.universes.len(),
                self@.well_formed(),
                forall|k: int| 0 <= k < j ==> (#[trigger] self@.universes[k]).running,
            decreases self.universes.len() - j,
        {
            if !self.universes[j].controller.is_running() {
                assert(!self@.universes[j as int].running);
                return false;
            }
            j += 1;
        }
        true
    }

    /// Stops the controller: closes the mailbox, darkens every frame and marks
    /// every universe as stopped. A controller that is not running stays as it is.
    ///
    /// A running controller can only be stopped while every one of its universes
    /// runs: a universe that does not run has no transmitter to send its dark
    /// frame, and a program must not go on as if its lights were dark. Ask
    /// `every_universe_runs` first.
    pub fn stop(&mut self) -> (r: Result<(), ControlError>)
        requires
            old(self)@.running ==> old(self)@.every_universe_runs(),
        ensures
            final(self)@.well_formed(),
            !old(self)@.running ==> r == Err::<(), _>(ControlError::NotRunning) && final(self)@
                == old(self)@,
            old(self)@.running ==> r is Ok && final(self)@ == old(self)@.stopped(),
    {
        proof {
            use_type_invariant(&*self);
        }
        if !self.running {
            return Err(ControlError::NotRunning);
        }
        let ghost before = self@;
        let mut entries: Vec<UniverseEntry<D>> = Vec::new();
        core::mem::swap(&mut self.universes, &mut entries);
        let mut j: usize = 0;
        while j < entries.len()
            invariant
                j <= entries.len(),
                entries@.len() == before.universes.len(),
                forall|k: int|
                    0 <= k < j ==> (#[trigger] entries@[k])@ == stopped_universe(
                        before.universes[k],
                    ),
                forall|k: int|
                    j <= k < entries@.len() ==> (#[trigger] entries@[k])@ == before.universes[k],
            decreases entries.len() - j,
        {
            let _ = entries[j].controller.stop();
            j += 1;
        }
        let ghost dark = before.universes.map_values(
            |universe: UniverseModel<D>| stopped_universe(universe),
        );
        assert(universe_models(entries@) =~= dark);
        assert(ids_of(dark) =~= ids_of(before.universes));
        assert forall|k: int| 0 <= k < dark.len() implies (#[trigger] dark[k]).channels.len()
            == DMX_CHANNELS by {}
        self.universes = entries;
        self.running = false;
        Ok(())
    }
}

} // verus!
