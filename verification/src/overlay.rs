//! Decisions of the user interface.
//!
//! The menu is pinned by one key, shown while another one is held, and a third
//! one unloads the library. Settings are kept by the identifier of a player and
//! not by the address of the object, which changes with every garbage
//! collection. World coordinates become screen coordinates by the matrix of the
//! camera; the sliders only stand in where the camera cannot be read.
use std::collections::HashMap;
use std::collections::HashSet;
use vstd::prelude::*;

pub mod classes;
pub mod color;
pub mod config;
pub mod esp;
pub mod keys;
pub mod laws;
pub mod lines;

use crate::game::camera;
use crate::game::camera::CameraView;
use crate::game::player;
use crate::game::player::PlayerFacts;
use crate::game::player::{PlayerView, Tracker, World, WorldFacts};
use crate::game::stats::LiveStats;
use crate::game::trap;
use crate::game::trap::TrapRef;
use crate::hook;
use crate::hook::{Hook, ObjectBuffer};
use crate::mem;
use crate::mem::Fetch;
use crate::mem::Image;
use crate::mem::Memory;
use crate::mem::Need;
use crate::offsets;
use crate::overlay::classes::Tally;
use crate::overlay::config::{Effect, PlayerConfig};
use crate::overlay::esp::EspItem;
use crate::overlay::keys::{Down, Keys};
use crate::single::Single;

verus! {

/// Where the map from the world to the screen comes from: the camera of the
/// game, or zoom and offset that the user sets.
#[derive(Clone, Copy, Debug, PartialEq, Eq, Structural)]
pub struct Viewpoint {
    pub follow_camera: bool,
    pub zoom: Single,
    pub camera_x: Single,
    pub camera_y: Single,
}

/// The camera is followed; the zoom of the sliders is 0.833.
pub open spec fn default_viewpoint() -> Viewpoint {
    Viewpoint {
        follow_camera: true,
        zoom: Single { bits: 0x3F55_3F7D },
        camera_x: Single { bits: 0 },
        camera_y: Single { bits: 0 },
    }
}

impl Viewpoint {
    /// The viewpoint that the interface starts with.
    pub fn new() -> (view: Viewpoint)
        ensures
            view == default_viewpoint(),
    {
        Viewpoint {
            follow_camera: true,
            zoom: Single { bits: 0x3F55_3F7D },
            camera_x: Single { bits: 0 },
            camera_y: Single { bits: 0 },
        }
    }
}

/// The overlay.
pub struct CheatOverlay {
    /// After a panic or before the library is unloaded: nothing is drawn any
    /// more, and the game goes on.
    pub disabled: bool,
    /// Objects that moved in this frame.
    pub objects: Vec<usize>,
    pub traps: Vec<TrapRef>,
    pub classes: Vec<Tally>,
    pub settings: HashMap<i32, PlayerConfig>,
    /// Classes of traps that the user has marked as `BoomTrap`.
    pub boom_classes: HashSet<usize>,
    pub keys: Keys,
    pub view: Viewpoint,
    pub menu_pinned: bool,
    pub menu_open: bool,
    pub show_esp: bool,
    pub show_trap_esp: bool,
    pub show_trap_menu: bool,
    /// A click with the right button moves the character.
    pub teleport: bool,
    /// Raw numbers of the frames are shown in the list of traps.
    pub show_trap_rects: bool,
}

/// The overlay in spec code.
#[verifier::ext_equal]
pub struct OverlayState {
    pub disabled: bool,
    pub objects: Seq<usize>,
    pub traps: Seq<TrapRef>,
    pub classes: Seq<Tally>,
    pub settings: Map<i32, PlayerConfig>,
    pub boom_classes: Set<usize>,
    pub keys: Keys,
    pub view: Viewpoint,
    pub menu_pinned: bool,
    pub menu_open: bool,
    pub show_esp: bool,
    pub show_trap_esp: bool,
    pub show_trap_menu: bool,
    pub teleport: bool,
    pub show_trap_rects: bool,
}

impl View for CheatOverlay {
    type V = OverlayState;

    open spec fn view(&self) -> OverlayState {
        OverlayState {
            disabled: self.disabled,
            objects: self.objects@,
            traps: self.traps@,
            classes: self.classes@,
            settings: self.settings@,
            boom_classes: self.boom_classes@,
            keys: self.keys,
            view: self.view,
            menu_pinned: self.menu_pinned,
            menu_open: self.menu_open,
            show_esp: self.show_esp,
            show_trap_esp: self.show_trap_esp,
            show_trap_menu: self.show_trap_menu,
            teleport: self.teleport,
            show_trap_rects: self.show_trap_rects,
        }
    }
}

/// How a frame begins.
#[derive(Clone, Copy, Debug, PartialEq, Eq, Structural)]
pub enum Start {
    /// The overlay is disabled: draw nothing.
    Silent,
    /// Remove the hook, forget the pointers and unload the library.
    Eject,
    /// Draw the frame.
    Run,
}

/// Which input is kept from the game.
#[derive(Clone, Copy, Debug, PartialEq, Eq, Structural)]
pub enum Filter {
    /// All of it: clicks must not reach both the menu and the game.
    All,
    /// The mouse alone.
    Mouse,
    Nothing,
}

/// What the main window shows below its title.
#[derive(Clone, Copy, Debug, PartialEq, Eq, Structural)]
pub enum Body {
    /// How far the installation of the hook has come.
    HookStatus,
    /// That there are no players.
    NoPlayers,
    /// A row for each player.
    Players,
}

/// The main window.
#[derive(Clone, Copy, Debug, PartialEq, Eq, Structural)]
pub struct MainWindow {
    pub toolbar: bool,
    pub body: Body,
}

/// What the row of a player shows behind name and position.
#[derive(Clone, Copy, Debug, PartialEq, Eq, Structural)]
pub enum Row {
    /// Nothing.
    Brief,
    /// That the player is a remote one.
    Remote,
    /// Our character without the controls.
    Own,
    /// Our character with the controls.
    OwnWithControls,
}

impl OverlayState {
    /// The overlay before the first frame.
    pub open spec fn start() -> OverlayState {
        OverlayState {
            disabled: false,
            objects: seq![],
            traps: seq![],
            classes: seq![],
            settings: Map::empty(),
            boom_classes: Set::empty(),
            keys: Keys { toggle_down: false, eject_down: false },
            view: default_viewpoint(),
            menu_pinned: false,
            menu_open: false,
            show_esp: true,
            show_trap_esp: true,
            show_trap_menu: false,
            teleport: false,
            show_trap_rects: false,
        }
    }

    /// What a frame begins with.
    pub open spec fn starts(self, focused: bool, down: Down) -> Start {
        if self.disabled {
            Start::Silent
        } else if self.keys.pressed(focused, down).eject {
            Start::Eject
        } else {
            Start::Run
        }
    }

    /// The overlay after the keys were looked at.
    pub open spec fn begun(self, focused: bool, down: Down) -> OverlayState {
        let input = self.keys.pressed(focused, down);
        let keys = self.keys.polled(focused, down);
        let pinned = if input.toggle {
            !self.menu_pinned
        } else {
            self.menu_pinned
        };
        if self.disabled {
            self
        } else if input.eject {
            OverlayState { keys, disabled: true, menu_pinned: false, menu_open: false, ..self }
        } else {
            OverlayState { keys, menu_pinned: pinned, menu_open: pinned || input.peek, ..self }
        }
    }

    /// Traps are only read when something shows them.
    pub open spec fn needs_traps(self, screen: usize) -> bool {
        screen != 0 && (self.show_trap_esp || self.show_trap_menu)
    }

    /// The fields of a `BoomTrap` belong to a trap: the user has marked its class,
    /// and the memory is there.
    pub open spec fn has_boom_fields(self, image: Image, item: TrapRef) -> Fetch<bool> {
        if self.boom_classes.contains(item.class) {
            image.access(item.addr as int, offsets::trap::BOOM_PROBE_SIZE as int, false)
        } else {
            Ok(false)
        }
    }

    /// What writing a field of a `BoomTrap` does. Where the field does not belong
    /// to the trap nothing is written.
    pub open spec fn boom_put(
        self,
        before: Memory,
        after: Memory,
        r: Fetch<bool>,
        item: TrapRef,
        offset: int,
        data: Seq<u8>,
    ) -> bool {
        match self.has_boom_fields(before@, item) {
            Err(need) => r == Err::<bool, Need>(need) && after == before,
            Ok(false) => r == Ok::<bool, Need>(false) && mem::concluded(before, after),
            Ok(true) => mem::put(before, after, r, item.addr + offset, data),
        }
    }

    /// The traps of a frame.
    pub open spec fn frame_traps(self, image: Image, screen: usize) -> Fetch<Seq<TrapRef>> {
        if self.needs_traps(screen) {
            trap::traps_of(image, screen as int)
        } else {
            Ok(seq![])
        }
    }

    /// What a frame makes of the objects that moved: what is remembered, the
    /// world, and the overlay with the traps of the frame.
    pub open spec fn observed(self, image: Image, tracker: Tracker) -> Fetch<
        (Tracker, WorldFacts, OverlayState),
    > {
        match player::world_of(image, tracker, self.objects) {
            Err(need) => Err(need),
            Ok((next, world)) => match self.frame_traps(image, world.screen) {
                Err(need) => Err(need),
                Ok(traps) => Ok(
                    (
                        next,
                        world,
                        OverlayState {
                            traps,
                            classes: classes::ranked(
                                classes::tallied(classes::classes_of(traps)),
                            ),
                            ..self
                        },
                    ),
                ),
            },
        }
    }

    /// The settings of a player, blank ones where the player is new.
    pub open spec fn config_of(self, unique_id: i32) -> PlayerConfig {
        if self.settings.dom().contains(unique_id) {
            self.settings[unique_id]
        } else {
            config::blank_config()
        }
    }

    /// What is drawn over the game: traps first, then players.
    pub open spec fn drawn(self, players: Seq<PlayerFacts>) -> Seq<EspItem> {
        (if self.show_trap_esp {
            esp::trap_items(self.traps)
        } else {
            seq![]
        }) + (if self.show_esp {
            esp::player_items(players)
        } else {
            seq![]
        })
    }
}

/// The first of the players that is a local one.
pub open spec fn first_local(players: Seq<PlayerFacts>) -> Option<usize>
    decreases players.len(),
{
    if players.len() == 0 {
        None
    } else {
        match first_local(players.drop_last()) {
            Some(addr) => Some(addr),
            None => if players.last().is_local {
                Some(players.last().addr)
            } else {
                None
            },
        }
    }
}

/// What is found early stays found.
proof fn lemma_first_local_prefix(players: Seq<PlayerFacts>, n: int)
    requires
        0 <= n <= players.len(),
        first_local(players.take(n)) is Some,
    ensures
        first_local(players) == first_local(players.take(n)),
    decreases players.len(),
{
    if n < players.len() {
        assert(players.drop_last().take(n) =~= players.take(n));
        lemma_first_local_prefix(players.drop_last(), n);
    } else {
        assert(players.take(n) =~= players);
    }
}

fn find_own(players: &Vec<PlayerView>) -> (addr: Option<usize>)
    ensures
        addr == first_local(player::facts(players@)),
{
    let ghost all = player::facts(players@);
    for i in 0..players.len()
        invariant
            all == player::facts(players@),
            first_local(all.take(i as int)) is None,
    {
        assert(all.take(i + 1).drop_last() =~= all.take(i as int));
        assert(all.take(i + 1).last() == players@[i as int]@);
        if players[i].is_local {
            proof {
                lemma_first_local_prefix(all, i + 1);
            }
            return Some(players[i].addr);
        }
    }
    assert(all.take(players@.len() as int) =~= all);
    None
}

impl Default for CheatOverlay {
    /// The overlay before the first frame.
    fn default() -> (overlay: CheatOverlay)
        ensures
            overlay@ == OverlayState::start(),
    {
        CheatOverlay::new()
    }
}

impl CheatOverlay {
    /// The overlay before the first frame.
    pub fn new() -> (overlay: CheatOverlay)
        ensures
            overlay@ == OverlayState::start(),
    {
        let overlay = CheatOverlay {
            disabled: false,
            objects: Vec::new(),
            traps: Vec::new(),
            classes: Vec::new(),
            settings: HashMap::new(),
            boom_classes: HashSet::new(),
            keys: Keys::new(),
            view: Viewpoint::new(),
            menu_pinned: false,
            menu_open: false,
            show_esp: true,
            show_trap_esp: true,
            show_trap_menu: false,
            teleport: false,
            show_trap_rects: false,
        };
        assert(overlay@ =~= OverlayState::start());
        overlay
    }

    /// Begins a frame with the state of the keys.
    ///
    /// Unloading happens in another thread while frames still come in, so the
    /// overlay falls silent at once.
    pub fn begin_frame(&mut self, focused: bool, down: Down) -> (start: Start)
        ensures
            start == old(self)@.starts(focused, down),
            final(self)@ == old(self)@.begun(focused, down),
    {
        if self.disabled {
            return Start::Silent;
        }
        let input = self.keys.poll(focused, down);
        if input.toggle {
            self.menu_pinned = !self.menu_pinned;
        }
        if input.eject {
            self.disabled = true;
            self.menu_open = false;
            self.menu_pinned = false;
            return Start::Eject;
        }
        self.menu_open = self.menu_pinned || input.peek;
        Start::Run
    }

    /// Switches the overlay off for good, after a panic.
    pub fn disable(&mut self)
        ensures
            final(self)@ == (OverlayState { disabled: true, ..old(self)@ }),
    {
        self.disabled = true;
    }

    /// Decides which input is kept from the game. While the menu is only shown
    /// for a moment, the keyboard stays with the game.
    pub fn message_filter(&self) -> (filter: Filter)
        ensures
            filter == (if self@.menu_pinned {
                Filter::All
            } else if self@.menu_open {
                Filter::Mouse
            } else {
                Filter::Nothing
            }),
    {
        if self.menu_pinned {
            Filter::All
        } else if self.menu_open {
            Filter::Mouse
        } else {
            Filter::Nothing
        }
    }

    /// Takes the objects of the frame from the hook. The result says whether the
    /// time until the next attempt to install the hook is running.
    pub fn collect_objects(&mut self, state: &Hook, buffer: &mut ObjectBuffer) -> (waiting: bool)
        ensures
            waiting == state@.retries(),
            final(self)@ == (OverlayState {
                objects: if state@.installed {
                    old(buffer)@.objects()
                } else {
                    seq![]
                },
                ..old(self)@
            }),
            final(buffer)@ == (if state@.installed {
                old(buffer)@.emptied()
            } else {
                old(buffer)@
            }),
    {
        hook::take_objects(buffer, hook::is_installed(state), &mut self.objects);
        hook::should_retry(state)
    }

    /// Builds the world of the frame and collects its traps. As long as something
    /// is missing, neither the overlay nor what is remembered changes.
    pub fn observe(&mut self, mem: &mut Memory, tracker: &mut Tracker) -> (r: Fetch<World>)
        ensures
            match old(self)@.observed(old(mem)@, *old(tracker)) {
                Err(need) => r == Err::<World, Need>(need) && *final(self) == *old(self)
                    && *final(tracker) == *old(tracker),
                Ok((next, facts, state)) => (r matches Ok(world) && world@ == facts)
                    && *final(tracker) == next && final(self)@ == state,
            },
            mem::ended(*old(mem), *final(mem), r),
    {
        let mut next = *tracker;
        let world = match player::peek_world(mem, &mut next, self.objects.as_slice()) {
            Err(need) => return Err(need),
            Ok(world) => world,
        };
        let mut traps: Vec<TrapRef> = Vec::new();
        if self.wants_traps(world.screen) {
            if let Err(need) = trap::peek_traps(mem, world.screen, &mut traps) {
                return Err(need);
            }
        }
        self.classes = classes::count_classes(&traps);
        self.traps = traps;
        *tracker = next;
        mem.conclude();
        Ok(world)
    }

    /// Whether the traps of a screen are to be read.
    pub fn wants_traps(&self, screen: usize) -> (r: bool)
        ensures
            r == self@.needs_traps(screen),
    {
        screen != 0 && (self.show_trap_esp || self.show_trap_menu)
    }

    /// Reads the camera, if it is to be followed. It is read anew in every frame,
    /// because the garbage collector moves it like everything else.
    pub fn frame_camera(&self, mem: &mut Memory, screen: usize) -> (r: Fetch<Option<CameraView>>)
        ensures
            r == (if self@.view.follow_camera {
                match camera::camera_of(old(mem)@, screen) {
                    Err(need) => Err(need),
                    Ok(None) => Ok(None),
                    Ok(Some(addr)) => camera::camera_at(old(mem)@, addr),
                }
            } else {
                Ok(None)
            }),
            mem::ended(*old(mem), *final(mem), r),
    {
        if self.view.follow_camera {
            camera::read_camera(mem, screen)
        } else {
            mem.conclude();
            Ok(None)
        }
    }

    /// The frames that are drawn over the game.
    pub fn esp_items(&self, world: &World) -> (items: Vec<EspItem>)
        ensures
            items@ == self@.drawn(world@.players),
    {
        let mut items: Vec<EspItem> = Vec::new();
        if self.show_trap_esp {
            esp::add_traps(&mut items, &self.traps);
        }
        if self.show_esp {
            esp::add_players(&mut items, &world.players);
        }
        assert(items@ =~= self@.drawn(world@.players));
        items
    }

    /// Decides what the main window shows.
    pub fn main_window(&self, installed: bool, world: &World) -> (window: MainWindow)
        ensures
            window == (if !installed {
                MainWindow { toolbar: false, body: Body::HookStatus }
            } else if world@.players.len() == 0 {
                MainWindow { toolbar: self@.menu_open, body: Body::NoPlayers }
            } else {
                MainWindow { toolbar: self@.menu_open, body: Body::Players }
            }),
    {
        if !installed {
            return MainWindow { toolbar: false, body: Body::HookStatus };
        }
        let body = if world.players.len() == 0 {
            Body::NoPlayers
        } else {
            Body::Players
        };
        MainWindow { toolbar: self.menu_open, body }
    }

    /// Whether the trap window is shown.
    pub fn shows_trap_window(&self) -> (r: bool)
        ensures
            r == (self@.show_trap_menu && self@.menu_open),
    {
        self.show_trap_menu && self.menu_open
    }

    /// The player that a click moves, if it moves one: the switch is on, the menu
    /// is open, and the click went past the windows of the interface.
    pub fn teleport_target(&self, world: &World, mouse_is_captured: bool, clicked: bool) -> (addr:
        Option<usize>)
        ensures
            addr == (if self@.menu_open && self@.teleport && !mouse_is_captured && clicked {
                first_local(world@.players)
            } else {
                None
            }),
    {
        if !self.menu_open || !self.teleport || mouse_is_captured || !clicked {
            return None;
        }
        find_own(&world.players)
    }

    /// Decides what the row of a player shows.
    pub fn player_row(&self, is_local: bool) -> (row: Row)
        ensures
            row == (match (is_local, self@.menu_open) {
                (false, false) => Row::Brief,
                (false, true) => Row::Remote,
                (true, false) => Row::Own,
                (true, true) => Row::OwnWithControls,
            }),
    {
        if !is_local {
            if self.menu_open {
                Row::Remote
            } else {
                Row::Brief
            }
        } else if self.menu_open {
            Row::OwnWithControls
        } else {
            Row::Own
        }
    }

    /// The settings of a player, filled in from memory when the player is new.
    pub fn config_for(&mut self, unique_id: i32, live: LiveStats) -> (config: PlayerConfig)
        ensures
            config == old(self)@.config_of(unique_id).seeded_with(live),
            final(self)@ == (OverlayState {
                settings: old(self)@.settings.insert(unique_id, config),
                ..old(self)@
            }),
    {
        broadcast use vstd::std_specs::hash::group_hash_axioms;

        let mut config = match self.settings.get(&unique_id) {
            Some(config) => *config,
            None => PlayerConfig::new(),
        };
        config.seed(live);
        self.settings.insert(unique_id, config);
        config
    }

    /// Keeps the settings of a player as the user left them.
    pub fn store_config(&mut self, unique_id: i32, config: PlayerConfig)
        ensures
            final(self)@ == (OverlayState {
                settings: old(self)@.settings.insert(unique_id, config),
                ..old(self)@
            }),
    {
        broadcast use vstd::std_specs::hash::group_hash_axioms;

        self.settings.insert(unique_id, config);
    }

    /// Whether a class is marked as `BoomTrap`.
    pub fn class_is_marked(&self, class: usize) -> (r: bool)
        ensures
            r == self@.boom_classes.contains(class),
    {
        broadcast use vstd::std_specs::hash::group_hash_axioms;

        self.boom_classes.contains(&class)
    }

    /// Marks a class as `BoomTrap`, or takes the mark away.
    pub fn mark_class(&mut self, class: usize, marked: bool)
        ensures
            final(self)@ == (OverlayState {
                boom_classes: if marked {
                    old(self)@.boom_classes.insert(class)
                } else {
                    old(self)@.boom_classes.remove(class)
                },
                ..old(self)@
            }),
    {
        broadcast use vstd::std_specs::hash::group_hash_axioms;

        if marked {
            self.boom_classes.insert(class);
        } else {
            self.boom_classes.remove(&class);
        }
    }

    /// Whether the fields of a `BoomTrap` are shown for a trap: the user has
    /// marked its class, and the memory is there.
    pub fn shows_boom_fields(&self, mem: &mut Memory, item: &TrapRef) -> (r: Fetch<bool>)
        ensures
            r == self@.has_boom_fields(old(mem)@, *item),
            mem::ended(*old(mem), *final(mem), r),
    {
        let r = self.peek_boom_fields(mem, item);
        mem.end(&r);
        r
    }

    fn peek_boom_fields(&self, mem: &Memory, item: &TrapRef) -> (r: Fetch<bool>)
        ensures
            r == self@.has_boom_fields(mem@, *item),
    {
        if !self.class_is_marked(item.class) {
            return Ok(false);
        }
        mem::check(mem, item.addr, offsets::trap::BOOM_PROBE_SIZE, false)
    }

    /// Sets the speed of a `BoomTrap`. The field of a trap of any other class is
    /// not touched: something else lives there.
    pub fn set_boom_speed(&self, mem: &mut Memory, item: &TrapRef, value: Single) -> (r: Fetch<
        bool,
    >)
        ensures
            self@.boom_put(
                *old(mem),
                *final(mem),
                r,
                *item,
                offsets::trap::BOOM_SPEED as int,
                mem::le_bytes(value.bits),
            ),
            self@.boom_put(*old(mem), *final(mem), r, *item, 0xA4, mem::le_bytes(value.bits)),
    {
        match self.peek_boom_fields(mem, item) {
            Err(need) => Err(need),
            Ok(false) => {
                mem.conclude();
                Ok(false)
            },
            Ok(true) => trap::set_trap_speed(mem, item.addr, value),
        }
    }

    /// Sets the flag that only a `BoomTrap` has. The field of a trap of any other
    /// class is not touched: something else lives there.
    pub fn set_boom_flag(&self, mem: &mut Memory, item: &TrapRef, value: bool) -> (r: Fetch<bool>)
        ensures
            self@.boom_put(
                *old(mem),
                *final(mem),
                r,
                *item,
                offsets::trap::BOOM_CAN_TRIGGER as int,
                seq![trap::flag_byte(value)],
            ),
            value ==> self@.boom_put(*old(mem), *final(mem), r, *item, 0xAC, seq![1u8]),
            !value ==> self@.boom_put(*old(mem), *final(mem), r, *item, 0xAC, seq![0u8]),
    {
        match self.peek_boom_fields(mem, item) {
            Err(need) => Err(need),
            Ok(false) => {
                mem.conclude();
                Ok(false)
            },
            Ok(true) => trap::set_trap_flag(mem, item.addr, offsets::trap::BOOM_CAN_TRIGGER, value),
        }
    }

    /// The effects that the row of a player applies in every frame, whether the
    /// menu is open or not. A remote player is never changed.
    pub fn row_effects(&self, is_local: bool, config: &PlayerConfig) -> (all: Vec<Effect>)
        ensures
            all@ == (if is_local {
                config::effects_of(*config)
            } else {
                seq![]
            }),
    {
        if is_local {
            config::effects(config)
        } else {
            Vec::new()
        }
    }

    /// How many traps have a frame.
    pub fn framed_traps(&self) -> (count: usize)
        ensures
            count == self@.traps.filter(|t: TrapRef| t.rect is Some).len(),
    {
        let ghost keep = |t: TrapRef| t.rect is Some;
        let mut count: usize = 0;
        proof {
            reveal(Seq::filter);
            assert(self.traps@.take(0).filter(keep) =~= seq![]);
        }
        for i in 0..self.traps.len()
            invariant
                keep == (|t: TrapRef| t.rect is Some),
                count <= i,
                count == self.traps@.take(i as int).filter(keep).len(),
        {
            proof {
                reveal(Seq::filter);
                assert(self.traps@.take(i + 1).drop_last() =~= self.traps@.take(i as int));
            }
            if self.traps[i].rect.is_some() {
                count = count + 1;
            }
        }
        assert(self.traps@.take(self.traps@.len() as int) =~= self.traps@);
        count
    }
}

} // verus!
