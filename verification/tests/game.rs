use btama::game::{
    build_world, camera, collect_traps, forget_cached_pointers, is_online, player_class,
    read_camera, read_live_stats, respawn, set_god_mode, set_gravity, set_infinite_jump,
    set_jump_height, set_position, set_speed, set_trap_flag, set_trap_speed,
    supports_boom_fields, transform_source, trap_flag, trap_name, trap_speed, unpack_color,
    world_rect, LiveStats, Point, Rect, RectF, Scalar, Source, Tracker, World, MAX_DIMENSION, MAX_TRAP_DIMENSION,
};
use btama::mem::{Fetch, Memory, Need};
use btama::offsets;
use btama::single::Single;
use btama::win32::{RegionInfo, MEM_COMMIT, PAGE_READONLY, PAGE_READWRITE};

fn channels(packed: u32) -> [f32; 4] {
    unpack_color(packed).map(|channel| channel as f32 / 255.0)
}

fn single(value: f32) -> Single {
    Single { bits: value.to_bits() }
}

fn point(x: f32, y: f32) -> Point {
    (single(x), single(y))
}

fn number(value: Scalar) -> f32 {
    match value {
        Scalar::Whole(value) => value as f32,
        Scalar::Exact(value) => f32::from_bits(value.bits),
    }
}

fn numbers(rect: RectF) -> (f32, f32, f32, f32) {
    (number(rect.x), number(rect.y), number(rect.w), number(rect.h))
}

#[test]
fn unpacks_xna_color_as_rgba() {
    // 0xAABBGGRR: A=0x80, B=0x40, G=0x20, R=0x10
    let [r, g, b, a] = channels(0x8040_2010);
    assert_eq!(r, 0x10 as f32 / 255.0);
    assert_eq!(g, 0x20 as f32 / 255.0);
    assert_eq!(b, 0x40 as f32 / 255.0);
    assert_eq!(a, 0x80 as f32 / 255.0);
}

#[test]
fn opaque_white_round_trips() {
    assert_eq!(channels(0xFFFF_FFFF), [1.0, 1.0, 1.0, 1.0]);
    assert_eq!(channels(0x0000_0000), [0.0, 0.0, 0.0, 0.0]);
}

#[test]
fn rect_at_origin_is_plausible() {
    let rect = Rect {
        x: 0,
        y: 0,
        w: 32,
        h: 32,
    };
    assert!(rect.is_plausible());
}

#[test]
fn trap_limit_admits_rects_the_player_limit_rejects() {
    let rect = Rect {
        x: 0,
        y: 0,
        w: 4096,
        h: 64,
    };
    assert!(!rect.is_plausible());
    assert!(rect.is_plausible_within(MAX_TRAP_DIMENSION));
}

#[test]
fn world_bounding_wins_over_the_texture_frame() {
    let bounding = Rect {
        x: 144,
        y: 576,
        w: 48,
        h: 48,
    };
    let source = Rect {
        x: 192,
        y: 0,
        w: 48,
        h: 48,
    };
    let rect = world_rect(Some(bounding), Some(source), Some(point(144.0, 576.0)), None);
    assert_eq!(rect.map(numbers), Some((144.0, 576.0, 48.0, 48.0)));
}

#[test]
fn empty_bounding_falls_back_to_position_and_frame_size() {
    let empty = Rect {
        x: 0,
        y: 0,
        w: 0,
        h: 0,
    };
    let source = Rect {
        x: 48,
        y: 0,
        w: 48,
        h: 96,
    };
    let rect = world_rect(Some(empty), Some(source), Some(point(816.0, 480.0)), None);
    assert_eq!(rect.map(numbers), Some((816.0, 480.0, 48.0, 96.0)));
}

#[test]
fn zero_position_defers_to_the_second_one() {
    let source = Rect {
        x: 0,
        y: 0,
        w: 48,
        h: 48,
    };
    let rect = world_rect(
        None,
        Some(source),
        Some(point(0.0, 0.0)),
        Some(point(240.0, 96.0)),
    );
    assert_eq!(
        rect.map(|rect| (number(rect.x), number(rect.y))),
        Some((240.0, 96.0))
    );
    let rect = world_rect(None, Some(source), Some(point(-0.0, 0.0)), None);
    assert_eq!(rect, None);
    let rect = world_rect(None, Some(source), Some(point(0.0, 1.0)), Some(point(5.0, 5.0)));
    assert_eq!(rect.map(numbers), Some((0.0, 1.0, 48.0, 48.0)));
}

#[test]
fn without_any_position_there_is_no_frame() {
    let source = Rect {
        x: 96,
        y: 0,
        w: 48,
        h: 48,
    };
    assert_eq!(world_rect(None, Some(source), None, None), None);
}

#[test]
fn degenerate_and_oversized_rects_are_rejected() {
    assert!(
        !Rect {
            x: 5,
            y: 5,
            w: 0,
            h: 32
        }
        .is_plausible()
    );
    assert!(
        !Rect {
            x: 5,
            y: 5,
            w: 32,
            h: 0
        }
        .is_plausible()
    );
    assert!(
        !Rect {
            x: 5,
            y: 5,
            w: -32,
            h: 32
        }
        .is_plausible()
    );
    assert!(
        !Rect {
            x: 5,
            y: 5,
            w: MAX_DIMENSION + 1,
            h: 32
        }
        .is_plausible()
    );
}

#[test]
fn infinities_and_nans_are_recognised() {
    for value in [0.0, -0.0, 1.0, f32::MAX, f32::MIN_POSITIVE, 1e-45] {
        assert!(single(value).is_finite());
        assert_eq!(single(value).is_zero(), value == 0.0);
    }
    for value in [f32::INFINITY, f32::NEG_INFINITY, f32::NAN, -f32::NAN] {
        assert!(!single(value).is_finite());
        assert!(!single(value).is_zero());
    }
}

const BASE: usize = 0x10_0000;

/// A heap of the game.
struct Game {
    bytes: Vec<u8>,
    protect: u32,
}

impl Game {
    fn new() -> Game {
        Game { bytes: vec![0; 0x8000], protect: PAGE_READWRITE }
    }

    fn put(&mut self, addr: usize, data: &[u8]) {
        self.bytes[addr - BASE..addr - BASE + data.len()].copy_from_slice(data);
    }

    fn put_u32(&mut self, addr: usize, value: u32) {
        self.put(addr, &value.to_le_bytes());
    }

    fn put_f32(&mut self, addr: usize, value: f32) {
        self.put(addr, &value.to_le_bytes());
    }

    fn put_rect(&mut self, addr: usize, rect: [i32; 4]) {
        for (index, value) in rect.iter().enumerate() {
            self.put(addr + 4 * index, &value.to_le_bytes());
        }
    }

    fn put_text(&mut self, addr: usize, text: &str) {
        let units: Vec<u16> = text.encode_utf16().collect();
        self.put_u32(addr + 4, units.len() as u32);
        for (index, unit) in units.iter().enumerate() {
            self.put(addr + 8 + 2 * index, &unit.to_le_bytes());
        }
    }

    fn put_list(&mut self, addr: usize, items: usize, elements: &[usize]) {
        self.put_u32(addr + offsets::list::ITEMS, items as u32);
        self.put_u32(addr + offsets::list::SIZE, elements.len() as u32);
        for (index, element) in elements.iter().enumerate() {
            self.put_u32(items + offsets::list::ARRAY_DATA + 4 * index, *element as u32);
        }
    }

    fn supply(&self, mem: &mut Memory, need: Need) {
        match need {
            Need::Region(addr) => {
                let inside = addr >= BASE && addr - BASE < self.bytes.len();
                mem.supply_region(
                    addr,
                    inside.then_some(RegionInfo {
                        base: BASE,
                        size: self.bytes.len(),
                        state: MEM_COMMIT,
                        protect: self.protect,
                        kind: 0,
                    }),
                );
            }
            Need::Bytes(addr, len) => {
                let from = addr - BASE;
                mem.supply_bytes(addr, self.bytes[from..from + len].to_vec());
            }
        }
    }

    fn ask<T>(&self, mem: &mut Memory, mut f: impl FnMut(&mut Memory) -> Fetch<T>) -> T {
        loop {
            match f(mem) {
                Ok(value) => return value,
                Err(need) => self.supply(mem, need),
            }
        }
    }

    /// A fresh look at the heap.
    fn once<T>(&self, f: impl FnMut(&mut Memory) -> Fetch<T>) -> T {
        self.ask(&mut Memory::new(), f)
    }

    fn put_player(&mut self, addr: usize, class: usize, screen: usize, id: i32, remote: bool) {
        self.put_u32(addr, class as u32);
        self.put(addr + offsets::player::UNIQUE_ID, &id.to_le_bytes());
        self.put_f32(addr + offsets::player::POSITION, id as f32 + 0.5);
        self.put_f32(addr + offsets::player::POSITION + 4, -2.0);
        self.put_u32(addr + offsets::player::COLOR, 0x8040_2010);
        self.put_rect(addr + offsets::player::BOUNDING_RECT, [1, 2, 30, 40]);
        self.put(addr + offsets::player::REMOTE_PLAYER, &[remote as u8]);
        self.put_u32(addr + offsets::player::GAMEPLAY_SCREEN, screen as u32);
    }
}

const CLASS: usize = 0x20_0000;
const SCREEN: usize = BASE + 0x1000;
const FIRST: usize = BASE + 0x2000;
const SECOND: usize = BASE + 0x2400;
const THIRD: usize = BASE + 0x2800;

/// Three players: a remote one, our own, and a remote one that only the merged
/// list names.
fn session() -> Game {
    let mut game = Game::new();
    game.put_player(FIRST, CLASS, SCREEN, 10, true);
    game.put_player(SECOND, CLASS, SCREEN, 11, false);
    game.put_player(THIRD, CLASS, SCREEN, 12, true);
    game.put_u32(SECOND + offsets::player::NAME, (BASE + 0x3000) as u32);
    game.put_text(BASE + 0x3000, "Игрок");
    game.put_u32(SCREEN + offsets::screen::PLAYER_LIST, (BASE + 0x3100) as u32);
    game.put_list(BASE + 0x3100, BASE + 0x3200, &[SECOND]);
    game.put_u32(SCREEN + offsets::screen::MERGED_PLAYER_LIST, (BASE + 0x3300) as u32);
    game.put_list(BASE + 0x3300, BASE + 0x3400, &[THIRD, SECOND, FIRST, 0, 0x99]);
    game
}

#[test]
fn the_world_is_built_from_the_objects_of_a_frame() {
    let game = session();
    let mut tracker = Tracker::new();
    assert_eq!(player_class(&tracker), None);
    let world = game.once(|mem| build_world(mem, &mut tracker, &[0x50, BASE + 0x7000, SECOND]));
    assert_eq!(player_class(&tracker), Some(CLASS));
    assert_eq!(tracker.last_local, SECOND);
    assert_eq!(world.screen, SCREEN);
    let ids: Vec<i32> = world.players.iter().map(|player| player.unique_id).collect();
    assert_eq!(ids, vec![11, 10, 12]);
    let own = &world.players[0];
    assert_eq!(own.addr, SECOND);
    assert_eq!(own.name, "Игрок");
    assert_eq!(own.color, [0x10, 0x20, 0x40, 0x80]);
    assert_eq!(own.position, point(11.5, -2.0));
    assert_eq!(own.rect, Some(Rect { x: 1, y: 2, w: 30, h: 40 }));
    assert!(own.is_local);
    assert_eq!(world.players[1].name, "");
    assert!(!world.players[1].is_local);
}

#[test]
fn a_player_that_stands_still_is_found_by_the_hint() {
    let mut game = session();
    let mut tracker = Tracker::new();
    game.once(|mem| build_world(mem, &mut tracker, &[SECOND]));
    let world = game.once(|mem| build_world(mem, &mut tracker, &[]));
    assert_eq!(world.players.len(), 3);

    forget_cached_pointers(&mut tracker);
    assert_eq!(player_class(&tracker), Some(CLASS));
    let world = game.once(|mem| build_world(mem, &mut tracker, &[]));
    assert_eq!((world.screen, world.players.len()), (0, 0));
    assert_eq!(tracker.last_local, 0);

    let world = game.once(|mem| build_world(mem, &mut tracker, &[FIRST, SECOND]));
    assert_eq!(world.players.len(), 3);
    game.put_u32(SECOND, 0x30_0000);
    let world = game.once(|mem| build_world(mem, &mut tracker, &[FIRST]));
    assert_eq!(world.players.len(), 0);
    assert_eq!(player_class(&tracker), Some(CLASS));
}

#[test]
fn as_long_as_something_is_missing_nothing_is_remembered() {
    let game = session();
    let mut mem = Memory::new();
    let mut tracker = Tracker::new();
    let mut needs = Vec::new();
    let world = loop {
        match build_world(&mut mem, &mut tracker, &[SECOND]) {
            Ok(world) => break world,
            Err(need) => {
                assert_eq!(tracker, Tracker::new());
                assert!(!needs.contains(&need));
                needs.push(need);
                game.supply(&mut mem, need);
            }
        }
    };
    assert_eq!(world.players.len(), 3);
    assert_eq!(tracker.last_local, SECOND);
}

#[test]
fn a_class_is_only_learnt_from_an_object_that_proves_itself() {
    let learnt = |game: &Game, addr: usize| {
        let mut tracker = Tracker::new();
        game.once(|mem| build_world(mem, &mut tracker, &[addr]));
        player_class(&tracker)
    };
    assert_eq!(learnt(&session(), FIRST), Some(CLASS));

    let mut game = session();
    game.put(FIRST + offsets::player::IS_LOCAL, &[2]);
    assert_eq!(learnt(&game, FIRST), None);

    let mut game = session();
    game.put_rect(FIRST + offsets::player::BOUNDING_RECT, [0, 0, 0, 10]);
    assert_eq!(learnt(&game, FIRST), None);

    let mut game = session();
    game.put_u32(FIRST + offsets::player::GAMEPLAY_SCREEN, 0x50_0000);
    assert_eq!(learnt(&game, FIRST), None);

    let mut game = session();
    game.put_list(BASE + 0x3300, BASE + 0x3400, &[THIRD, SECOND]);
    assert_eq!(learnt(&game, FIRST), None);

    let mut game = session();
    game.put_u32(FIRST, 0x1234);
    assert_eq!(learnt(&game, FIRST), None);
}

#[test]
fn our_character_is_known_by_either_flag() {
    let mut game = session();
    game.put(SECOND + offsets::player::REMOTE_PLAYER, &[1]);
    let mut tracker = Tracker::new();
    let world = game.once(|mem| build_world(mem, &mut tracker, &[SECOND]));
    assert_eq!(world.players.len(), 0);
    game.put(SECOND + offsets::player::IS_LOCAL, &[1]);
    let world = game.once(|mem| build_world(mem, &mut tracker, &[SECOND]));
    assert_eq!(world.players.len(), 3);
    assert!(world.players[0].is_local);
}

#[test]
fn without_lists_the_objects_of_the_frame_count() {
    let mut game = session();
    let mut tracker = Tracker::new();
    game.once(|mem| build_world(mem, &mut tracker, &[SECOND]));
    game.put_u32(SCREEN + offsets::screen::PLAYER_LIST, 0);
    game.put_u32(SCREEN + offsets::screen::MERGED_PLAYER_LIST, 0);
    let objects = [THIRD, SECOND, BASE + 0x7000, THIRD, FIRST, SECOND];
    let world = game.once(|mem| build_world(mem, &mut tracker, &objects));
    let found: Vec<usize> = world.players.iter().map(|player| player.addr).collect();
    assert_eq!(found, vec![SECOND, FIRST, THIRD]);
    assert_eq!(world.screen, SCREEN);
}

#[test]
fn the_mode_of_the_session_is_read() {
    let mut game = session();
    assert_eq!(game.once(|mem| is_online(mem, 0)), None);
    assert_eq!(game.once(|mem| is_online(mem, SCREEN)), Some(false));
    game.put(SCREEN + offsets::screen::IS_ONLINE, &[7]);
    assert_eq!(game.once(|mem| is_online(mem, SCREEN)), Some(true));
    assert_eq!(game.once(|mem| is_online(mem, 0x50_0000)), None);
}

#[test]
fn the_camera_is_read() {
    let mut game = session();
    let at = BASE + 0x5000;
    assert_eq!(game.once(|mem| camera(mem, 0)), None);
    assert_eq!(game.once(|mem| camera(mem, SCREEN)), None);
    game.put_u32(SCREEN + offsets::screen::CAMERA, at as u32);
    game.put_f32(at + offsets::camera::ZOOM, 0.8333);
    game.put_f32(at + offsets::camera::CAMERA_POSITION, 400.0);
    game.put_f32(at + offsets::camera::CAMERA_POSITION + 4, 300.0);
    game.put_u32(at + offsets::camera::VIEWPORT_WIDTH, 1280);
    game.put_u32(at + offsets::camera::VIEWPORT_HEIGHT, 720);
    for index in 0..16 {
        game.put_f32(at + offsets::camera::TRANSFORM + 4 * index, index as f32);
    }
    assert_eq!(game.once(|mem| camera(mem, SCREEN)), Some(at));
    let view = game.once(|mem| read_camera(mem, SCREEN)).unwrap();
    assert_eq!(view.addr, at);
    assert_eq!(view.zoom, single(0.8333));
    assert_eq!(view.position, point(400.0, 300.0));
    assert_eq!(view.viewport, (1280, 720));
    let matrix = view.matrix.unwrap();
    assert!(matrix.is_finite());
    let entries = [matrix.m11, matrix.m12, matrix.m21, matrix.m22, matrix.m41, matrix.m42];
    assert_eq!(
        entries.map(|entry| f32::from_bits(entry.bits)),
        [0.0, 1.0, 4.0, 5.0, 12.0, 13.0]
    );
    game.put_f32(at + offsets::camera::TRANSFORM + 4 * 13, f32::NAN);
    let view = game.once(|mem| read_camera(mem, SCREEN)).unwrap();
    assert!(!view.matrix.unwrap().is_finite());
    game.put_u32(SCREEN + offsets::screen::CAMERA, (BASE + 0x7F00) as u32);
    assert_eq!(game.once(|mem| read_camera(mem, SCREEN)), None);
}

#[test]
fn the_matrix_is_preferred_to_the_fields() {
    assert_eq!(transform_source(true, true), Some(Source::Matrix));
    assert_eq!(transform_source(true, false), Some(Source::Matrix));
    assert_eq!(transform_source(false, true), Some(Source::Fields));
    assert_eq!(transform_source(false, false), None);
}

#[test]
fn parameters_are_written_and_read_back() {
    let game = session();
    let mut mem = Memory::new();
    let old = game.ask(&mut mem, |mem| read_live_stats(mem, SECOND));
    assert_eq!(old.speed, Some(single(0.0)));
    assert!(game.ask(&mut mem, |mem| set_speed(mem, SECOND, single(7.5))));
    assert!(game.ask(&mut mem, |mem| set_jump_height(mem, SECOND, single(12.0))));
    assert!(game.ask(&mut mem, |mem| set_gravity(mem, SECOND, single(0.25))));
    let new = game.ask(&mut mem, |mem| read_live_stats(mem, SECOND));
    assert_eq!(new.speed, Some(single(7.5)));
    assert_eq!(new.jump_height, Some(single(12.0)));
    assert_eq!(new.gravity, Some(single(0.25)));
    let stores: Vec<(usize, Vec<u8>)> =
        mem.take_stores().into_iter().map(|store| (store.addr, store.bytes)).collect();
    let quarter = 0.25f32.to_le_bytes().to_vec();
    assert_eq!(
        stores,
        vec![
            (SECOND + 0xE0, 7.5f32.to_le_bytes().to_vec()),
            (SECOND + 0xEC, 12.0f32.to_le_bytes().to_vec()),
            (SECOND + 0x110, quarter.clone()),
            (SECOND + 0x10C, quarter),
        ]
    );
}

#[test]
fn what_is_set_before_it_was_ever_read_is_read_back() {
    let game = session();
    let mut mem = Memory::new();
    assert!(game.ask(&mut mem, |mem| set_speed(mem, SECOND, single(7.5))));
    assert!(game.ask(&mut mem, |mem| set_gravity(mem, SECOND, single(0.25))));
    let new = game.ask(&mut mem, |mem| read_live_stats(mem, SECOND));
    assert_eq!(new.speed, Some(single(7.5)));
    assert_eq!(new.jump_height, Some(single(0.0)));
    assert_eq!(new.gravity, Some(single(0.25)));

    let at = BASE + 0x4000;
    for value in [true, false, true] {
        let mut mem = Memory::new();
        assert!(game.ask(&mut mem, |mem| set_trap_flag(mem, at, offsets::trap::USED, value)));
        assert_eq!(
            game.ask(&mut mem, |mem| trap_flag(mem, at, offsets::trap::USED)),
            Some(value)
        );
        assert!(game.ask(&mut mem, |mem| set_trap_speed(mem, at, single(3.5))));
        assert_eq!(game.ask(&mut mem, |mem| trap_speed(mem, at)), Some(single(3.5)));
    }
}

#[test]
fn cheats_write_the_fields_of_the_game() {
    let game = session();
    let mut mem = Memory::new();
    assert!(game.ask(&mut mem, |mem| set_god_mode(mem, SECOND)));
    assert!(game.ask(&mut mem, |mem| set_infinite_jump(mem, SECOND)));
    assert!(game.ask(&mut mem, |mem| respawn(mem, SECOND)));
    assert!(game.ask(&mut mem, |mem| set_position(mem, SECOND, single(1.0), single(2.0))));
    let stores: Vec<(usize, Vec<u8>)> =
        mem.take_stores().into_iter().map(|store| (store.addr, store.bytes)).collect();
    assert_eq!(
        stores,
        vec![
            (SECOND + 0x150, vec![0]),
            (SECOND + 0x144, vec![1]),
            (SECOND + 0x143, vec![1]),
            (SECOND + 0x142, vec![0]),
            (SECOND + 0x0C, vec![0, 0, 0x80, 0x3F, 0, 0, 0, 0x40]),
        ]
    );
}

#[test]
fn objects_that_are_gone_are_not_written() {
    let mut game = session();
    game.protect = PAGE_READONLY;
    let mut mem = Memory::new();
    assert!(!game.ask(&mut mem, |mem| set_god_mode(mem, SECOND)));
    assert!(!game.ask(&mut mem, |mem| set_infinite_jump(mem, SECOND)));
    assert!(!game.ask(&mut mem, |mem| set_gravity(mem, 0x50_0000, single(1.0))));
    assert!(!game.ask(&mut mem, |mem| set_speed(mem, usize::MAX, single(1.0))));
    assert!(mem.take_stores().is_empty());
}

#[test]
fn the_second_of_two_fields_follows_the_first() {
    let game = session();
    let mut mem = Memory::new();
    // The first field is the last byte of the heap, the second lies before it.
    let end = BASE + game.bytes.len();
    assert!(game.ask(&mut mem, |mem| set_infinite_jump(mem, end - 0x145)));
    assert_eq!(mem.take_stores().len(), 2);
    assert!(!game.ask(&mut mem, |mem| set_infinite_jump(mem, end - 0x144)));
    assert!(mem.take_stores().is_empty());
    // The first field begins the heap, the second would lie before it.
    assert!(!game.ask(&mut mem, |mem| set_gravity(mem, BASE - 0x110, single(1.0))));
    assert_eq!(mem.take_stores().len(), 1);
}

#[test]
fn traps_are_collected() {
    let mut game = session();
    let at = BASE + 0x4000;
    let broken = BASE + 0x7FF0;
    game.put_u32(SCREEN + offsets::screen::TRAP_LIST, (BASE + 0x3500) as u32);
    game.put_list(BASE + 0x3500, BASE + 0x3600, &[at, broken, 7, at + 0x200]);
    game.put_u32(at, 0x30_0000);
    game.put_rect(at + offsets::trap::BOUNDING, [144, 576, 48, 48]);
    game.put_rect(at + offsets::trap::SOURCE_RECT, [192, 0, 48, 48]);
    game.put_f32(at + offsets::trap::POSITION_X, 144.0);
    game.put_f32(at + offsets::trap::POSITION_X + 4, f32::NAN);
    game.put_f32(at + offsets::trap::POSITION, 1.0);
    game.put_u32(at + 0x200, 0x30_0004);

    let mut traps = Vec::new();
    game.once(|mem| collect_traps(mem, SCREEN, &mut traps));
    assert_eq!(traps.len(), 2);
    assert_eq!(traps[0].addr, at);
    assert_eq!(traps[0].class, 0x30_0000);
    assert_eq!(traps[0].bounding_raw, Some(Rect { x: 144, y: 576, w: 48, h: 48 }));
    assert_eq!(traps[0].source_raw, Some(Rect { x: 192, y: 0, w: 48, h: 48 }));
    assert_eq!(traps[0].position, None);
    assert_eq!(traps[0].position_alt, Some(point(1.0, 0.0)));
    assert_eq!(traps[0].rect.map(numbers), Some((144.0, 576.0, 48.0, 48.0)));
    assert_eq!(traps[1].class, 0x30_0004);
    assert_eq!(traps[1].rect, None);

    game.once(|mem| collect_traps(mem, 0x50_0000, &mut traps));
    assert!(traps.is_empty());
}

#[test]
fn a_call_may_see_more_regions_than_the_map_holds() {
    let mut game = Game::new();
    game.bytes = vec![0; 0x20_0000];
    let traps: Vec<usize> = (0..200).map(|index| BASE + 0x1_0000 + index * 0x1000).collect();
    game.put_u32(SCREEN + offsets::screen::TRAP_LIST, (BASE + 0x3500) as u32);
    game.put_list(BASE + 0x3500, BASE + 0x3600, &traps);
    for (index, at) in traps.iter().enumerate() {
        game.put_u32(*at, 0x30_0000 + index as u32);
    }

    let mut mem = Memory::new();
    let mut found = Vec::new();
    let mut needs = Vec::new();
    // Every page is a region of its own.
    while let Err(need) = collect_traps(&mut mem, SCREEN, &mut found) {
        assert!(!needs.contains(&need));
        needs.push(need);
        match need {
            Need::Region(addr) => mem.supply_region(
                addr,
                Some(RegionInfo {
                    base: addr & !0xFFF,
                    size: 0x1000,
                    state: MEM_COMMIT,
                    protect: PAGE_READWRITE,
                    kind: 0,
                }),
            ),
            Need::Bytes(addr, len) => {
                mem.supply_bytes(addr, game.bytes[addr - BASE..addr - BASE + len].to_vec());
            }
        }
    }
    assert_eq!(found.len(), traps.len());
    for (index, item) in found.iter().enumerate() {
        assert_eq!((item.addr, item.class), (traps[index], 0x30_0000 + index));
    }
}

#[test]
fn worlds_and_players_can_be_copied_and_made_anew() {
    let game = session();
    let mut tracker = Tracker::new();
    let world = game.once(|mem| build_world(mem, &mut tracker, &[SECOND]));
    for player in &world.players {
        let copy = player.clone();
        assert_eq!(format!("{copy:?}"), format!("{player:?}"));
    }
    let empty = World::default();
    assert_eq!((empty.screen, empty.players.len()), (0, 0));
    let stats = LiveStats::default();
    assert_eq!((stats.speed, stats.jump_height, stats.gravity), (None, None, None));
}

#[test]
fn a_list_is_read_up_to_its_bound() {
    let mut game = session();
    let elements: Vec<usize> = (0..20).map(|index| FIRST + 0x400 * (index % 3)).collect();
    game.put_list(BASE + 0x3300, BASE + 0x3400, &elements);
    game.put_u32(BASE + 0x3300 + offsets::list::SIZE, 0x7FFF_FFFF);
    let list = game.once(|mem| btama::game::list::read_list(mem, BASE + 0x3300, 16));
    assert_eq!(list, elements[..16].to_vec());
    game.put_u32(BASE + 0x3300 + offsets::list::SIZE, 0xFFFF_FFFF);
    let list = game.once(|mem| btama::game::list::read_list(mem, BASE + 0x3300, 16));
    assert!(list.is_empty());
    let unique = btama::game::list::sort_unique(&elements);
    assert_eq!(unique, vec![FIRST, SECOND, THIRD]);
}

#[test]
fn fields_of_a_trap_are_read_and_written() {
    let mut game = session();
    let at = BASE + 0x4000;
    game.put(at + offsets::trap::USED, &[9]);
    game.put_u32(at + offsets::trap::NAME, (BASE + 0x3000) as u32);
    let mut mem = Memory::new();
    assert_eq!(game.ask(&mut mem, |mem| trap_name(mem, at)), Some("Игрок".to_string()));
    assert_eq!(game.ask(&mut mem, |mem| trap_name(mem, at + 0x100)), None);
    assert_eq!(game.ask(&mut mem, |mem| trap_flag(mem, at, offsets::trap::USED)), Some(true));
    assert!(game.ask(&mut mem, |mem| set_trap_flag(mem, at, offsets::trap::USED, false)));
    assert_eq!(game.ask(&mut mem, |mem| trap_flag(mem, at, offsets::trap::USED)), Some(false));
    assert!(game.ask(&mut mem, |mem| set_trap_flag(mem, at, offsets::trap::USED, true)));
    assert_eq!(game.ask(&mut mem, |mem| trap_flag(mem, at, offsets::trap::USED)), Some(true));
    assert_eq!(game.ask(&mut mem, |mem| trap_flag(mem, 0x60_0000, 0)), None);
    assert!(game.ask(&mut mem, |mem| supports_boom_fields(mem, at)));
    let end = BASE + game.bytes.len();
    assert!(!game.ask(&mut mem, |mem| supports_boom_fields(mem, end - 0xAC)));
    assert_eq!(game.ask(&mut mem, |mem| trap_speed(mem, at)), Some(single(0.0)));
    assert!(game.ask(&mut mem, |mem| set_trap_speed(mem, at, single(3.5))));
    assert_eq!(game.ask(&mut mem, |mem| trap_speed(mem, at)), Some(single(3.5)));
}
