use btama::game::{
    Point, PlayerView, Rect, RectF, Scalar, Source, Tracker, TrapRef, World,
};
use btama::game::LiveStats;
use btama::hook::{Hook, ObjectBuffer, Status};
use btama::mem::{Memory, Need};
use btama::overlay::classes::count_classes;
use btama::overlay::color::hue;
use btama::overlay::config::{apply, effects, Effect, PlayerConfig};
use btama::overlay::esp::{EspItem, Tint};
use btama::overlay::keys::{game_has_focus, Down, Input, Keys};
use btama::overlay::lines::{
    class_label, diagnostics, format_rect, frameless_line, hook_lines, log_line, menu_label,
    player_label, shown_line, shown_rows, source_label, total_line, trap_title, view_note,
    Counters, Tone, ViewNote,
};
use btama::overlay::{Body, CheatOverlay, Filter, MainWindow, Row, Start, Viewpoint};
use btama::single::Single;
use btama::win32::{RegionInfo, MEM_COMMIT, PAGE_READWRITE};

fn single(value: f32) -> Single {
    Single { bits: value.to_bits() }
}

fn hsv_to_rgb(hue: f32, saturation: f32, value: f32) -> [f32; 3] {
    let sector = (hue / 60.0).rem_euclid(6.0);
    let fraction = sector - sector.floor();
    let p = value * (1.0 - saturation);
    let q = value * (1.0 - saturation * fraction);
    let t = value * (1.0 - saturation * (1.0 - fraction));
    match sector as u32 {
        0 => [value, t, p],
        1 => [q, value, p],
        2 => [p, value, t],
        3 => [p, q, value],
        4 => [t, p, value],
        _ => [value, p, q],
    }
}

fn color_for(addr: usize) -> [f32; 3] {
    hsv_to_rgb(hue(addr) as f32, 0.7, 1.0)
}

#[test]
fn trap_color_is_stable_for_the_same_address() {
    assert_eq!(color_for(0x23CA_4A10), color_for(0x23CA_4A10));
}

#[test]
fn neighbouring_addresses_get_distinguishable_colors() {
    let first = color_for(0x0400_0000);
    let second = color_for(0x0400_0010);
    let distance: f32 = (0..3).map(|i| (first[i] - second[i]).abs()).sum();
    assert!(
        distance > 0.2,
        "цвета слишком близки: {first:?} и {second:?}"
    );
}

fn mixed(addr: usize) -> u32 {
    let mut hash = addr as u32;
    hash ^= hash >> 16;
    hash = hash.wrapping_mul(0x7FEB_352D);
    hash ^= hash >> 15;
    hash = hash.wrapping_mul(0x846C_A68B);
    hash ^= hash >> 16;
    hash
}

#[test]
fn hues_are_spread_over_the_wheel() {
    for addr in [0, 1, 0x0400_0000, 0x23CA_4A10, 0xFFFF_FFFF, usize::MAX] {
        assert_eq!(hue(addr), mixed(addr) % 360);
    }
    let distinct: std::collections::HashSet<u32> =
        (0..256).map(|index| hue(0x400_0000 + 16 * index)).collect();
    assert!(distinct.len() > 128);
}

const NO_KEYS: Down = Down { toggle: false, peek: false, eject: false };

#[test]
fn presses_are_reported_once() {
    let mut keys = Keys::new();
    let all = Down { toggle: true, peek: true, eject: true };
    assert_eq!(keys.poll(true, all), Input { toggle: true, peek: true, eject: true });
    assert_eq!(keys.poll(true, all), Input { toggle: false, peek: true, eject: false });
    assert_eq!(keys.poll(false, all), Input { toggle: false, peek: false, eject: false });
    assert_eq!(keys.poll(true, all), Input { toggle: true, peek: true, eject: true });
    assert_eq!(keys.poll(true, NO_KEYS), Input { toggle: false, peek: false, eject: false });
}

#[test]
fn only_our_own_window_has_the_focus() {
    assert!(game_has_focus(true, 7, 7));
    assert!(!game_has_focus(true, 7, 8));
    assert!(!game_has_focus(true, 0, 0));
    assert!(!game_has_focus(false, 7, 7));
}

#[test]
fn the_menu_is_pinned_and_peeked_at() {
    let home = Down { toggle: true, ..NO_KEYS };
    let tab = Down { peek: true, ..NO_KEYS };
    let mut overlay = CheatOverlay::new();
    assert_eq!(overlay.message_filter(), Filter::Nothing);
    assert_eq!(overlay.begin_frame(true, tab), Start::Run);
    assert!(overlay.menu_open && !overlay.menu_pinned);
    assert_eq!(overlay.message_filter(), Filter::Mouse);
    assert_eq!(overlay.begin_frame(true, home), Start::Run);
    assert!(overlay.menu_open && overlay.menu_pinned);
    assert_eq!(overlay.message_filter(), Filter::All);
    overlay.begin_frame(true, home);
    assert!(overlay.menu_pinned);
    overlay.begin_frame(false, home);
    assert!(overlay.menu_open);
    overlay.begin_frame(true, home);
    assert!(!overlay.menu_open && !overlay.menu_pinned);
}

#[test]
fn unloading_silences_the_overlay() {
    let mut overlay = CheatOverlay::new();
    overlay.menu_pinned = true;
    let eject = Down { eject: true, ..NO_KEYS };
    assert_eq!(overlay.begin_frame(true, eject), Start::Eject);
    assert!(overlay.disabled && !overlay.menu_open && !overlay.menu_pinned);
    assert_eq!(overlay.begin_frame(true, NO_KEYS), Start::Silent);
    assert_eq!(overlay.begin_frame(true, eject), Start::Silent);

    let mut overlay = CheatOverlay::new();
    overlay.disable();
    assert_eq!(overlay.begin_frame(true, eject), Start::Silent);
}

#[test]
fn objects_come_from_an_active_hook() {
    let mut overlay = CheatOverlay::new();
    let mut hook = Hook::new();
    let mut buffer = ObjectBuffer::new();
    buffer.record(0x1234);
    overlay.objects.push(5);
    assert!(overlay.collect_objects(&hook, &mut buffer));
    assert!(overlay.objects.is_empty());
    hook.hook_created(0, 1);
    hook.hook_enabled(2, 0);
    assert!(!overlay.collect_objects(&hook, &mut buffer));
    assert_eq!(overlay.objects, vec![0x1234]);
    assert!(!overlay.collect_objects(&hook, &mut buffer));
    assert!(overlay.objects.is_empty());
}

fn player(addr: usize, is_local: bool, rect: Option<Rect>) -> PlayerView {
    PlayerView {
        addr,
        unique_id: 1,
        name: String::new(),
        color: [0; 4],
        position: (single(0.0), single(0.0)),
        rect,
        is_local,
    }
}

fn trap(addr: usize, class: usize, rect: Option<RectF>) -> TrapRef {
    TrapRef {
        addr,
        class,
        rect,
        bounding_raw: None,
        source_raw: None,
        position: None::<Point>,
        position_alt: None,
    }
}

#[test]
fn frames_are_drawn_for_what_is_switched_on() {
    let rect = Rect { x: 1, y: 2, w: 3, h: 4 };
    let frame = RectF::from(rect);
    assert_eq!(frame.y, Scalar::Whole(2));
    let mut overlay = CheatOverlay::new();
    overlay.traps = vec![trap(0x10, 1, Some(frame)), trap(0x20, 1, None)];
    let world = World {
        screen: 1,
        players: vec![
            player(1, true, Some(rect)),
            player(2, false, None),
            player(3, false, Some(rect)),
        ],
    };
    assert_eq!(
        overlay.esp_items(&world),
        vec![
            EspItem { frame, tint: Tint::Hue(hue(0x10)) },
            EspItem { frame, tint: Tint::Own },
            EspItem { frame, tint: Tint::Other },
        ]
    );
    overlay.show_trap_esp = false;
    assert_eq!(overlay.esp_items(&world).len(), 2);
    overlay.show_esp = false;
    assert!(overlay.esp_items(&world).is_empty());
    assert_eq!(overlay.framed_traps(), 1);
}

#[test]
fn windows_follow_the_state() {
    let mut overlay = CheatOverlay::new();
    let empty = World { screen: 0, players: vec![] };
    let full = World { screen: 1, players: vec![player(1, true, None)] };
    assert_eq!(
        overlay.main_window(false, &full),
        MainWindow { toolbar: false, body: Body::HookStatus }
    );
    assert_eq!(
        overlay.main_window(true, &empty),
        MainWindow { toolbar: false, body: Body::NoPlayers }
    );
    overlay.menu_open = true;
    assert_eq!(
        overlay.main_window(true, &full),
        MainWindow { toolbar: true, body: Body::Players }
    );
    assert!(!overlay.shows_trap_window());
    overlay.show_trap_menu = true;
    assert!(overlay.shows_trap_window());
    assert_eq!(overlay.player_row(true), Row::OwnWithControls);
    assert_eq!(overlay.player_row(false), Row::Remote);
    overlay.menu_open = false;
    assert!(!overlay.shows_trap_window());
    assert_eq!(overlay.player_row(true), Row::Own);
    assert_eq!(overlay.player_row(false), Row::Brief);
    assert!(overlay.wants_traps(5));
    assert!(!overlay.wants_traps(0));
    overlay.show_trap_esp = false;
    overlay.show_trap_menu = false;
    assert!(!overlay.wants_traps(5));
}

#[test]
fn clicks_move_our_character() {
    let mut overlay = CheatOverlay::new();
    let world = World {
        screen: 1,
        players: vec![player(1, false, None), player(2, true, None), player(3, true, None)],
    };
    overlay.menu_open = true;
    assert_eq!(overlay.teleport_target(&world, false, true), None);
    overlay.teleport = true;
    assert_eq!(overlay.teleport_target(&world, false, true), Some(2));
    assert_eq!(overlay.teleport_target(&world, true, true), None);
    assert_eq!(overlay.teleport_target(&world, false, false), None);
    let strangers = World { screen: 1, players: vec![player(1, false, None)] };
    assert_eq!(overlay.teleport_target(&strangers, false, true), None);
    overlay.menu_open = false;
    assert_eq!(overlay.teleport_target(&world, false, true), None);
}

#[test]
fn settings_are_filled_in_once() {
    let mut overlay = CheatOverlay::new();
    let partial = LiveStats {
        speed: Some(single(1.0)),
        jump_height: None,
        gravity: Some(single(3.0)),
    };
    assert_eq!(overlay.config_for(7, partial), PlayerConfig::new());
    let first = LiveStats {
        speed: Some(single(1.0)),
        jump_height: Some(single(2.0)),
        gravity: Some(single(3.0)),
    };
    let mut config = overlay.config_for(7, first);
    assert!(config.seeded);
    assert_eq!(config.jump_height, single(2.0));
    config.override_speed = true;
    config.speed = single(50.0);
    overlay.store_config(7, config);
    let later = LiveStats { speed: Some(single(9.0)), ..first };
    assert_eq!(overlay.config_for(7, later), config);
    assert_eq!(overlay.config_for(8, later).speed, single(9.0));
}

#[test]
fn effects_follow_the_settings() {
    let mut config = PlayerConfig::new();
    assert!(effects(&config).is_empty());
    config.inf_jump = true;
    config.override_gravity = true;
    config.gravity = single(0.5);
    assert_eq!(effects(&config), vec![Effect::InfiniteJump, Effect::Gravity(single(0.5))]);
    config.god_mode = true;
    config.override_speed = true;
    config.override_jump = true;
    assert_eq!(
        effects(&config),
        vec![
            Effect::GodMode,
            Effect::InfiniteJump,
            Effect::Speed(single(0.0)),
            Effect::JumpHeight(single(0.0)),
            Effect::Gravity(single(0.5)),
        ]
    );
}

fn supplied(mem: &mut Memory, need: Need) {
    match need {
        Need::Region(addr) => mem.supply_region(
            addr,
            Some(RegionInfo {
                base: 0x10_0000,
                size: 0x1000,
                state: MEM_COMMIT,
                protect: PAGE_READWRITE,
                kind: 0,
            }),
        ),
        Need::Bytes(addr, len) => mem.supply_bytes(addr, vec![0; len]),
    }
}

#[test]
fn effects_are_written_where_they_belong() {
    let offset_of = |effect: Effect| {
        let mut mem = Memory::new();
        loop {
            match apply(&mut mem, 0x10_0000, effect) {
                Ok(done) => {
                    assert!(done);
                    return mem
                        .take_stores()
                        .iter()
                        .map(|store| store.addr - 0x10_0000)
                        .collect::<Vec<usize>>();
                }
                Err(need) => supplied(&mut mem, need),
            }
        }
    };
    assert_eq!(offset_of(Effect::GodMode), vec![0x150]);
    assert_eq!(offset_of(Effect::InfiniteJump), vec![0x144, 0x143]);
    assert_eq!(offset_of(Effect::Speed(single(1.0))), vec![0xE0]);
    assert_eq!(offset_of(Effect::JumpHeight(single(1.0))), vec![0xEC]);
    assert_eq!(offset_of(Effect::Gravity(single(1.0))), vec![0x110, 0x10C]);
}

#[test]
fn classes_are_counted_and_ranked() {
    let traps: Vec<TrapRef> = [5, 7, 7, 9, 7, 9, 4]
        .iter()
        .map(|&class| trap(0, class, None))
        .collect();
    assert_eq!(count_classes(&traps), vec![(7, 3), (9, 2), (5, 1), (4, 1)]);
    assert!(count_classes(&vec![]).is_empty());
}

#[test]
fn marked_classes_show_their_fields() {
    let mut overlay = CheatOverlay::new();
    let item = trap(0x10_0000, 77, None);
    let mut mem = Memory::new();
    assert_eq!(overlay.shows_boom_fields(&mut mem, &item), Ok(false));
    overlay.mark_class(77, true);
    assert!(overlay.class_is_marked(77));
    assert_eq!(overlay.shows_boom_fields(&mut mem, &item), Err(Need::Region(0x10_0000)));
    supplied(&mut mem, Need::Region(0x10_0000));
    assert_eq!(overlay.shows_boom_fields(&mut mem, &item), Ok(true));
    overlay.mark_class(77, false);
    assert_eq!(overlay.shows_boom_fields(&mut mem, &item), Ok(false));
}

#[test]
fn boom_fields_are_written_for_marked_classes_only() {
    let mut overlay = CheatOverlay::default();
    let item = trap(0x10_0000, 77, None);
    let mut mem = Memory::new();
    assert_eq!(overlay.set_boom_speed(&mut mem, &item, single(2.0)), Ok(false));
    assert_eq!(overlay.set_boom_flag(&mut mem, &item, true), Ok(false));
    assert!(mem.take_stores().is_empty());

    overlay.mark_class(77, true);
    assert_eq!(
        overlay.set_boom_speed(&mut mem, &item, single(2.0)),
        Err(Need::Region(0x10_0000))
    );
    supplied(&mut mem, Need::Region(0x10_0000));
    assert_eq!(overlay.set_boom_speed(&mut mem, &item, single(2.0)), Ok(true));
    assert_eq!(overlay.set_boom_flag(&mut mem, &item, true), Ok(true));
    assert_eq!(overlay.set_boom_flag(&mut mem, &item, false), Ok(true));
    let stores: Vec<(usize, Vec<u8>)> =
        mem.take_stores().into_iter().map(|store| (store.addr, store.bytes)).collect();
    assert_eq!(
        stores,
        vec![
            (0x10_00A4, 2.0f32.to_le_bytes().to_vec()),
            (0x10_00AC, vec![1]),
            (0x10_00AC, vec![0]),
        ]
    );

    // The last byte of the fields is not there.
    let short = trap(0x10_1000 - 0xAC, 77, None);
    let r = loop {
        match overlay.set_boom_speed(&mut mem, &short, single(2.0)) {
            Ok(r) => break r,
            Err(need) => supplied(&mut mem, need),
        }
    };
    assert!(!r);
    assert!(mem.take_stores().is_empty());
}

#[test]
fn only_our_own_player_has_effects() {
    let mut overlay = CheatOverlay::new();
    let mut config = PlayerConfig::new();
    config.god_mode = true;
    config.override_speed = true;
    config.speed = single(3.0);
    for menu_open in [false, true] {
        overlay.menu_open = menu_open;
        assert_eq!(
            overlay.row_effects(true, &config),
            vec![Effect::GodMode, Effect::Speed(single(3.0))]
        );
        assert!(overlay.row_effects(false, &config).is_empty());
    }
}

#[test]
fn a_frame_without_objects_is_empty() {
    let mut overlay = CheatOverlay::new();
    overlay.traps = vec![trap(1, 1, None)];
    let mut tracker = Tracker::new();
    let world = overlay.observe(&mut Memory::new(), &mut tracker).unwrap();
    assert_eq!((world.screen, world.players.len()), (0, 0));
    assert!(overlay.traps.is_empty() && overlay.classes.is_empty());
    assert_eq!(overlay.frame_camera(&mut Memory::new(), 0), Ok(None));
    assert_eq!(
        overlay.frame_camera(&mut Memory::new(), 0x2_0000),
        Err(Need::Region(0x2_004C))
    );
    overlay.view.follow_camera = false;
    assert_eq!(overlay.frame_camera(&mut Memory::new(), 0x2_0000), Ok(None));
}

#[test]
fn the_default_view_follows_the_camera() {
    let view = Viewpoint::new();
    assert!(view.follow_camera);
    assert_eq!(view.zoom, single(0.833));
    assert_eq!(view.camera_x, single(0.0));
}

#[test]
fn the_state_of_the_hook_is_told() {
    let told = |status: Status| {
        hook_lines(&status)
            .into_iter()
            .map(|line| (line.tone, line.text))
            .collect::<Vec<(Tone, String)>>()
    };
    assert!(told(Status::Installed).is_empty());
    assert_eq!(
        told(Status::Scanning),
        vec![(Tone::Plain, "Сканирование памяти...".to_string())]
    );
    let waiting = vec![(Tone::Muted, "Ожидание игры: метод ещё не вызывался".to_string())];
    assert_eq!(told(Status::Idle), waiting);
    assert_eq!(told(Status::NotFound), waiting);
    assert_eq!(
        told(Status::Ambiguous(3)),
        vec![
            (Tone::Alert, "Сигнатура неоднозначна (3 совпадений)".to_string()),
            (Tone::Muted, "Хук не установлен намеренно, см. лог".to_string()),
        ]
    );
    assert_eq!(
        told(Status::Failed("x".to_string())),
        vec![(Tone::Alert, "Ошибка MinHook: x".to_string())]
    );
    assert_eq!(
        told(Status::GaveUp),
        vec![(Tone::Alert, "Сигнатура не найдена, попытки исчерпаны".to_string())]
    );
}

#[test]
fn the_log_file_is_told() {
    let line = log_line(Some("C:\\x.log"), None);
    assert_eq!((line.tone, line.text.as_str()), (Tone::Muted, "Лог: C:\\x.log"));
    let line = log_line(None, Some("a: denied; "));
    assert_eq!(
        (line.tone, line.text.as_str()),
        (Tone::Alert, "Файл лога не открылся, пишем только в отладчик: a: denied; ")
    );
    let line = log_line(None, None);
    assert_eq!(
        line.text,
        "Файл лога не открылся, пишем только в отладчик: причина не записана"
    );
}

#[test]
fn diagnostics_show_the_chain() {
    let counters = Counters {
        objects: 12,
        class: Some(0xAB12),
        screen: 0x1F,
        online: Some(true),
        camera_read: Some(0xC0),
        camera: Some(0xC0),
        traps: 3,
    };
    assert_eq!(
        diagnostics(counters),
        "объектов: 12 | класс: 0xAB12 | экран: 0x1F (сеть) | камера: 0xC0 | ловушек: 3"
    );
    let counters = Counters { class: None, online: None, camera_read: None, ..counters };
    assert_eq!(
        diagnostics(counters),
        "объектов: 12 | класс: не опознан | экран: 0x1F (?) | камера: 0xC0 (не читается) | ловушек: 3"
    );
    let counters = Counters { online: Some(false), camera: None, ..counters };
    assert_eq!(
        diagnostics(counters),
        "объектов: 12 | класс: не опознан | экран: 0x1F (одиночная) | камера: нет | ловушек: 3"
    );
}

#[test]
fn labels_are_written() {
    assert_eq!(player_label("", -3), "Unknown [ID:-3]");
    assert_eq!(player_label("Игрок", 42), "Игрок [ID:42]");
    assert_eq!(format_rect(Some(Rect { x: -1, y: 2, w: 30, h: 40 })), "-1,2 30x40");
    assert_eq!(format_rect(None), "-");
    assert_eq!(total_line(5), "Всего ловушек: 5");
    assert_eq!(frameless_line(5, 5), None);
    assert_eq!(
        frameless_line(4, 5),
        Some("Пригодная рамка есть только у 4 из 5 — остальные ESP не рисует".to_string())
    );
    assert_eq!((shown_rows(7), shown_rows(30), shown_rows(31)), (7, 30, 30));
    assert_eq!(shown_line(30), None);
    assert_eq!(shown_line(31), Some("Показаны первые 30 из 31".to_string()));
    assert_eq!(class_label(0xFACE, 12), "0xFACE x12");
    assert_eq!(menu_label(true), "[HOME]");
    assert_eq!(menu_label(false), "[TAB]");
    assert_eq!(source_label(Source::Matrix), "m_Transform");
    assert_eq!(source_label(Source::Fields), "зум + позиция");
}

#[test]
fn the_view_is_explained() {
    assert_eq!(view_note(Some(Source::Fields), true), ViewNote::Camera(Source::Fields));
    assert_eq!(view_note(None, true), ViewNote::Unreadable);
    assert_eq!(view_note(None, false), ViewNote::Manual);
}

#[test]
fn nameless_traps_are_numbered() {
    let mut mem = Memory::new();
    let title = loop {
        match trap_title(&mut mem, 0x10_0000, 4) {
            Ok(title) => break title,
            Err(need) => supplied(&mut mem, need),
        }
    };
    assert_eq!(title, "Trap #4             ");
}
