use btama::text::{current, s, Choice, Lang, Text};

#[test]
fn a_language_can_be_chosen() {
    let mut choice = Choice::new();
    assert_eq!(current(&choice), Lang::Ru);
    btama::text::set(&mut choice, Lang::En);
    assert_eq!(current(&choice), Lang::En);
    btama::text::set(&mut choice, Lang::Ru);
    assert_eq!(current(&choice), Lang::Ru);
}

#[test]
fn unknown_codes_stand_for_russian() {
    assert_eq!(Lang::from_code(0), Lang::Ru);
    assert_eq!(Lang::from_code(1), Lang::En);
    assert_eq!(Lang::from_code(2), Lang::Ru);
    assert_eq!(Lang::from_code(255), Lang::Ru);
    assert_eq!(Lang::Ru.code(), 0);
    assert_eq!(Lang::En.code(), 1);
}

#[test]
fn strings_follow_the_language() {
    let mut choice = Choice::new();
    let text = Text::new(s::TRAPS);
    assert_eq!(text.get(&choice), "Ловушки");
    btama::text::set(&mut choice, Lang::En);
    assert_eq!(text.get(&choice), "Traps");
    assert_eq!(
        Text::new(s::CAN_TRIGGER_HINT).get(&choice),
        "m_CanTrigger (0xAC) on BoomTrap."
    );
    assert_eq!(
        Text::new(s::DEV_HINT).get(&choice),
        "Developer mode: log path, parser counters, raw object\nfields and trap rectangle numbers.\nUseful when hunting offsets, noise while playing."
    );
}

#[test]
fn interface_strings_have_glyphs() {
    for pair in [
        s::TELEPORT_HINT,
        s::NO_RECT,
        s::CROUCH_WALK_HINT,
        s::SHOW_RECTS_HINT,
        s::GROUP_MIXED,
        s::WAITING,
    ] {
        for ch in pair.0.chars().chain(pair.1.chars()) {
            assert!(ch == '\n' || btama::font::covered(ch), "{ch:?}");
        }
    }
}
