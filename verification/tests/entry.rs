use btama::entry::{entry, hooking_is_ready, panic_text, Entry};

#[test]
fn the_loader_is_followed() {
    assert_eq!(entry(1, true), Entry::Attach);
    assert_eq!(entry(1, false), Entry::Attach);
    assert_eq!(entry(0, true), Entry::Detach);
    assert_eq!(entry(0, false), Entry::Nothing);
    assert_eq!(entry(2, true), Entry::Nothing);
    assert_eq!(entry(3, true), Entry::Nothing);
}

#[test]
fn reasons_are_those_of_the_system() {
    assert_eq!(
        btama::entry::DLL_PROCESS_ATTACH,
        windows::Win32::System::SystemServices::DLL_PROCESS_ATTACH
    );
    assert_eq!(
        btama::entry::DLL_PROCESS_DETACH,
        windows::Win32::System::SystemServices::DLL_PROCESS_DETACH
    );
}

#[test]
fn a_hooking_library_in_use_is_ready() {
    assert!(hooking_is_ready(0));
    assert!(hooking_is_ready(1));
    assert!(!hooking_is_ready(2));
    assert!(!hooking_is_ready(-1));
}

#[test]
fn panics_are_described() {
    assert_eq!(panic_text(Some(("a.rs", 7)), Some("boom")), "паника в a.rs:7: boom");
    assert_eq!(panic_text(None, None), "паника в неизвестно где: <без сообщения>");
}
