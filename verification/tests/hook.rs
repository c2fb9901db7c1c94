use btama::hook::{
    attempt_is_logged, force_retry, is_installed, should_retry, spawn_install_attempt, status,
    take_objects, uninstall, Hook, Next, ObjectBuffer, Removal, Status, Verdict, MAX_FAILURES, MAX_OBJECTS,
};
use btama::mem::Need;
use btama::scan::{find_unique, Outcome};

#[test]
fn detour_records_this_pointer_in_call_order() {
    let mut buffer = ObjectBuffer::new();

    for this in [0x1000, 0x2000, 0x3000] {
        buffer.record(this);
    }

    let mut objects = Vec::new();
    take_objects(&mut buffer, true, &mut objects);
    assert_eq!(objects, vec![0x1000, 0x2000, 0x3000]);
}

#[test]
fn buffer_is_emptied_between_frames() {
    let mut buffer = ObjectBuffer::new();

    buffer.record(0xAAAA);
    let mut objects = Vec::new();
    take_objects(&mut buffer, true, &mut objects);
    assert_eq!(objects, vec![0xAAAA]);

    take_objects(&mut buffer, true, &mut objects);
    assert!(objects.is_empty());
}

#[test]
fn overflow_is_clamped_to_buffer_capacity() {
    let mut buffer = ObjectBuffer::new();

    for index in 0..MAX_OBJECTS + 32 {
        buffer.record(0x10_0000 + index);
    }

    let mut objects = Vec::new();
    take_objects(&mut buffer, true, &mut objects);
    assert_eq!(objects.len(), MAX_OBJECTS);
    assert_eq!(objects[0], 0x10_0000);
    assert_eq!(objects[MAX_OBJECTS - 1], 0x10_0000 + MAX_OBJECTS - 1);
}

#[test]
fn without_a_hook_there_are_no_objects() {
    let mut buffer = ObjectBuffer::new();
    buffer.record(1);
    let mut objects = vec![5];
    take_objects(&mut buffer, false, &mut objects);
    assert!(objects.is_empty());
    take_objects(&mut buffer, true, &mut objects);
    assert_eq!(objects, vec![1]);
}

#[test]
fn empty_slots_and_the_end_of_the_counter_are_harmless() {
    let mut buffer = ObjectBuffer::from_parts(vec![4, 0, 6], 2);
    buffer.record(0);
    let mut objects = Vec::new();
    take_objects(&mut buffer, true, &mut objects);
    assert_eq!(objects, vec![4]);

    let mut buffer = ObjectBuffer::from_parts(vec![4, 5, 6], usize::MAX);
    buffer.record(9);
    take_objects(&mut buffer, true, &mut objects);
    assert!(objects.is_empty());
}

#[test]
fn a_hook_is_installed_and_removed() {
    let mut hook = Hook::new();
    assert_eq!(status(Some(&hook), &Status::Idle), Status::Idle);
    assert!(should_retry(&hook));
    assert!(spawn_install_attempt(&mut hook));
    assert!(!spawn_install_attempt(&mut hook));

    let (attempt, search) = hook.install();
    assert_eq!(attempt, 1);
    assert_eq!(find_unique(&search), Err(Need::Region(0)));
    assert_eq!(status(Some(&hook), &Status::Idle), Status::Scanning);
    assert_eq!(hook.search_ended(&Outcome::Unique(0x5000)), Verdict::Create(0x5000));
    assert_eq!(hook.hook_created(0, 0x7000), Next::Enable);
    assert_eq!(hook.trampoline(), 0x7000);
    assert!(!is_installed(&hook));
    assert_eq!(hook.hook_enabled(0x5000, 0), Next::Stop);
    hook.attempt_ended();
    assert!(is_installed(&hook));
    assert!(!should_retry(&hook));
    assert!(!spawn_install_attempt(&mut hook));
    assert!(!force_retry(&mut hook));
    assert_eq!(status(Some(&hook), &Status::Idle), Status::Installed);

    let mut buffer = ObjectBuffer::new();
    buffer.record(0x9000);
    assert_eq!(uninstall(&mut hook), Removal::Unhook(0x5000));
    assert_eq!(hook.trampoline(), 0x7000);
    assert!(!is_installed(&hook));
    hook.hook_removed(&mut buffer);
    assert_eq!(hook.trampoline(), 0);
    assert_eq!(buffer.count(), 0);
    assert_eq!(status(Some(&hook), &Status::Idle), Status::Idle);
    assert_eq!(uninstall(&mut hook), Removal::Nothing);
}

#[test]
fn a_second_uninstall_does_nothing() {
    for address in [0x5000, 0] {
        let mut hook = Hook::new();
        let mut buffer = ObjectBuffer::new();
        assert_eq!(uninstall(&mut hook), Removal::Nothing);
        assert_eq!(status(Some(&hook), &Status::GaveUp), Status::Idle);

        hook.hook_created(0, 0x7000);
        hook.hook_enabled(address, 0);
        buffer.record(1);
        buffer.record(2);
        assert_eq!(buffer.count(), 2);
        let expected =
            if address == 0 { Removal::Forget } else { Removal::Unhook(address) };
        assert_eq!(uninstall(&mut hook), expected);
        hook.hook_removed(&mut buffer);

        assert_eq!(uninstall(&mut hook), Removal::Nothing);
        assert!(!is_installed(&hook));
        assert_eq!(hook.trampoline(), 0);
        assert_eq!(buffer.count(), 0);
        assert_eq!(status(Some(&hook), &Status::GaveUp), Status::Idle);
    }
}

#[test]
fn a_busy_state_leaves_the_last_status() {
    for last in [
        Status::Idle,
        Status::Scanning,
        Status::Installed,
        Status::NotFound,
        Status::Ambiguous(3),
        Status::Failed("MH_CreateHook: 8".to_string()),
        Status::GaveUp,
    ] {
        assert_eq!(status(None, &last), last);
        assert_eq!(status(Some(&Hook::new()), &last), Status::Idle);
    }
}

#[test]
fn a_cleared_buffer_is_empty() {
    let mut buffer = ObjectBuffer::new();
    buffer.record(7);
    buffer.clear();
    assert_eq!(buffer.count(), 0);
    let mut objects = vec![1];
    take_objects(&mut buffer, true, &mut objects);
    assert!(objects.is_empty());
    buffer.record(8);
    take_objects(&mut buffer, true, &mut objects);
    assert_eq!(objects, vec![8]);
}

#[test]
fn the_signature_of_the_method_is_searched_for() {
    let mut hook = Hook::new();
    let (_, mut search) = hook.install();
    let code = [0x90, 0x83, 0xC1, 0x0C, 0x8B, 0xC1, 0xD9, 0x44, 0x24, 0x04, 0xC3];
    let info = btama::win32::RegionInfo {
        base: 0x4000,
        size: code.len(),
        state: btama::win32::MEM_COMMIT,
        protect: btama::win32::PAGE_EXECUTE_READ,
        kind: btama::win32::MEM_PRIVATE,
    };
    search.supply_region(Some(info));
    assert_eq!(find_unique(&search), Err(Need::Bytes(0x4000, code.len())));
    search.supply_bytes(&code);
    search.supply_region(None);
    assert_eq!(find_unique(&search), Ok(Outcome::Unique(0x4001)));
}

#[test]
fn not_found_is_no_failure() {
    let mut hook = Hook::new();
    for _ in 0..20 {
        assert!(spawn_install_attempt(&mut hook));
        hook.install();
        assert_eq!(hook.search_ended(&Outcome::NotFound), Verdict::Stop);
        hook.attempt_ended();
        assert_eq!(status(Some(&hook), &Status::Idle), Status::NotFound);
    }
    assert!(should_retry(&hook));
}

#[test]
fn failures_are_reported_and_end_the_attempts() {
    let mut hook = Hook::new();
    assert_eq!(hook.search_ended(&Outcome::Ambiguous(vec![1, 2, 3])), Verdict::Stop);
    assert_eq!(status(Some(&hook), &Status::Idle), Status::Ambiguous(3));
    assert_eq!(hook.hook_created(-1, 0x7000), Next::Stop);
    assert_eq!(status(Some(&hook), &Status::Idle), Status::Failed("MH_CreateHook: -1".to_string()));
    assert_eq!(hook.hook_created(0, 0), Next::Remove);
    assert_eq!(status(Some(&hook), &Status::Idle), Status::Failed("no trampoline".to_string()));
    assert_eq!(hook.hook_created(0, 0x7000), Next::Enable);
    assert_eq!(hook.hook_enabled(0x5000, 12), Next::Remove);
    assert_eq!(status(Some(&hook), &Status::Idle), Status::Failed("MH_EnableHook: 12".to_string()));
    assert_eq!(hook.trampoline(), 0);
    assert!(should_retry(&hook));
    assert_eq!(MAX_FAILURES, 5);
    assert_eq!(hook.hook_created(7, 0), Next::Stop);
    assert_eq!(status(Some(&hook), &Status::Idle), Status::GaveUp);
    assert!(!should_retry(&hook));
    assert!(!spawn_install_attempt(&mut hook));
    assert!(force_retry(&mut hook));
    assert!(should_retry(&hook));
}

#[test]
fn one_quiet_attempt_in_ten_is_logged() {
    let logged: Vec<u32> = (1..=31).filter(|&n| attempt_is_logged(n)).collect();
    assert_eq!(logged, vec![1, 11, 21, 31]);
}
