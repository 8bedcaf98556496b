use flipclip::dispatch::{route, Dispatcher, HotkeyAction, HotkeyBinding};

fn transform_binding() -> HotkeyBinding {
    HotkeyBinding { action: HotkeyAction::Transform, id: 11 }
}

fn cycle_binding() -> HotkeyBinding {
    HotkeyBinding { action: HotkeyAction::CycleMode, id: 22 }
}

#[test]
fn route_by_registration_id() {
    let t = transform_binding();
    let c = cycle_binding();
    assert_eq!(route(11, &t, &c), Some(HotkeyAction::Transform));
    assert_eq!(route(22, &t, &c), Some(HotkeyAction::CycleMode));
    assert_eq!(route(33, &t, &c), None);
}

#[test]
fn press_release_pair_dispatches_once() {
    let mut d = Dispatcher::new();
    let events = vec![HotkeyAction::Transform, HotkeyAction::Transform];
    let (transforms, cycles) = d.consume(&events);
    assert_eq!(transforms, 1);
    assert_eq!(cycles, 0);
}

#[test]
fn two_pairs_dispatch_twice() {
    let mut d = Dispatcher::new();
    let events = vec![
        HotkeyAction::Transform,
        HotkeyAction::Transform,
        HotkeyAction::Transform,
        HotkeyAction::Transform,
    ];
    let (transforms, _) = d.consume(&events);
    assert_eq!(transforms, 2);
}

#[test]
fn interleaving_does_not_change_per_binding_counts() {
    let mut d = Dispatcher::new();
    let events = vec![
        HotkeyAction::Transform,
        HotkeyAction::CycleMode,
        HotkeyAction::Transform,
        HotkeyAction::CycleMode,
        HotkeyAction::CycleMode,
    ];
    let (transforms, cycles) = d.consume(&events);
    assert_eq!(transforms, 1);
    assert_eq!(cycles, 2);
}

#[test]
fn note_event_dispatches_on_odd_counts() {
    let mut d = Dispatcher::new();
    assert!(d.note_event(HotkeyAction::Transform));
    assert!(!d.note_event(HotkeyAction::Transform));
    assert!(d.note_event(HotkeyAction::Transform));
    assert_eq!(d.transform_count, 3);
    assert_eq!(d.cycle_count, 0);
    assert!(d.note_event(HotkeyAction::CycleMode));
    assert_eq!(d.cycle_count, 1);
}
