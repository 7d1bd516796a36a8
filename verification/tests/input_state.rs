use smithay_egui::geometry::Rect;
use smithay_egui::input::convert_button;
use smithay_egui::input::convert_key;
use smithay_egui::input::convert_modifiers;
use smithay_egui::input::button_from_code;
use smithay_egui::input::Event;
use smithay_egui::input::Key;
use smithay_egui::input::KeyHandle;
use smithay_egui::input::ModifiersState;
use smithay_egui::input::MouseButton;
use smithay_egui::input::PointerButton;
use smithay_egui::EguiState;

fn area() -> Rect {
    Rect { x: 0, y: 0, w: 800, h: 600 }
}

fn mods(alt: bool, ctrl: bool, shift: bool, logo: bool) -> ModifiersState {
    ModifiersState { alt, ctrl, shift, logo }
}

#[test]
fn key_round_trip_for_every_mapped_keysym() {
    let table: Vec<(u32, Key)> = vec![
        (0xff54, Key::ArrowDown),
        (0xff51, Key::ArrowLeft),
        (0xff53, Key::ArrowRight),
        (0xff52, Key::ArrowUp),
        (0xff1b, Key::Escape),
        (0xff09, Key::Tab),
        (0xff08, Key::Backspace),
        (0xff0d, Key::Enter),
        (0x20, Key::Space),
        (0xff63, Key::Insert),
        (0xffff, Key::Delete),
        (0xff50, Key::Home),
        (0xff57, Key::End),
        (0xff55, Key::PageUp),
        (0xff56, Key::PageDown),
        (0x30, Key::Num0),
        (0x31, Key::Num1),
        (0x32, Key::Num2),
        (0x33, Key::Num3),
        (0x34, Key::Num4),
        (0x35, Key::Num5),
        (0x36, Key::Num6),
        (0x37, Key::Num7),
        (0x38, Key::Num8),
        (0x39, Key::Num9),
        (0x61, Key::A),
        (0x62, Key::B),
        (0x63, Key::C),
        (0x64, Key::D),
        (0x65, Key::E),
        (0x66, Key::F),
        (0x67, Key::G),
        (0x68, Key::H),
        (0x69, Key::I),
        (0x6a, Key::J),
        (0x6b, Key::K),
        (0x6c, Key::L),
        (0x6d, Key::M),
        (0x6e, Key::N),
        (0x6f, Key::O),
        (0x70, Key::P),
        (0x71, Key::Q),
        (0x72, Key::R),
        (0x73, Key::S),
        (0x74, Key::T),
        (0x75, Key::U),
        (0x76, Key::V),
        (0x77, Key::W),
        (0x78, Key::X),
        (0x79, Key::Y),
        (0x7a, Key::Z),
    ];
    assert_eq!(table.len(), 51);
    for (sym, key) in table {
        assert_eq!(convert_key(&vec![sym]), Some(key));
    }
}

#[test]
fn key_unmapped_keysyms_yield_none() {
    // function keys, punctuation, non-Latin symbols
    for sym in [0xffbeu32, 0x2e, 0x2c, 0x41, 0x10000041, 0xff67, 0x0] {
        assert_eq!(convert_key(&vec![sym]), None);
    }
    assert_eq!(convert_key(&vec![]), None);
}

#[test]
fn key_first_mapped_alternative_wins() {
    assert_eq!(convert_key(&vec![0xffbe, 0x61, 0x62]), Some(Key::A));
    assert_eq!(convert_key(&vec![0x62, 0x61]), Some(Key::B));
}

#[test]
fn modifier_mapping_is_deterministic_and_single_branch() {
    let a = mods(true, true, false, true);
    let b = mods(true, true, false, true);
    let ma = convert_modifiers(a);
    let mb = convert_modifiers(b);
    assert_eq!(ma, mb);
    // this build is not the Apple platform family: command aliases ctrl,
    // and the logo-aliasing branch stays off
    assert_eq!(ma.command, a.ctrl);
    assert!(!ma.mac_cmd);
    assert_eq!(ma.alt, a.alt);
    assert_eq!(ma.ctrl, a.ctrl);
    assert_eq!(ma.shift, a.shift);
    let only_logo = convert_modifiers(mods(false, false, false, true));
    assert!(!only_logo.command);
    assert!(!only_logo.mac_cmd);
}

#[test]
fn button_mapping_table() {
    assert_eq!(convert_button(MouseButton::Left), Some(PointerButton::Primary));
    assert_eq!(convert_button(MouseButton::Middle), Some(PointerButton::Middle));
    assert_eq!(convert_button(MouseButton::Right), Some(PointerButton::Secondary));
    assert_eq!(convert_button(MouseButton::Forward), None);
    assert_eq!(convert_button(MouseButton::Back), None);
    assert_eq!(convert_button(MouseButton::Other(9)), None);
}

#[test]
fn button_codes_follow_evdev_assignment() {
    assert_eq!(button_from_code(0x110), Some(MouseButton::Left));
    assert_eq!(button_from_code(0x111), Some(MouseButton::Right));
    assert_eq!(button_from_code(0x112), Some(MouseButton::Middle));
    assert_eq!(button_from_code(0x115), Some(MouseButton::Forward));
    assert_eq!(button_from_code(0x116), Some(MouseButton::Back));
    assert_eq!(button_from_code(0x113), None);
}

#[test]
fn queue_is_fifo_and_each_event_delivered_exactly_once() {
    let mut s = EguiState::new(area());
    s.handle_pointer_motion(1, 2);
    s.handle_pointer_motion(3, 4);
    s.handle_pointer_axis(0, 5);
    let first = s.begin_frame(area());
    assert_eq!(first.events.len(), 3);
    assert_eq!(first.events[0], Event::PointerMoved { x: 1, y: 2 });
    assert_eq!(first.events[1], Event::PointerMoved { x: 3, y: 4 });
    assert!(matches!(first.events[2], Event::MouseWheel { x: 0, y: 5, .. }));
    // events accumulated after the drain go to the next frame only
    s.handle_pointer_motion(7, 8);
    let second = s.begin_frame(area());
    assert_eq!(second.events, vec![Event::PointerMoved { x: 7, y: 8 }]);
    let third = s.begin_frame(area());
    assert!(third.events.is_empty());
}

#[test]
fn keyboard_event_and_text_are_queued_in_order() {
    let mut s = EguiState::new(area());
    s.handle_keyboard(&vec![0x61], 38, true, mods(false, false, false, false), Some("a".to_string()));
    let f = s.begin_frame(area());
    assert_eq!(f.events.len(), 2);
    assert!(matches!(f.events[0], Event::Key { key: Key::A, pressed: true, .. }));
    assert_eq!(f.events[1], Event::Text("a".to_string()));
}

#[test]
fn unmapped_key_still_forwards_composed_text() {
    let mut s = EguiState::new(area());
    // an unmapped keysym: no Key event, but the composed text goes through
    s.handle_keyboard(&vec![0xffbe], 67, true, mods(false, false, false, false), Some("é".to_string()));
    let f = s.begin_frame(area());
    assert_eq!(f.events, vec![Event::Text("é".to_string())]);
}

#[test]
fn focus_loss_releases_every_outstanding_key() {
    let mut s = EguiState::new(area());
    let m = mods(false, false, false, false);
    s.handle_keyboard(&vec![0x61], 38, true, m, Some("a".to_string()));
    s.handle_keyboard(&vec![0x62], 56, true, m, Some("b".to_string()));
    s.handle_keyboard(&vec![0xffbe], 67, true, m, None);
    // three key-downs without key-ups: two mapped, one unmapped
    assert_eq!(s.pressed.len(), 3);
    let _ = s.begin_frame(area());
    let codes = s.leave();
    // one composition key-up feed per outstanding key-down
    assert_eq!(codes, vec![38, 56, 67]);
    // the pressed bookkeeping is empty immediately afterwards
    assert!(s.pressed.is_empty());
    let f = s.begin_frame(area());
    // one synthesized key-up per outstanding mapped key-down
    assert_eq!(f.events.len(), 2);
    assert!(matches!(f.events[0], Event::Key { key: Key::A, pressed: false, .. }));
    assert!(matches!(f.events[1], Event::Key { key: Key::B, pressed: false, .. }));
}

#[test]
fn key_release_removes_pressed_entry() {
    let mut s = EguiState::new(area());
    let m = mods(false, false, false, false);
    s.handle_keyboard(&vec![0x61], 38, true, m, None);
    s.handle_keyboard(&vec![0x62], 56, true, m, None);
    s.handle_keyboard(&vec![0x61], 38, false, m, None);
    assert_eq!(s.pressed.len(), 1);
    assert_eq!(s.pressed[0].code, 56);
    let codes = s.leave();
    assert_eq!(codes, vec![56]);
}

#[test]
fn focus_gain_synthesizes_held_keys() {
    let mut s = EguiState::new(area());
    let held = vec![
        KeyHandle { code: 38, syms: vec![0x61] },
        KeyHandle { code: 67, syms: vec![0xffbe] },
    ];
    let codes = s.enter(&held);
    assert_eq!(codes, vec![38, 67]);
    assert!(s.focused);
    assert_eq!(s.pressed.len(), 2);
    let f = s.begin_frame(area());
    assert!(f.focused);
    assert_eq!(f.events.len(), 1);
    assert!(matches!(f.events[0], Event::Key { key: Key::A, pressed: true, .. }));
}

#[test]
fn scroll_with_discrete_step_forwards_the_step_directly() {
    // the discrete convention: a reported step of 1 is forwarded as 1
    let mut s = EguiState::new(area());
    s.handle_pointer_axis(0, 1);
    let f = s.begin_frame(area());
    assert_eq!(f.events.len(), 1);
    match f.events[0] {
        Event::MouseWheel { x, y, .. } => {
            assert_eq!(x, 0);
            assert_eq!(y, 1);
        }
        _ => panic!("expected a scroll event"),
    }
}

#[test]
fn pointer_button_uses_last_position_and_modifiers() {
    let mut s = EguiState::new(area());
    s.handle_pointer_motion(40, 50);
    s.set_modifiers(mods(false, true, false, false));
    s.handle_pointer_button(MouseButton::Left, true);
    // a side button has no mapping and is not forwarded
    s.handle_pointer_button(MouseButton::Forward, true);
    let f = s.begin_frame(area());
    assert_eq!(f.events.len(), 2);
    match f.events[1] {
        Event::PointerButton { x, y, button, pressed, modifiers } => {
            assert_eq!((x, y), (40, 50));
            assert_eq!(button, PointerButton::Primary);
            assert!(pressed);
            assert!(modifiers.ctrl);
            assert!(modifiers.command);
        }
        _ => panic!("expected a pointer-button event"),
    }
}

#[test]
fn last_pointer_device_removal_queues_pointer_gone() {
    let mut s = EguiState::new(area());
    s.handle_device_added(true);
    s.handle_device_added(false);
    s.handle_device_removed(false);
    s.handle_device_removed(true);
    let f = s.begin_frame(area());
    assert_eq!(f.events, vec![Event::PointerGone]);
}

#[test]
fn area_change_flags_render_buffer_recreation() {
    let mut s = EguiState::new(area());
    let same = s.begin_frame(area());
    assert!(!same.needs_recreate);
    let grown = Rect { x: 0, y: 0, w: 1024, h: 768 };
    let changed = s.begin_frame(grown);
    assert!(changed.needs_recreate);
    assert_eq!(s.bbox(), grown);
}

#[test]
fn platform_output_is_consumed_exactly_once() {
    let mut s = EguiState::new(area());
    assert!(s.last_output().is_none());
    s.set_last_output(egui::PlatformOutput::default());
    assert!(s.last_output().is_some());
    assert!(s.last_output().is_none());
}

#[test]
fn z_index_defaults_to_overlay_and_can_be_set() {
    let mut s = EguiState::new(area());
    assert_eq!(s.z_index(), 60);
    s.set_zindex(40);
    assert_eq!(s.z_index(), 40);
}
