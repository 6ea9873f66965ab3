use discowl::adapter::SlintServoAdapter;
use discowl::delegate::{AppDelegate, FrameReadyAction, FRAME_INTERVAL_NS};
use discowl::frame::{flip_rows_in_place, orient_readback, readback_extent, FrameCounter, FramePixels, FrameSize};
use discowl::input::{
    convert_modifiers, key_from_text, mouse_button, pointer_actions, KeyInput, Modifier,
    ModifierKeys, MouseButton, NamedKey, PointerAction, PointerButton, PointerKind,
};
use discowl::navigation::{choose_location_kind, convert_input_string_to_url, initial_url, LocationKind};
use discowl::pacing::IntervalGate;
use discowl::webview::{viewport_extent, EventLoopPacer, WebviewSetup, SERVO_SPIN_INTERVAL_NS};

const MS: u64 = 1_000_000;

#[test]
fn gate_passes_only_after_interval() {
    let mut gate = IntervalGate::new(1_000, 100);
    assert!(!gate.try_pass(1_050));
    assert!(!gate.try_pass(1_099));
    assert!(gate.try_pass(1_100));
    assert!(!gate.try_pass(1_150));
    assert!(gate.try_pass(1_250));
}

#[test]
fn gate_treats_earlier_time_as_no_time() {
    let mut gate = IntervalGate::new(1_000, 100);
    assert!(!gate.try_pass(10));
    let mut open = IntervalGate::new(1_000, 0);
    assert!(open.try_pass(10));
}

#[test]
fn passed_events_are_an_interval_apart() {
    let mut gate = IntervalGate::new(0, 10);
    let times = [3u64, 10, 12, 19, 20, 31, 35, 40];
    let mut passed = Vec::new();
    for t in times {
        if gate.try_pass(t) {
            passed.push(t);
        }
    }
    assert_eq!(passed, vec![10, 20, 31]);
    for pair in passed.windows(2) {
        assert!(pair[1] >= pair[0] + 10);
    }
}

#[test]
fn flip_rows_reverses_rows() {
    let mut pixels: Vec<u8> = (0u8..12).collect();
    flip_rows_in_place(&mut pixels, 4, 3);
    assert_eq!(pixels, vec![8, 9, 10, 11, 4, 5, 6, 7, 0, 1, 2, 3]);
}

#[test]
fn flip_rows_keeps_bytes_past_the_rows() {
    let mut pixels: Vec<u8> = (0u8..10).collect();
    flip_rows_in_place(&mut pixels, 4, 2);
    assert_eq!(pixels, vec![4, 5, 6, 7, 0, 1, 2, 3, 8, 9]);
}

#[test]
fn flip_rows_single_row_and_empty_are_unchanged() {
    let mut one: Vec<u8> = vec![1, 2, 3];
    flip_rows_in_place(&mut one, 8, 1);
    assert_eq!(one, vec![1, 2, 3]);
    let mut none: Vec<u8> = vec![];
    flip_rows_in_place(&mut none, 4, 0);
    assert!(none.is_empty());
}

#[test]
fn flip_rows_twice_is_identity() {
    let original: Vec<u8> = (0u8..40).collect();
    let mut pixels = original.clone();
    flip_rows_in_place(&mut pixels, 8, 5);
    assert_ne!(pixels, original);
    flip_rows_in_place(&mut pixels, 8, 5);
    assert_eq!(pixels, original);
}

#[test]
fn readback_extent_rejects_empty_and_oversized() {
    assert_eq!(readback_extent(FrameSize { width: 640, height: 480 }), Some((640, 480)));
    assert_eq!(readback_extent(FrameSize { width: 0, height: 480 }), None);
    assert_eq!(readback_extent(FrameSize { width: 640, height: 0 }), None);
    assert_eq!(readback_extent(FrameSize { width: 0x8000_0000, height: 1 }), None);
    assert_eq!(readback_extent(FrameSize { width: 0x7fff_ffff, height: 1 }), Some((0x7fff_ffff, 1)));
}

#[test]
fn orient_readback_flips_and_wraps() {
    // 1 x 2 pixels: bottom row first in the read-back.
    let readback = vec![1, 2, 3, 4, 5, 6, 7, 8];
    let frame = orient_readback(1, 2, readback).expect("whole frame");
    assert_eq!(frame.width, 1);
    assert_eq!(frame.height, 2);
    assert_eq!(frame.pixels, vec![5, 6, 7, 8, 1, 2, 3, 4]);
}

#[test]
fn orient_readback_refuses_short_buffer() {
    // One row of two pixels needs eight bytes.
    assert!(orient_readback(2, 1, vec![0; 7]).is_none());
    assert!(orient_readback(2, 1, vec![0; 8]).is_some());
}

#[test]
fn frame_counter_bumps_on_readback_only() {
    let mut counter = FrameCounter::new();
    assert_eq!(counter.frame_version(), 0);
    let frame = FramePixels { width: 1, height: 1, pixels: vec![9, 9, 9, 9] };
    let out = counter.record_readback(Some(frame)).expect("frame passes through");
    assert_eq!(out.pixels, vec![9, 9, 9, 9]);
    assert_eq!(counter.frame_version(), 1);
    assert!(counter.record_readback(None).is_none());
    assert_eq!(counter.frame_version(), 1);
}

#[test]
fn adapter_slots_fill_on_set_inner() {
    let mut adapter: SlintServoAdapter<&str, u32, char, ()> = SlintServoAdapter::new(());
    assert!(!adapter.is_active());
    assert!(!adapter.has_servo());
    assert!(!adapter.has_webview());
    assert!(adapter.rendering_adapter().is_none());
    adapter.set_inner("engine", 7, 'r');
    assert!(adapter.has_servo());
    assert!(adapter.has_webview());
    assert_eq!(*adapter.servo(), "engine");
    assert_eq!(*adapter.webview(), 7);
    assert_eq!(adapter.rendering_adapter(), Some(&'r'));
    assert!(adapter.is_active());
}

#[test]
fn first_update_after_set_inner_shows_a_frame() {
    let mut counter = FrameCounter::new();
    let mut adapter: SlintServoAdapter<(), (), (), ()> = SlintServoAdapter::new(());
    adapter.set_inner((), (), ());
    assert!(adapter.update_web_content_with_latest_frame());
    counter.record_readback(Some(FramePixels { width: 0, height: 0, pixels: vec![] }));
    assert!(adapter.accept_frame_version(counter.frame_version()));
}

#[test]
fn update_without_new_frame_reads_nothing() {
    let mut counter = FrameCounter::new();
    let mut adapter: SlintServoAdapter<(), (), (), ()> = SlintServoAdapter::new(());
    adapter.set_inner((), (), ());
    assert!(adapter.update_web_content_with_latest_frame());
    counter.record_readback(Some(FramePixels { width: 0, height: 0, pixels: vec![] }));
    assert!(adapter.accept_frame_version(counter.frame_version()));
    assert!(!adapter.update_web_content_with_latest_frame());
    assert!(!adapter.update_web_content_with_latest_frame());
}

#[test]
fn each_painted_frame_is_shown() {
    let mut counter = FrameCounter::new();
    let mut adapter: SlintServoAdapter<(), (), (), ()> = SlintServoAdapter::new(());
    adapter.set_inner((), (), ());
    for _ in 0..3 {
        adapter.mark_frame_painted();
        assert!(adapter.update_web_content_with_latest_frame());
        counter.record_readback(Some(FramePixels { width: 1, height: 1, pixels: vec![0; 4] }));
        assert!(adapter.accept_frame_version(counter.frame_version()));
    }
    assert_eq!(counter.frame_version(), 3);
}

#[test]
fn failed_readback_is_not_shown() {
    let mut counter = FrameCounter::new();
    let mut adapter: SlintServoAdapter<(), (), (), ()> = SlintServoAdapter::new(());
    adapter.set_inner((), (), ());
    assert!(adapter.update_web_content_with_latest_frame());
    assert!(counter.record_readback(None).is_none());
    assert!(!adapter.accept_frame_version(counter.frame_version()));
}

#[test]
fn same_version_is_accepted_once() {
    let mut adapter: SlintServoAdapter<(), (), (), ()> = SlintServoAdapter::new(());
    assert!(!adapter.accept_frame_version(0));
    assert!(adapter.accept_frame_version(1));
    assert!(!adapter.accept_frame_version(1));
    assert!(adapter.accept_frame_version(2));
}

#[test]
fn adapter_records_current_url() {
    let mut adapter: SlintServoAdapter<(), (), (), ()> = SlintServoAdapter::new(());
    assert!(adapter.current_url().is_none());
    adapter.set_current_url("https://servo.org/".to_string());
    assert_eq!(adapter.current_url().map(|u| u.as_str()), Some("https://servo.org/"));
}

#[test]
fn delegate_skips_frames_within_interval() {
    let mut delegate = AppDelegate::new("adapter", 0);
    assert_eq!(FRAME_INTERVAL_NS, 200 * MS);
    assert_eq!(delegate.notify_new_frame_ready(100 * MS, true), FrameReadyAction::Skip);
    assert!(!delegate.has_frame());
    assert_eq!(
        delegate.notify_new_frame_ready(200 * MS, false),
        FrameReadyAction::Paint { update_content: false }
    );
    assert!(!delegate.has_frame());
    assert_eq!(delegate.notify_new_frame_ready(300 * MS, true), FrameReadyAction::Skip);
    assert_eq!(
        delegate.notify_new_frame_ready(400 * MS, true),
        FrameReadyAction::Paint { update_content: true }
    );
    assert!(delegate.has_frame());
    assert_eq!(*delegate.adapter(), "adapter");
}

#[test]
fn delegate_shows_at_most_five_frames_a_second() {
    let mut delegate = AppDelegate::new((), 0);
    let mut shown = 0;
    for step in 1..=100u64 {
        if delegate.notify_new_frame_ready(step * 10 * MS, true) != FrameReadyAction::Skip {
            shown += 1;
        }
    }
    assert_eq!(shown, 5);
}

#[test]
fn pacer_spins_once_per_interval() {
    assert_eq!(SERVO_SPIN_INTERVAL_NS, 50 * MS);
    let mut pacer = EventLoopPacer::new(0);
    assert!(!pacer.on_wake(8 * MS));
    assert!(!pacer.on_wake(49 * MS));
    assert!(pacer.on_wake(50 * MS));
    assert!(!pacer.on_wake(99 * MS));
    assert!(pacer.on_wake(120 * MS));
    assert!(!pacer.on_wake(150 * MS));
    assert!(pacer.on_wake(170 * MS));
}

#[test]
fn pacer_spins_at_most_twenty_times_a_second() {
    let mut pacer = EventLoopPacer::new(0);
    let mut spins = 0;
    for step in 1..=1000u64 {
        if pacer.on_wake(step * MS) {
            spins += 1;
        }
    }
    assert_eq!(spins, 20);
}

#[test]
fn viewport_extent_is_at_least_one_pixel() {
    assert_eq!(viewport_extent(0, 0), FrameSize { width: 1, height: 1 });
    assert_eq!(viewport_extent(800, 0), FrameSize { width: 800, height: 1 });
    assert_eq!(viewport_extent(1280, 720), FrameSize { width: 1280, height: 720 });
}

#[test]
fn webview_is_created_once() {
    let mut setup = WebviewSetup::new();
    assert!(!setup.on_rendering_state(false));
    assert!(setup.on_rendering_state(true));
    assert!(!setup.on_rendering_state(true));
    assert!(!setup.on_rendering_state(false));
}

#[test]
fn pointer_down_moves_then_presses() {
    assert_eq!(
        pointer_actions(PointerKind::Down, PointerButton::Right),
        vec![PointerAction::MoveTo, PointerAction::Press(MouseButton::Right)]
    );
    assert_eq!(
        pointer_actions(PointerKind::Up, PointerButton::Middle),
        vec![PointerAction::Release(MouseButton::Middle)]
    );
    assert_eq!(pointer_actions(PointerKind::Move, PointerButton::Left), vec![PointerAction::MoveTo]);
    assert!(pointer_actions(PointerKind::Other, PointerButton::Left).is_empty());
}

#[test]
fn unknown_pointer_button_counts_as_left() {
    assert_eq!(mouse_button(PointerButton::Other), MouseButton::Left);
    assert_eq!(
        pointer_actions(PointerKind::Up, PointerButton::Other),
        vec![PointerAction::Release(MouseButton::Left)]
    );
}

#[test]
fn modifiers_map_in_order() {
    let none = ModifierKeys { alt: false, control: false, shift: false, meta: false };
    assert!(convert_modifiers(none).is_empty());
    let some = ModifierKeys { alt: true, control: false, shift: true, meta: true };
    assert_eq!(convert_modifiers(some), vec![Modifier::Alt, Modifier::Shift, Modifier::Meta]);
    let ctrl = ModifierKeys { alt: false, control: true, shift: false, meta: false };
    assert_eq!(convert_modifiers(ctrl), vec![Modifier::Control]);
}

#[test]
fn single_ascii_text_is_a_character() {
    assert_eq!(key_from_text("a"), KeyInput::Character('a'));
    assert_eq!(key_from_text(" "), KeyInput::Character(' '));
}

#[test]
fn named_keys_are_recognised() {
    assert_eq!(key_from_text("enter"), KeyInput::Named(NamedKey::Enter));
    assert_eq!(key_from_text("Return"), KeyInput::Named(NamedKey::Enter));
    assert_eq!(key_from_text("Backspace"), KeyInput::Named(NamedKey::Backspace));
    assert_eq!(key_from_text("tab"), KeyInput::Named(NamedKey::Tab));
    assert_eq!(key_from_text("Escape"), KeyInput::Named(NamedKey::Escape));
    assert_eq!(key_from_text("Delete"), KeyInput::Named(NamedKey::Delete));
    assert_eq!(key_from_text("Shift"), KeyInput::Named(NamedKey::Shift));
    assert_eq!(key_from_text("Control"), KeyInput::Named(NamedKey::Control));
    assert_eq!(key_from_text("Alt"), KeyInput::Named(NamedKey::Alt));
}

#[test]
fn other_text_is_unidentified() {
    assert_eq!(key_from_text("é"), KeyInput::Named(NamedKey::Unidentified));
    assert_eq!(key_from_text(""), KeyInput::Named(NamedKey::Unidentified));
    assert_eq!(key_from_text("delete"), KeyInput::Named(NamedKey::Unidentified));
    assert_eq!(key_from_text("ab"), KeyInput::Named(NamedKey::Unidentified));
}

#[test]
fn absolute_url_loads_as_is() {
    let loc = convert_input_string_to_url("https://servo.org/news").expect("parses");
    assert_eq!(loc.kind, LocationKind::Address);
    assert_eq!(loc.source, "https://servo.org/news");
    assert_eq!(loc.url.url().as_str(), "https://servo.org/news");
    assert_eq!(loc.url.text(), "https://servo.org/news");
}

#[test]
fn domain_gets_https_scheme() {
    let loc = convert_input_string_to_url("example.com").expect("parses");
    assert_eq!(loc.kind, LocationKind::Domain);
    assert_eq!(loc.source, "https://example.com");
    assert_eq!(loc.url.url().as_str(), "https://example.com/");
    assert_eq!(loc.url.text(), "https://example.com/");
}

#[test]
fn other_text_becomes_a_search() {
    let loc = convert_input_string_to_url("rust verus").expect("parses");
    assert_eq!(loc.url.url().as_str(), loc.url.text().as_str());
    assert_eq!(loc.kind, LocationKind::Search);
    assert_eq!(loc.source, "https://www.google.com/search?q=rust verus");
    assert_eq!(loc.url.url().as_str(), "https://www.google.com/search?q=rust%20verus");
    assert_eq!(loc.url.text(), "https://www.google.com/search?q=rust%20verus");
    let dotted = convert_input_string_to_url(".hidden").expect("parses");
    assert_eq!(dotted.kind, LocationKind::Search);
}

#[test]
fn initial_url_requires_absolute_url() {
    let parsed = initial_url("https://google.com").expect("valid");
    assert_eq!(parsed.text(), "https://google.com/");
    assert_eq!(parsed.into_url().as_str(), "https://google.com/");
    assert!(initial_url("google.com").is_none());
}

#[test]
fn location_kind_prefers_address_then_domain_then_search() {
    assert_eq!(choose_location_kind(true, true, true, true), Some(LocationKind::Address));
    assert_eq!(choose_location_kind(false, true, true, true), Some(LocationKind::Domain));
    assert_eq!(choose_location_kind(false, false, true, true), Some(LocationKind::Search));
    assert_eq!(choose_location_kind(false, true, false, true), Some(LocationKind::Search));
    assert_eq!(choose_location_kind(false, true, false, false), None);
}

#[test]
fn frame_version_counts_successful_readbacks() {
    let mut counter = FrameCounter::new();
    let outcomes = [true, false, true, true, false];
    let mut reads = 0;
    for ok in outcomes {
        let readback = if ok { Some(FramePixels { width: 0, height: 0, pixels: vec![] }) } else { None };
        counter.record_readback(readback);
        if ok {
            reads += 1;
        }
        assert_eq!(counter.frame_version(), reads);
    }
    assert_eq!(counter.frame_version(), 3);
}
