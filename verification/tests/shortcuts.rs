use hyprwhspr_rs::clock::{Clock, Instant};
use hyprwhspr_rs::keys::{parse_shortcut, KeyCode};
use hyprwhspr_rs::shortcuts::{
    ShortcutController, ShortcutEvent, ShortcutInput, ShortcutKind, ShortcutPhase,
    ShortcutSummary, ShortcutsConfig,
};
use std::collections::HashSet;

fn config(press: Option<&str>, hold: Option<&str>) -> ShortcutsConfig {
    ShortcutsConfig {
        press: press.map(str::to_string),
        hold: hold.map(str::to_string),
    }
}

fn after_millis(from: Instant, millis: i128) -> Instant {
    Instant {
        nanos: from.nanos + millis * 1_000_000,
    }
}

fn key_transition(
    controller: &mut ShortcutController,
    clock: &mut Clock,
    pressed_keys: &HashSet<KeyCode>,
    now: Instant,
) -> Vec<ShortcutEvent> {
    controller
        .transition(ShortcutInput::KeyStateChanged { pressed_keys, now }, clock)
        .unwrap()
}

fn event(triggered_at: Instant, kind: ShortcutKind, phase: ShortcutPhase) -> ShortcutEvent {
    ShortcutEvent {
        triggered_at,
        kind,
        phase,
    }
}

#[test]
fn press_shortcut_debounces() {
    let mut clock = Clock::start();
    let mut controller = ShortcutController::new(config(Some("SUPER+R"), None), &mut clock).unwrap();
    let keys = parse_shortcut("SUPER+R").unwrap();
    let now = clock.now();

    let first = key_transition(&mut controller, &mut clock, &keys, now);
    assert_eq!(first.len(), 1);
    assert_eq!(first[0].kind, ShortcutKind::Press);
    assert_eq!(first[0].phase, ShortcutPhase::Start);

    let released = HashSet::new();
    key_transition(&mut controller, &mut clock, &released, after_millis(now, 10));
    let second = key_transition(&mut controller, &mut clock, &keys, after_millis(now, 100));
    assert!(second.is_empty());
}

#[test]
fn hold_shortcut_emits_start_and_end() {
    let mut clock = Clock::start();
    let mut controller = ShortcutController::new(config(None, Some("SUPER+ALT")), &mut clock).unwrap();
    let keys = parse_shortcut("SUPER+ALT").unwrap();
    let now = clock.now();

    let start = key_transition(&mut controller, &mut clock, &keys, now);
    assert_eq!(start.len(), 1);
    assert_eq!(start[0].phase, ShortcutPhase::Start);

    let released = HashSet::new();
    let end = key_transition(&mut controller, &mut clock, &released, after_millis(now, 10));
    assert_eq!(end.len(), 1);
    assert_eq!(end[0].phase, ShortcutPhase::End);
}

#[test]
fn device_churn_emits_hold_cancel_even_when_inactive() {
    let mut clock = Clock::start();
    let mut controller = ShortcutController::new(config(None, Some("SUPER+ALT")), &mut clock).unwrap();
    let now = clock.now();

    let released = HashSet::new();
    let first = controller
        .transition(
            ShortcutInput::DeviceSetChanged {
                pressed_keys: &released,
                now: after_millis(now, 10),
            },
            &mut clock,
        )
        .unwrap();

    assert_eq!(first.len(), 1);
    assert_eq!(first[0].phase, ShortcutPhase::Cancel);
}

#[test]
fn config_update_removing_active_hold_emits_end() {
    let mut clock = Clock::start();
    let mut controller = ShortcutController::new(config(None, Some("SUPER+ALT")), &mut clock).unwrap();
    let keys = parse_shortcut("SUPER+ALT").unwrap();
    let now = clock.now();
    key_transition(&mut controller, &mut clock, &keys, now);

    let releases = controller
        .transition(
            ShortcutInput::ConfigChanged {
                shortcuts: config(Some("SUPER+R"), None),
                pressed_keys: &keys,
                now: after_millis(now, 10),
            },
            &mut clock,
        )
        .unwrap();

    assert_eq!(releases.len(), 1);
    assert_eq!(releases[0].kind, ShortcutKind::Hold);
    assert_eq!(releases[0].phase, ShortcutPhase::End);
}

#[test]
fn cleared_pressed_keys_releases_active_hold() {
    let mut clock = Clock::start();
    let mut controller = ShortcutController::new(config(None, Some("SUPER+ALT")), &mut clock).unwrap();
    let keys = parse_shortcut("SUPER+ALT").unwrap();
    let now = clock.now();
    key_transition(&mut controller, &mut clock, &keys, now);

    let now = clock.now();
    let end = key_transition(&mut controller, &mut clock, &HashSet::new(), now);

    assert_eq!(end.len(), 1);
    assert_eq!(end[0].kind, ShortcutKind::Hold);
    assert_eq!(end[0].phase, ShortcutPhase::End);
}

#[test]
fn device_change_cause_cancels_without_restart() {
    let mut clock = Clock::start();
    let mut controller = ShortcutController::new(config(None, Some("SUPER+ALT")), &mut clock).unwrap();
    let keys = parse_shortcut("SUPER+ALT").unwrap();
    let now = clock.now();
    key_transition(&mut controller, &mut clock, &keys, now);

    let events = controller
        .transition(
            ShortcutInput::DeviceSetChanged {
                pressed_keys: &keys,
                now: after_millis(now, 10),
            },
            &mut clock,
        )
        .unwrap();

    assert_eq!(events.len(), 1);
    assert_eq!(events[0].phase, ShortcutPhase::Cancel);
}

#[test]
fn the_clock_counts_up_from_its_start() {
    let mut clock = Clock::start();
    let first = clock.now();
    let mut second = clock.now();
    while second == first {
        second = clock.now();
    }
    assert!(first.nanos >= 0);
    assert!(second.nanos > first.nanos);
}

#[test]
fn the_clock_never_goes_back() {
    let mut clock = Clock::start();
    let mut last = clock.now();
    for _ in 0..10_000 {
        let now = clock.now();
        assert!(now.nanos >= last.nanos);
        last = now;
    }
    // Configuring shortcuts reads the clock too.
    ShortcutController::new(config(Some("F1"), Some("F2")), &mut clock).unwrap();
    assert!(clock.now().nanos >= last.nanos);
}

#[test]
fn the_clock_stands_where_time_would_go_back() {
    let mut clock = Clock::start();
    assert_eq!(clock.advance(5), Instant { nanos: 5 });
    assert_eq!(clock.advance(3), Instant { nanos: 5 });
    assert_eq!(clock.advance(5), Instant { nanos: 5 });
    assert_eq!(clock.advance(6), Instant { nanos: 6 });
    let far = Instant { nanos: i128::MAX };
    assert_eq!(clock.advance(u128::MAX), far);
    assert_eq!(clock.advance(7), far);
    assert_eq!(clock.now(), far);
}

#[test]
fn readings_are_counted_as_far_as_they_can_be() {
    assert_eq!(Instant::after(0), Instant { nanos: 0 });
    assert_eq!(Instant::after(500_000_001), Instant { nanos: 500_000_001 });
    assert_eq!(
        Instant::after(i128::MAX as u128),
        Instant { nanos: i128::MAX }
    );
    assert_eq!(Instant::after(u128::MAX), Instant { nanos: i128::MAX });
}

#[test]
fn the_debounce_time_must_have_passed() {
    let mut clock = Clock::start();
    let mut controller = ShortcutController::new(config(Some("F1"), None), &mut clock).unwrap();
    let keys = parse_shortcut("F1").unwrap();
    let none = HashSet::new();
    let now = Instant { nanos: 0 };

    assert_eq!(
        controller.apply_key_state(&keys, now),
        vec![event(now, ShortcutKind::Press, ShortcutPhase::Start)]
    );
    assert_eq!(controller.apply_key_state(&none, now), vec![]);
    let exactly = Instant { nanos: 500_000_000 };
    assert_eq!(controller.apply_key_state(&keys, exactly), vec![]);
    assert!(!controller.summaries()[0].active);
    let later = Instant { nanos: 500_000_001 };
    assert_eq!(
        controller.apply_key_state(&keys, later),
        vec![event(later, ShortcutKind::Press, ShortcutPhase::Start)]
    );
    assert!(controller.summaries()[0].active);
}

#[test]
fn looking_twice_at_the_same_keys_reports_once() {
    let mut clock = Clock::start();
    let mut controller =
        ShortcutController::new(config(Some("F1"), Some("F2")), &mut clock).unwrap();
    let keys = parse_shortcut("F1+F2+F3").unwrap();
    let now = Instant { nanos: 7 };
    assert_eq!(
        controller.apply_key_state(&keys, now),
        vec![
            event(now, ShortcutKind::Press, ShortcutPhase::Start),
            event(now, ShortcutKind::Hold, ShortcutPhase::Start),
        ]
    );
    assert_eq!(controller.apply_key_state(&keys, now), vec![]);
    assert_eq!(
        controller.apply_key_state(&HashSet::new(), now),
        vec![event(now, ShortcutKind::Hold, ShortcutPhase::End)]
    );
}

#[test]
fn a_hold_needs_all_its_keys() {
    let mut clock = Clock::start();
    let mut controller = ShortcutController::new(config(None, Some("CTRL+A")), &mut clock).unwrap();
    let now = clock.now();
    let one = parse_shortcut("A").unwrap();
    assert_eq!(controller.apply_key_state(&one, now), vec![]);
}

#[test]
fn device_changes_leave_the_press_alone() {
    let mut clock = Clock::start();
    let mut controller =
        ShortcutController::new(config(Some("F1"), Some("F2")), &mut clock).unwrap();
    let keys = parse_shortcut("F1+F2").unwrap();
    let now = Instant { nanos: 1 };
    controller.apply_key_state(&keys, now);
    assert_eq!(
        controller.cancel_holds(now),
        vec![event(now, ShortcutKind::Hold, ShortcutPhase::Cancel)]
    );
    assert_eq!(
        controller.summaries(),
        vec![
            ShortcutSummary {
                kind: ShortcutKind::Press,
                name: "F1".to_string(),
                active: true,
            },
            ShortcutSummary {
                kind: ShortcutKind::Hold,
                name: "F2".to_string(),
                active: false,
            },
        ]
    );
    assert_eq!(
        controller.apply_key_state(&keys, now),
        vec![event(now, ShortcutKind::Hold, ShortcutPhase::Start)]
    );
}

#[test]
fn the_same_configuration_changes_nothing() {
    let mut clock = Clock::start();
    let mut controller =
        ShortcutController::new(config(Some("F1"), Some("F2")), &mut clock).unwrap();
    let keys = parse_shortcut("F1+F2").unwrap();
    let now = Instant { nanos: 1 };
    controller.apply_key_state(&keys, now);
    let before = controller.summaries();
    assert_eq!(
        controller.replace_shortcuts_at(config(Some("F1"), Some("F2")), &keys, now, now, now),
        Ok(vec![])
    );
    assert_eq!(controller.summaries(), before);
    // The press is still within its debounce time.
    controller.apply_key_state(&HashSet::new(), now);
    assert_eq!(
        controller.apply_key_state(&keys, after_millis(now, 100)),
        vec![event(
            after_millis(now, 100),
            ShortcutKind::Hold,
            ShortcutPhase::Start
        )]
    );
}

#[test]
fn a_kept_hold_whose_keys_are_up_is_dropped_in_silence() {
    let mut clock = Clock::start();
    let mut controller = ShortcutController::new(config(None, Some("F2")), &mut clock).unwrap();
    let keys = parse_shortcut("F2").unwrap();
    let now = clock.now();
    controller.apply_key_state(&keys, now);
    assert_eq!(
        controller.replace_shortcuts(config(None, Some("F2")), &HashSet::new(), now, &mut clock),
        Ok(vec![])
    );
    assert!(!controller.summaries()[0].active);
}

#[test]
fn a_hold_of_another_name_ends_the_old_one() {
    let mut clock = Clock::start();
    let mut controller = ShortcutController::new(config(None, Some("F2")), &mut clock).unwrap();
    let keys = parse_shortcut("F2").unwrap();
    let now = clock.now();
    controller.apply_key_state(&keys, now);
    assert_eq!(
        controller.replace_shortcuts(config(Some("F2"), Some("f2")), &keys, now, &mut clock),
        Ok(vec![event(now, ShortcutKind::Hold, ShortcutPhase::End)])
    );
    let summaries = controller.summaries();
    assert_eq!(summaries.len(), 2);
    assert_eq!(summaries[0].kind, ShortcutKind::Press);
    assert_eq!(summaries[1].name, "f2");
    assert!(!summaries[1].active);
}

#[test]
fn a_bad_configuration_changes_nothing() {
    let mut clock = Clock::start();
    let mut controller = ShortcutController::new(config(None, Some("F2")), &mut clock).unwrap();
    let keys = parse_shortcut("F2").unwrap();
    let now = clock.now();
    controller.apply_key_state(&keys, now);
    let before = controller.summaries();
    let error = controller
        .replace_shortcuts(config(Some("SUPER + nope"), Some("bad")), &keys, now, &mut clock)
        .unwrap_err();
    assert_eq!(error.part, "NOPE");
    assert_eq!(error.cause.key, "NOPE");
    assert_eq!(controller.summaries(), before);
    let error = controller
        .transition(
            ShortcutInput::ConfigChanged {
                shortcuts: config(Some("F1"), Some("bad")),
                pressed_keys: &keys,
                now,
            },
            &mut clock,
        )
        .unwrap_err();
    assert_eq!(error.part, "BAD");
    assert_eq!(error.cause.key, "BAD");
    assert_eq!(controller.summaries(), before);
    assert!(ShortcutController::new(config(None, Some("")), &mut clock).is_err());
}

#[test]
fn a_fresh_shortcut_fires_when_it_was_created() {
    let mut clock = Clock::start();
    let mut controller = ShortcutController::new(config(None, None), &mut clock).unwrap();
    assert!(controller.summaries().is_empty());
    let created = Instant { nanos: -20_000_000_000 };
    let keys = parse_shortcut("F1").unwrap();
    assert_eq!(
        controller.replace_shortcuts_at(config(Some("F1"), None), &keys, created, created, created),
        Ok(vec![])
    );
    // Ten seconds before it was created it is taken to have fired.
    let early = Instant {
        nanos: created.nanos - 9_500_000_000,
    };
    assert_eq!(controller.apply_key_state(&keys, early), vec![]);
    assert_eq!(controller.apply_key_state(&keys, created).len(), 1);
}

#[test]
fn a_fresh_press_fires_from_its_backdated_time_on() {
    let created = Instant { nanos: 0 };
    let keys = parse_shortcut("F1").unwrap();
    for (nanos, count) in [(-9_500_000_000, 0), (-9_499_999_999, 1), (0, 1)] {
        let mut clock = Clock::start();
        let mut controller = ShortcutController::new(config(None, None), &mut clock).unwrap();
        controller
            .replace_shortcuts_at(config(Some("F1"), None), &keys, created, created, created)
            .unwrap();
        let events = controller.apply_key_state(&keys, Instant { nanos });
        assert_eq!(events.len(), count);
    }
}

#[test]
fn a_fresh_hold_fires_at_any_time() {
    let mut clock = Clock::start();
    let mut controller =
        ShortcutController::new(config(None, Some("F2")), &mut clock).unwrap();
    let keys = parse_shortcut("F2").unwrap();
    let long_ago = Instant { nanos: i128::MIN };
    assert_eq!(
        controller.apply_key_state(&keys, long_ago),
        vec![event(long_ago, ShortcutKind::Hold, ShortcutPhase::Start)]
    );
}

#[test]
fn configured_shortcuts_fire_at_the_next_reading() {
    let mut clock = Clock::start();
    let mut controller =
        ShortcutController::new(config(Some("F1"), Some("F2")), &mut clock).unwrap();
    let keys = parse_shortcut("F1+F2").unwrap();
    let now = clock.now();
    assert_eq!(
        key_transition(&mut controller, &mut clock, &keys, now),
        vec![
            event(now, ShortcutKind::Press, ShortcutPhase::Start),
            event(now, ShortcutKind::Hold, ShortcutPhase::Start),
        ]
    );
}

#[test]
fn nothing_starts_while_no_key_is_down() {
    let mut clock = Clock::start();
    let mut controller =
        ShortcutController::new(config(Some("F1"), Some("F2")), &mut clock).unwrap();
    assert_eq!(
        controller.apply_key_state(&HashSet::new(), clock.now()),
        vec![]
    );
}

#[test]
fn debouncing_outlasts_device_and_configuration_changes() {
    let mut clock = Clock::start();
    let mut controller = ShortcutController::new(config(Some("F1"), None), &mut clock).unwrap();
    let keys = parse_shortcut("F1").unwrap();
    let none = HashSet::new();
    let now = Instant { nanos: 0 };
    assert_eq!(controller.apply_key_state(&keys, now).len(), 1);
    assert_eq!(controller.cancel_holds(now), vec![]);
    assert_eq!(
        controller.replace_shortcuts(config(Some("F1"), Some("F2")), &none, now, &mut clock),
        Ok(vec![])
    );
    assert_eq!(
        controller.apply_key_state(&keys, after_millis(now, 400)),
        vec![]
    );
    assert_eq!(
        controller
            .apply_key_state(&keys, after_millis(now, 501))
            .len(),
        1
    );
}

#[test]
fn a_hold_that_was_cancelled_can_start_again() {
    let mut clock = Clock::start();
    let mut controller = ShortcutController::new(config(None, Some("F2")), &mut clock).unwrap();
    let keys = parse_shortcut("F2").unwrap();
    let none = HashSet::new();
    let now = clock.now();
    let mut phases = Vec::new();
    for events in [
        controller.apply_key_state(&keys, now),
        controller.apply_key_state(&keys, now),
        controller.cancel_holds(now),
        controller.apply_key_state(&none, now),
        controller.apply_key_state(&keys, now),
        controller.apply_key_state(&none, now),
    ] {
        phases.extend(events.iter().map(|event| event.phase));
    }
    assert_eq!(
        phases,
        vec![
            ShortcutPhase::Start,
            ShortcutPhase::Cancel,
            ShortcutPhase::Start,
            ShortcutPhase::End,
        ]
    );
}

#[test]
fn the_clock_does_not_decide_what_is_reported() {
    let mut clock = Clock::start();
    let keys = parse_shortcut("F2").unwrap();
    let now = Instant { nanos: 5 };
    let mut seen = Vec::new();
    for at in [Instant { nanos: 0 }, Instant { nanos: 1 << 100 }] {
        let mut controller = ShortcutController::new(config(None, Some("F2")), &mut clock).unwrap();
        controller.apply_key_state(&keys, now);
        let events = controller.replace_shortcuts_at(config(Some("F3"), None), &keys, now, at, at);
        seen.push((events, controller.summaries()));
    }
    assert_eq!(seen[0], seen[1]);
}

#[test]
fn times_may_be_far_apart() {
    let far = Instant { nanos: i128::MAX };
    let long_ago = Instant { nanos: i128::MIN };
    assert!(far.is_later_by_more_than(long_ago, i128::MAX));
    assert!(!long_ago.is_later_by_more_than(far, 0));
    assert!(!far.is_later_by_more_than(far, 0));
    assert!(far.is_later_by_more_than(Instant { nanos: i128::MAX - 2 }, 1));
}

#[test]
fn keys_outside_the_shortcuts_never_matter() {
    let mut clock = Clock::start();
    let shortcuts = || config(Some("F1"), Some("CTRL+F2"));
    let mut plain = ShortcutController::new(shortcuts(), &mut clock).unwrap();
    let mut mixed = ShortcutController::new(shortcuts(), &mut clock).unwrap();
    let now = clock.now();
    for (few, many) in [("F1", "F1+A+SHIFT"), ("CTRL+F2", "CTRL+B+F2+F3"), ("F2", "F2+TAB")] {
        let few = parse_shortcut(few).unwrap();
        let many = parse_shortcut(many).unwrap();
        assert_eq!(
            plain.apply_key_state(&few, now),
            mixed.apply_key_state(&many, now)
        );
        assert_eq!(
            plain.replace_shortcuts_at(shortcuts(), &few, now, now, now),
            mixed.replace_shortcuts_at(shortcuts(), &many, now, now, now)
        );
        assert_eq!(plain.summaries(), mixed.summaries());
    }
}
