use arcade_games::engine::{
    ArcadeKey, DelayTimings, SpawnWaves, TimingButtonExpired, TimingButtonStartTime, TimingEngine,
    TimingTarget, ValidateButtonEvent, eligible_reactables, shift_mappings, TRAVEL,
};
use arcade_games::input::{
    cabinet_reactables, input_system, ArcadeInput, ArcadeInputEvent, FeedbackType, InputReaction, KeyCode, KeyToArcade,
    KeyboardInput, Reactable,
};
use arcade_games::path::{PathDriver, TimingButtonPath};
use arcade_games::timing::{evaluate_grade, feedback_for, TimingButton, TimingButtonMappings, TimingMapping};

fn base_table() -> Vec<TimingMapping> {
    vec![
        TimingMapping::new(200, TimingButton::TooEarly),
        TimingMapping::new(400, TimingButton::BadEarly),
        TimingMapping::new(600, TimingButton::GoodEarly),
        TimingMapping::new(700, TimingButton::Perfect),
        TimingMapping::new(900, TimingButton::GoodLate),
        TimingMapping::new(1100, TimingButton::BadLate),
        TimingMapping::new(1300, TimingButton::TooLate),
    ]
}

fn target(id: u64, key: ArcadeInput, start: u64, grade: TimingButton) -> TimingTarget {
    TimingTarget {
        id,
        key: ArcadeKey { key },
        start: TimingButtonStartTime { start_time: start },
        mappings: TimingButtonMappings { map: base_table() },
        grade,
        path: TimingButtonPath { legs: vec![0, 1000] },
        driver: PathDriver { path_target_index: 0, speed: 100, to_target: 0 },
    }
}

fn engine_with(targets: Vec<TimingTarget>, now: u64) -> TimingEngine {
    let mut e = TimingEngine::new(now);
    e.next_id = targets.iter().map(|t| t.id + 1).max().unwrap_or(0);
    e.targets = targets;
    e
}

#[test]
fn keyboard_layout_maps_keys() {
    let layout = KeyToArcade::default();
    assert_eq!(layout.mappings.len(), 15);
    assert_eq!(layout.get(KeyCode::Up), Some(ArcadeInput::JoyUp));
    assert_eq!(layout.get(KeyCode::Space), Some(ArcadeInput::ButtonFront2));
    assert_eq!(layout.get(KeyCode::Key6), Some(ArcadeInput::ButtonTop6));
    assert_eq!(layout.get(KeyCode::Other), None);
}

#[test]
fn custom_layout_is_used() {
    let layout = KeyToArcade { mappings: vec![(KeyCode::Other, ArcadeInput::JoyButton)] };
    let evs = vec![
        KeyboardInput { key_code: Some(KeyCode::Other), pressed: true },
        KeyboardInput { key_code: Some(KeyCode::Up), pressed: true },
    ];
    assert_eq!(
        input_system(&layout, &evs),
        vec![ArcadeInputEvent { arcade_input: ArcadeInput::JoyButton, pressed: true }]
    );
}

#[test]
fn keyboard_events_skip_unmapped_keys() {
    let evs = vec![
        KeyboardInput { key_code: Some(KeyCode::Key1), pressed: true },
        KeyboardInput { key_code: None, pressed: true },
        KeyboardInput { key_code: Some(KeyCode::Other), pressed: true },
        KeyboardInput { key_code: Some(KeyCode::LAlt), pressed: false },
    ];
    let out = input_system(&KeyToArcade::default(), &evs);
    assert_eq!(
        out,
        vec![
            ArcadeInputEvent { arcade_input: ArcadeInput::ButtonTop1, pressed: true },
            ArcadeInputEvent { arcade_input: ArcadeInput::ButtonFront1, pressed: false },
        ]
    );
}

#[test]
fn grade_follows_first_open_row() {
    let m = base_table();
    assert_eq!(evaluate_grade(&m, TimingButton::BadEarly, 0), TimingButton::TooEarly);
    assert_eq!(evaluate_grade(&m, TimingButton::TooEarly, 650), TimingButton::Perfect);
    assert_eq!(evaluate_grade(&m, TimingButton::TooEarly, 1200), TimingButton::TooLate);
}

#[test]
fn grade_keeps_first_open_row() {
    let m = base_table();
    assert_eq!(evaluate_grade(&m, TimingButton::TooEarly, 100), TimingButton::TooEarly);
    let two = vec![TimingMapping::new(200, TimingButton::TooEarly), TimingMapping::new(400, TimingButton::BadEarly)];
    assert_eq!(evaluate_grade(&two, TimingButton::TooEarly, 100), TimingButton::TooEarly);
    assert_eq!(evaluate_grade(&two, TimingButton::TooEarly, 150), TimingButton::TooEarly);
    assert_eq!(evaluate_grade(&two, TimingButton::TooEarly, 200), TimingButton::BadEarly);
}

#[test]
fn spawned_target_stays_too_early_before_its_window() {
    let mut e = TimingEngine::new(0);
    let slots = vec![Reactable::new(ArcadeInput::ButtonTop1)];
    e.spawn_from(&slots, 0);
    for now in [1000u64, 1016, 1032, 1048] {
        assert!(e.advance_targets(now).is_empty());
        assert_eq!(e.targets[0].grade, TimingButton::TooEarly);
    }
    e.advance_targets(1600);
    assert_eq!(e.targets[0].grade, TimingButton::BadEarly);
    e.advance_targets(2000);
    assert_eq!(e.targets[0].grade, TimingButton::Perfect);
}

#[test]
fn grade_stays_after_last_cutoff() {
    let m = base_table();
    assert_eq!(evaluate_grade(&m, TimingButton::TooLate, 1300), TimingButton::TooLate);
    assert_eq!(evaluate_grade(&m, TimingButton::BadLate, 5000), TimingButton::BadLate);
    assert_eq!(evaluate_grade(&Vec::new(), TimingButton::Perfect, 10), TimingButton::Perfect);
}

#[test]
fn grades_do_not_decrease_on_a_run_of_ticks() {
    let m = base_table();
    let mut g = TimingButton::GoodLate;
    g = evaluate_grade(&m, g, 50);
    let mut last = g as u8;
    for t in [210u64, 450, 620, 710, 950, 1150, 1250, 1400, 3000] {
        g = evaluate_grade(&m, g, t);
        assert!(g as u8 >= last, "grade went back at {}", t);
        last = g as u8;
    }
    assert_eq!(g, TimingButton::TooLate);
}

#[test]
fn feedback_of_each_grade() {
    assert_eq!(feedback_for(TimingButton::TooEarly), FeedbackType::Bad);
    assert_eq!(feedback_for(TimingButton::BadEarly), FeedbackType::New);
    assert_eq!(feedback_for(TimingButton::GoodEarly), FeedbackType::Good);
    assert_eq!(feedback_for(TimingButton::Perfect), FeedbackType::Menu);
    assert_eq!(feedback_for(TimingButton::GoodLate), FeedbackType::Good);
    assert_eq!(feedback_for(TimingButton::BadLate), FeedbackType::New);
    assert_eq!(feedback_for(TimingButton::TooLate), FeedbackType::Bad);
}

#[test]
fn shifted_table_moves_every_cutoff() {
    let shifted = shift_mappings(&base_table(), 650, 2000);
    let cutoffs: Vec<u64> = shifted.iter().map(|r| r.expiry).collect();
    assert_eq!(cutoffs, vec![1550, 1750, 1950, 2050, 2250, 2450, 2650]);
    assert_eq!(shifted[3].value, TimingButton::Perfect);
    // a cutoff that would fall before spawning becomes 0
    let early = shift_mappings(&vec![TimingMapping::new(100, TimingButton::TooEarly)], 500, 200);
    assert_eq!(early[0].expiry, 0);
}

#[test]
fn path_driver_carries_over_waypoints() {
    let path = TimingButtonPath { legs: vec![0, 300, 500] };
    let mut d = PathDriver::new(&path, 100);
    d.advance(&path, 4);
    assert_eq!((d.path_target_index, d.to_target), (2, 400));
    d.advance(&path, 2);
    assert_eq!((d.path_target_index, d.to_target), (2, 200));
    d.advance(&path, 10);
    assert_eq!(d.path_target_index, 3);
    // at the end of the path nothing moves any more
    let before = d;
    d.advance(&path, 10);
    assert_eq!(d, before);
}

#[test]
fn path_driver_on_empty_path_stays() {
    let path = TimingButtonPath { legs: vec![] };
    let mut d = PathDriver::new(&path, 100);
    d.advance(&path, 1000);
    assert_eq!((d.path_target_index, d.to_target), (0, 0));
}

#[test]
fn spawn_timer_repeats() {
    let mut w = SpawnWaves { period: 1000, elapsed: 0 };
    assert!(!w.tick(999));
    assert!(w.tick(1));
    assert_eq!(w.elapsed, 0);
    assert!(w.tick(2500));
    assert_eq!(w.elapsed, 500);
}

#[test]
fn forbidden_slots_are_not_eligible() {
    let rs = vec![
        Reactable::new(ArcadeInput::ButtonLeftSide),
        Reactable::new(ArcadeInput::ButtonTop2),
        Reactable::new(ArcadeInput::ButtonFront1),
        Reactable::new(ArcadeInput::JoyUp),
        Reactable::new(ArcadeInput::ButtonFront2),
        Reactable::new(ArcadeInput::ButtonRightSide),
    ];
    let e = eligible_reactables(&rs);
    assert_eq!(e, vec![Reactable::new(ArcadeInput::ButtonTop2), Reactable::new(ArcadeInput::JoyUp)]);
}

#[test]
fn cabinet_slots_and_default_slot() {
    let slots = cabinet_reactables();
    assert_eq!(slots.len(), 15);
    assert_eq!(slots[0].key, ArcadeInput::ButtonLeftSide);
    assert_eq!(slots[14].key, ArcadeInput::JoyUp);
    assert_eq!(eligible_reactables(&slots).len(), 11);
    assert_eq!(Reactable::default().key, ArcadeInput::ButtonFront1);
}

#[test]
fn spawn_from_builds_shifted_target() {
    let mut e = TimingEngine::new(5000);
    let slots = vec![Reactable::new(ArcadeInput::JoyLeft), Reactable::new(ArcadeInput::ButtonTop4)];
    let id = e.spawn_from(&slots, 1);
    assert_eq!(id, 0);
    assert_eq!(e.next_id, 1);
    let t = &e.targets[0];
    assert_eq!(t.key.key, ArcadeInput::ButtonTop4);
    assert_eq!(t.start.start_time, 5000);
    assert_eq!(t.grade, TimingButton::TooEarly);
    assert_eq!(t.mappings.map[3].expiry, 2050);
    assert_eq!(t.path.legs, vec![0, TRAVEL]);
}

#[test]
fn update_spawns_on_an_eligible_slot() {
    let mut e = TimingEngine::new(0);
    let slots = vec![
        Reactable::new(ArcadeInput::ButtonFront1),
        Reactable::new(ArcadeInput::ButtonTop1),
        Reactable::new(ArcadeInput::ButtonTop3),
    ];
    let expired = e.update(999, &slots);
    assert!(expired.is_empty());
    assert!(e.targets.is_empty());
    e.update(1000, &slots);
    assert_eq!(e.targets.len(), 1);
    let k = e.targets[0].key.key;
    assert!(k == ArcadeInput::ButtonTop1 || k == ArcadeInput::ButtonTop3);
    assert_eq!(e.targets[0].start.start_time, 1000);
}

#[test]
fn update_without_eligible_slot_skips() {
    let mut e = TimingEngine::new(0);
    let slots = vec![Reactable::new(ArcadeInput::ButtonLeftSide), Reactable::new(ArcadeInput::ButtonFront2)];
    e.update(3000, &slots);
    assert!(e.targets.is_empty());
    assert_eq!(e.next_id, 0);
}

#[test]
fn earliest_spawned_target_is_selected() {
    let mut e = engine_with(
        vec![
            target(0, ArcadeInput::JoyUp, 300, TimingButton::BadEarly),
            target(1, ArcadeInput::JoyUp, 100, TimingButton::Perfect),
            target(2, ArcadeInput::JoyDown, 50, TimingButton::TooLate),
        ],
        400,
    );
    let r = e.validate_press(ValidateButtonEvent(ArcadeInput::JoyUp));
    assert_eq!(r, InputReaction { key: ArcadeInput::JoyUp, feedback: FeedbackType::Menu });
    let ids: Vec<u64> = e.targets.iter().map(|t| t.id).collect();
    assert_eq!(ids, vec![0, 2]);
}

#[test]
fn equal_spawn_times_pick_the_first() {
    let mut e = engine_with(
        vec![
            target(0, ArcadeInput::JoyUp, 100, TimingButton::GoodEarly),
            target(1, ArcadeInput::JoyUp, 100, TimingButton::BadLate),
        ],
        400,
    );
    let r = e.validate_press(ValidateButtonEvent(ArcadeInput::JoyUp));
    assert_eq!(r.feedback, FeedbackType::Good);
    assert_eq!(e.targets.len(), 1);
    assert_eq!(e.targets[0].id, 1);
}

#[test]
fn press_without_target_is_unexpected() {
    let mut e = engine_with(vec![target(0, ArcadeInput::JoyUp, 0, TimingButton::Perfect)], 100);
    let r = e.validate_press(ValidateButtonEvent(ArcadeInput::ButtonTop5));
    assert_eq!(r, InputReaction { key: ArcadeInput::ButtonTop5, feedback: FeedbackType::Cheat });
    assert_eq!(e.targets.len(), 1);
}

#[test]
fn expired_targets_are_reported_and_removed() {
    let mut e = engine_with(
        vec![
            target(0, ArcadeInput::JoyUp, 0, TimingButton::TooEarly),
            target(1, ArcadeInput::JoyLeft, 2000, TimingButton::TooEarly),
            target(2, ArcadeInput::JoyRight, 500, TimingButton::TooEarly),
        ],
        2000,
    );
    let misses = e.advance_targets(4500);
    assert_eq!(
        misses,
        vec![
            TimingButtonExpired { id: 0, key: ArcadeInput::JoyUp },
            TimingButtonExpired { id: 2, key: ArcadeInput::JoyRight },
        ]
    );
    assert_eq!(misses[0].reaction(), InputReaction { key: ArcadeInput::JoyUp, feedback: FeedbackType::Cheat });
    assert_eq!(e.targets.len(), 1);
    assert_eq!(e.targets[0].id, 1);
    // elapsed 2500: past every cutoff of the base table, grade re-evaluated once
    assert_eq!(e.targets[0].grade, TimingButton::TooEarly);
    assert_eq!(e.now, 4500);
}

#[test]
fn tick_moves_and_grades_live_targets() {
    let mut e = engine_with(vec![target(0, ArcadeInput::JoyUp, 0, TimingButton::TooEarly)], 0);
    e.advance_targets(650);
    assert_eq!(e.targets[0].grade, TimingButton::Perfect);
    assert_eq!(e.targets[0].driver.path_target_index, 2);
    let mut f = engine_with(vec![target(0, ArcadeInput::JoyUp, 0, TimingButton::TooEarly)], 0);
    f.advance_targets(4);
    assert_eq!((f.targets[0].driver.path_target_index, f.targets[0].driver.to_target), (1, 600));
}

#[test]
fn deadline_is_inclusive() {
    let mut e = engine_with(vec![target(7, ArcadeInput::JoyUp, 1000, TimingButton::TooEarly)], 1000);
    assert!(e.advance_targets(4999).is_empty());
    let misses = e.advance_targets(5000);
    assert_eq!(misses, vec![TimingButtonExpired { id: 7, key: ArcadeInput::JoyUp }]);
}

#[test]
fn matched_target_is_never_a_miss() {
    let mut e = engine_with(vec![target(3, ArcadeInput::ButtonTop2, 0, TimingButton::TooEarly)], 0);
    assert!(e.advance_targets(3999).is_empty());
    let r = e.validate_press(ValidateButtonEvent(ArcadeInput::ButtonTop2));
    assert_eq!(r.key, ArcadeInput::ButtonTop2);
    assert!(e.targets.is_empty());
    assert!(e.advance_targets(10000).is_empty());
    // a second press finds nothing
    let again = e.validate_press(ValidateButtonEvent(ArcadeInput::ButtonTop2));
    assert_eq!(again.feedback, FeedbackType::Cheat);
}

#[test]
fn fish_menu_buttons_and_release() {
    let mut e = engine_with(vec![target(0, ArcadeInput::JoyUp, 0, TimingButton::Perfect)], 0);
    let quit = e.handle_input(ArcadeInputEvent { arcade_input: ArcadeInput::ButtonLeftSide, pressed: true });
    assert!(quit.exit);
    assert_eq!(quit.reactions, vec![InputReaction { key: ArcadeInput::ButtonLeftSide, feedback: FeedbackType::Cheat }]);
    let fun = e.handle_input(ArcadeInputEvent { arcade_input: ArcadeInput::ButtonFront1, pressed: true });
    assert!(!fun.exit);
    assert_eq!(fun.reactions[0].feedback, FeedbackType::Cheat);
    let up = e.handle_input(ArcadeInputEvent { arcade_input: ArcadeInput::JoyUp, pressed: false });
    assert!(up.reactions.is_empty());
    assert_eq!(e.targets.len(), 1);
    let hit = e.handle_input(ArcadeInputEvent { arcade_input: ArcadeInput::JoyUp, pressed: true });
    assert_eq!(hit.reactions, vec![InputReaction { key: ArcadeInput::JoyUp, feedback: FeedbackType::Menu }]);
    assert!(e.targets.is_empty());
}

#[test]
fn new_engine_configuration() {
    let e = TimingEngine::new(0);
    assert_eq!(e.delays, DelayTimings { delay_before_perfect: 2000, delay_before_final_too_late: 4000 });
    assert_eq!(e.waves, SpawnWaves { period: 1000, elapsed: 0 });
    assert_eq!(e.helper.ideal_perfect_time, 650);
    assert_eq!(e.helper.mapping_raw.map.len(), 7);
}
