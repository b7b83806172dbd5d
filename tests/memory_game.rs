use arcade_games::input::{ArcadeInput, ArcadeInputEvent, FeedbackType, InputReaction};
use arcade_games::persist::{decode_sequence, encode_sequence, input_from_name, input_name, PersistError};
use arcade_games::simon::{CheatState, SimonGame};

use ArcadeInput::{ButtonTop1 as A, ButtonTop2 as B, ButtonTop3 as C, JoyDown as X};

fn press(k: ArcadeInput) -> ArcadeInputEvent {
    ArcadeInputEvent { arcade_input: k, pressed: true }
}

fn release(k: ArcadeInput) -> ArcadeInputEvent {
    ArcadeInputEvent { arcade_input: k, pressed: false }
}

fn r(key: ArcadeInput, feedback: FeedbackType) -> InputReaction {
    InputReaction { key, feedback }
}

#[test]
fn first_press_records() {
    let mut g = SimonGame::new();
    let out = g.validate_input(A);
    assert_eq!(out, vec![r(A, FeedbackType::New)]);
    assert_eq!(g.sequence.sequence, vec![A]);
    assert_eq!(g.progress.index, 0);
}

#[test]
fn replaying_three_buttons() {
    let mut g = SimonGame::with_sequence(vec![A, B, C]);
    let mut indices = vec![g.progress.index];
    let mut feedback = Vec::new();
    for k in [A, B, C] {
        feedback.extend(g.validate_input(k));
        indices.push(g.progress.index);
    }
    assert_eq!(indices, vec![0, 1, 2, 3]);
    assert_eq!(feedback, vec![r(A, FeedbackType::Good), r(B, FeedbackType::Good), r(C, FeedbackType::Last)]);
    // after a full replay the next press records a new button
    assert_eq!(g.validate_input(X), vec![r(X, FeedbackType::New)]);
    assert_eq!(g.sequence.sequence, vec![A, B, C, X]);
}

#[test]
fn building_a_sequence_from_empty() {
    let mut g = SimonGame::new();
    let mut feedback = Vec::new();
    for k in [A, A, B, A, B, C] {
        feedback.extend(g.validate_input(k));
    }
    assert_eq!(
        feedback,
        vec![
            r(A, FeedbackType::New),
            r(A, FeedbackType::Last),
            r(B, FeedbackType::New),
            r(A, FeedbackType::Good),
            r(B, FeedbackType::Last),
            r(C, FeedbackType::New),
        ]
    );
    assert_eq!(g.sequence.sequence, vec![A, B, C]);
    let mut indices = vec![g.progress.index];
    let mut replay = Vec::new();
    for k in [A, B, C] {
        replay.extend(g.validate_input(k));
        indices.push(g.progress.index);
    }
    assert_eq!(indices, vec![0, 1, 2, 3]);
    assert_eq!(replay, vec![r(A, FeedbackType::Good), r(B, FeedbackType::Good), r(C, FeedbackType::Last)]);
}

#[test]
fn second_new_button_before_replay_is_a_mismatch() {
    let mut g = SimonGame::new();
    g.validate_input(A);
    let out = g.validate_input(B);
    assert_eq!(out, vec![r(A, FeedbackType::Cheat), r(B, FeedbackType::Bad)]);
    assert_eq!(g.sequence.sequence, vec![A]);
}

#[test]
fn mismatch_hints_and_resets_progress() {
    let mut g = SimonGame::with_sequence(vec![A, B]);
    assert_eq!(g.validate_input(A), vec![r(A, FeedbackType::Good)]);
    assert_eq!(g.validate_input(X), vec![r(B, FeedbackType::Cheat), r(X, FeedbackType::Bad)]);
    assert_eq!(g.progress.index, 0);
    assert_eq!(g.sequence.sequence, vec![A, B]);
}

#[test]
fn completed_reset_clears_and_repeats() {
    let mut g = SimonGame::with_sequence(vec![A, B, C]);
    g.validate_input(A);
    let armed = g.handle_input(press(ArcadeInput::ButtonFront2), 1000);
    assert_eq!(armed.reactions, vec![r(ArcadeInput::ButtonFront2, FeedbackType::Menu)]);
    assert!(g.reset.0);
    let early = g.tick(3999);
    assert!(!early.wipe_saved);
    assert_eq!(g.sequence.sequence.len(), 3);
    let done = g.tick(4000);
    assert!(done.wipe_saved);
    assert!(g.sequence.sequence.is_empty());
    assert_eq!(g.progress.index, 0);
    assert!(!g.reset.0);
    g.handle_input(press(ArcadeInput::ButtonFront2), 5000);
    let again = g.tick(9000);
    assert!(again.wipe_saved);
    assert!(g.sequence.sequence.is_empty());
    assert_eq!(g.progress.index, 0);
}

#[test]
fn released_reset_aborts() {
    let mut g = SimonGame::with_sequence(vec![A]);
    g.handle_input(press(ArcadeInput::ButtonFront2), 0);
    let out = g.handle_input(release(ArcadeInput::ButtonFront2), 2000);
    assert!(out.reactions.is_empty());
    assert!(!g.reset.0);
    let t = g.tick(10000);
    assert!(!t.wipe_saved);
    assert_eq!(g.sequence.sequence, vec![A]);
}

#[test]
fn repressing_armed_reset_is_refused() {
    let mut g = SimonGame::new();
    g.handle_input(press(ArcadeInput::ButtonFront2), 100);
    let out = g.handle_input(press(ArcadeInput::ButtonFront2), 200);
    assert_eq!(out.reactions, vec![r(ArcadeInput::ButtonFront2, FeedbackType::Cheat)]);
    assert_eq!(g.reset_timer.start_time, 100);
}

#[test]
fn menu_buttons() {
    let mut g = SimonGame::new();
    let fun = g.handle_input(press(ArcadeInput::ButtonFront1), 0);
    assert_eq!(fun.reactions, vec![r(ArcadeInput::ButtonFront1, FeedbackType::Fun)]);
    let quit = g.handle_input(press(ArcadeInput::ButtonLeftSide), 0);
    assert!(quit.save_and_exit);
    assert_eq!(quit.reactions, vec![r(ArcadeInput::ButtonLeftSide, FeedbackType::Menu)]);
    assert!(g.sequence.sequence.is_empty());
    let other_release = g.handle_input(release(A), 0);
    assert!(other_release.reactions.is_empty());
}

#[test]
fn hint_mode_shows_next_button() {
    let mut g = SimonGame::with_sequence(vec![A, B]);
    let on = g.handle_input(press(ArcadeInput::ButtonRightSide), 1000);
    assert_eq!(on.reactions, vec![r(ArcadeInput::ButtonRightSide, FeedbackType::Menu)]);
    assert_eq!(g.tick(1000).reactions, vec![r(A, FeedbackType::Cheat)]);
    assert!(g.tick(1999).reactions.is_empty());
    assert_eq!(g.tick(2000).reactions, vec![r(A, FeedbackType::Cheat)]);
    g.handle_input(press(A), 2100);
    assert!(g.tick(2599).reactions.is_empty());
    assert_eq!(g.tick(2600).reactions, vec![r(B, FeedbackType::Cheat)]);
    g.handle_input(press(ArcadeInput::ButtonRightSide), 2700);
    assert_eq!(g.cheat, CheatState::Disabled);
    assert!(g.tick(9000).reactions.is_empty());
}

#[test]
fn no_hint_when_waiting_for_a_new_button() {
    let mut g = SimonGame::new();
    g.handle_input(press(ArcadeInput::ButtonRightSide), 0);
    assert!(g.tick(5000).reactions.is_empty());
}

#[test]
fn names_of_buttons() {
    assert_eq!(input_name(ArcadeInput::ButtonTop3), "ButtonTop3");
    assert_eq!(input_from_name(&"JoyRight".to_string()), Some(ArcadeInput::JoyRight));
    assert_eq!(input_from_name(&"ButtonFront2".to_string()), Some(ArcadeInput::ButtonFront2));
    assert_eq!(input_from_name(&"Joy".to_string()), None);
}

#[test]
fn saved_text_is_a_json_array_of_names() {
    let g = SimonGame::with_sequence(vec![A, ArcadeInput::JoyUp]);
    assert_eq!(g.save_text(), "[\"ButtonTop1\",\"JoyUp\"]".to_string());
    assert_eq!(encode_sequence(&vec![]), "[]".to_string());
}

#[test]
fn save_then_load_round_trip() {
    let g = SimonGame::with_sequence(vec![A, B, C]);
    let text = g.save_text();
    let back = SimonGame::load(&text);
    assert_eq!(back.sequence.sequence, vec![A, B, C]);
    assert_eq!(back.progress.index, 0);
}

#[test]
fn decode_errors() {
    assert_eq!(decode_sequence("[\"JoyUp\", \"Nope\"]"), Err(PersistError::UnknownButton));
    assert_eq!(decode_sequence("not json"), Err(PersistError::Json));
    assert_eq!(decode_sequence("[1, 2]"), Err(PersistError::Json));
    assert_eq!(decode_sequence(" [ \"JoyLeft\" ] "), Ok(vec![ArcadeInput::JoyLeft]));
}

#[test]
fn unreadable_save_gives_empty_game() {
    let g = SimonGame::load("{broken");
    assert!(g.sequence.sequence.is_empty());
    assert_eq!(g.progress.index, 0);
}
