use sagi::Direction;
use sagi::GuiOp;
use sagi::Launch;
use sagi::SelectableFrame;
use sagi::SwitcherAction;
use sagi::SwitcherState;
use sagi::WindowRegistry;
use sagi::step;

fn populated_registry() -> WindowRegistry {
    let mut r = WindowRegistry::new();
    r.register(String::from("firefox"), 1, String::from("Tab1"));
    r.register(String::from("kitty"), 2, String::from("term"));
    r.register(String::from("gimp"), 3, String::from("canvas"));
    r
}

fn cursor_of(state: &SwitcherState) -> usize {
    match state {
        SwitcherState::Open { cursor, .. } => *cursor,
        SwitcherState::Closed => panic!("expected the switcher to be open"),
    }
}

#[test]
fn closed_select_current_stays_closed_without_activation() {
    let r = WindowRegistry::new();
    let (state, action) = step(SwitcherState::Closed, GuiOp::SelectCurrent, &r);
    assert!(matches!(state, SwitcherState::Closed));
    assert_eq!(action, SwitcherAction::DoNothing);
}

#[test]
fn closed_move_cursor_is_noop() {
    let r = populated_registry();
    let (state, action) = step(SwitcherState::Closed, GuiOp::MoveCursor(Direction::Next), &r);
    assert!(matches!(state, SwitcherState::Closed));
    assert_eq!(action, SwitcherAction::DoNothing);
}

#[test]
fn launch_opens_over_snapshot_at_cursor_zero() {
    let r = populated_registry();
    let (state, action) = step(SwitcherState::Closed, GuiOp::Launch(Launch::App), &r);
    assert_eq!(action, SwitcherAction::AcquireSurface);
    match &state {
        SwitcherState::Open { snapshot, frames, cursor } => {
            assert_eq!(*cursor, 0);
            assert_eq!(snapshot.len(), 3);
            assert_eq!(snapshot[0].class, "firefox");
            assert_eq!(frames.len(), 3);
            assert!(frames[0].is_selected());
            assert!(!frames[1].is_selected());
            assert!(!frames[2].is_selected());
        },
        SwitcherState::Closed => panic!("expected the switcher to be open"),
    }
    // A second Launch while open changes nothing.
    let (state, action) = step(state, GuiOp::Launch(Launch::WindowInApp), &r);
    assert_eq!(action, SwitcherAction::DoNothing);
    assert_eq!(cursor_of(&state), 0);
}

#[test]
fn move_cursor_wraps_at_both_ends() {
    let r = populated_registry();
    let (state, _) = step(SwitcherState::Closed, GuiOp::Launch(Launch::App), &r);

    // Prev at index 0 wraps to the last index.
    let (state, action) = step(state, GuiOp::MoveCursor(Direction::Prev), &r);
    assert_eq!(action, SwitcherAction::UpdateHighlight);
    assert_eq!(cursor_of(&state), 2);

    // Next at the last index wraps to 0.
    let (state, action) = step(state, GuiOp::MoveCursor(Direction::Next), &r);
    assert_eq!(action, SwitcherAction::UpdateHighlight);
    assert_eq!(cursor_of(&state), 0);

    // Plain steps in between.
    let (state, _) = step(state, GuiOp::MoveCursor(Direction::Next), &r);
    assert_eq!(cursor_of(&state), 1);
    let (state, _) = step(state, GuiOp::MoveCursor(Direction::Prev), &r);
    assert_eq!(cursor_of(&state), 0);
}

#[test]
fn highlight_follows_cursor() {
    let r = populated_registry();
    let (state, _) = step(SwitcherState::Closed, GuiOp::Launch(Launch::App), &r);
    let (state, _) = step(state, GuiOp::MoveCursor(Direction::Next), &r);
    match &state {
        SwitcherState::Open { frames, cursor, .. } => {
            assert_eq!(*cursor, 1);
            for (k, f) in frames.iter().enumerate() {
                assert_eq!(f.is_selected(), k == *cursor);
            }
        },
        SwitcherState::Closed => panic!("expected the switcher to be open"),
    }
}

#[test]
fn cursor_ops_are_noops_over_empty_snapshot() {
    let empty = WindowRegistry::new();
    let (state, _) = step(SwitcherState::Closed, GuiOp::Launch(Launch::App), &empty);
    let (state, action) = step(state, GuiOp::MoveCursor(Direction::Next), &empty);
    assert_eq!(action, SwitcherAction::DoNothing);
    assert_eq!(cursor_of(&state), 0);
    let (state, action) = step(state, GuiOp::SelectCurrent, &empty);
    assert_eq!(action, SwitcherAction::DoNothing);
    assert!(matches!(state, SwitcherState::Open { .. }));
}

#[test]
fn select_current_activates_front_window_and_closes() {
    let r = populated_registry();
    let (state, _) = step(SwitcherState::Closed, GuiOp::Launch(Launch::App), &r);
    let (state, _) = step(state, GuiOp::MoveCursor(Direction::Next), &r);
    let (state, action) = step(state, GuiOp::SelectCurrent, &r);
    assert!(matches!(state, SwitcherState::Closed));
    assert_eq!(action, SwitcherAction::ActivateAndRelease(2));
}

#[test]
fn show_windows_is_a_noop_in_both_states() {
    let r = populated_registry();
    let (state, action) = step(SwitcherState::Closed, GuiOp::ShowWindows, &r);
    assert!(matches!(state, SwitcherState::Closed));
    assert_eq!(action, SwitcherAction::DoNothing);
    let (state, _) = step(state, GuiOp::Launch(Launch::App), &r);
    let (state, action) = step(state, GuiOp::ShowWindows, &r);
    assert!(matches!(state, SwitcherState::Open { .. }));
    assert_eq!(action, SwitcherAction::DoNothing);
}

#[test]
fn switching_after_focus_changes_follows_mru_order() {
    // The compositor reports three openings, then a focus change to kitty:
    // kitty moves to the front, so opening the switcher and selecting the
    // second group activates firefox's front window.
    let mut r = WindowRegistry::new();
    r.apply_event(sagi::CompositorEvent::WindowOpened {
        class: String::from("firefox"),
        handle: 1,
        title: String::from("Tab1"),
    });
    r.apply_event(sagi::CompositorEvent::WindowOpened {
        class: String::from("firefox"),
        handle: 2,
        title: String::from("Tab2"),
    });
    r.apply_event(sagi::CompositorEvent::WindowOpened {
        class: String::from("kitty"),
        handle: 3,
        title: String::from("term"),
    });
    r.apply_event(sagi::CompositorEvent::ActiveChanged {
        class: String::from("kitty"),
        handle: 3,
    });

    let (state, _) = step(SwitcherState::Closed, GuiOp::Launch(Launch::App), &r);
    let (state, _) = step(state, GuiOp::MoveCursor(Direction::Next), &r);
    let (state, action) = step(state, GuiOp::SelectCurrent, &r);
    assert!(matches!(state, SwitcherState::Closed));
    assert_eq!(action, SwitcherAction::ActivateAndRelease(1));
}

#[test]
fn selectable_frame_tracks_selection() {
    let mut f = SelectableFrame::new();
    assert!(!f.is_selected());
    f.select();
    assert!(f.is_selected());
    f.deselect();
    assert!(!f.is_selected());
}
