use overstory::autocomplete::{
    AutocompleteAction, AutocompleteController, AutocompleteIds, AutocompleteOption,
};
use overstory::color::Color;
use overstory::edits::RowColors;
use overstory::ids::ElementId;
use overstory::keys::{KeyboardInput, NavKey};
use overstory::list::ListRowIds;
use overstory::runtime::Interaction;

const DEBOUNCE_NANOS: u64 = 150_000_000;

fn mount_controller() -> AutocompleteController<u32> {
    let ids = AutocompleteIds { input: ElementId(1), dropdown: ElementId(2), scroll_view: ElementId(3) };
    let colors = RowColors {
        background: Color::transparent(),
        selected_background: Color::transparent(),
        focused_background: Color::transparent(),
    };
    AutocompleteController::new(ids, DEBOUNCE_NANOS, colors)
}

/// Installs options and realizes their rows, as the retained UI does.
fn show_options(controller: &mut AutocompleteController<u32>, options: &[AutocompleteOption<u32>]) -> bool {
    controller.set_options(options);
    let mut next = 10;
    while controller.missing_rows() > 0 {
        controller.push_option_row(ListRowIds { row: ElementId(next), label: ElementId(next + 1) });
        next += 2;
    }
    controller.sync_view().open
}

fn refresh_text(action: Option<AutocompleteAction<u32>>) -> Option<String> {
    match action {
        Some(AutocompleteAction::RefreshQuery(q)) => Some(q),
        _ => None,
    }
}

#[test]
fn debounced_query_refreshes_from_input_text() {
    let mut controller = mount_controller();
    assert!(controller.sync_query_from_input(true, "de", 10).is_none());
    assert!(refresh_text(controller.take_due_query(100)).is_none());
    assert_eq!(
        refresh_text(controller.take_due_query(10 + controller.debounce_nanos())),
        Some(String::from("de"))
    );
}

#[test]
fn keyboard_accepts_focused_option_into_input() {
    let mut controller = mount_controller();
    controller.sync_query_from_input(true, "de", 0);
    assert!(show_options(
        &mut controller,
        &[AutocompleteOption::new(1, "Deploy"), AutocompleteOption::new(2, "Debug")],
    ));

    let down = KeyboardInput::key_down(NavKey::ArrowDown);
    let enter = KeyboardInput::key_down(NavKey::Enter);
    let (outcome, _) = controller.handle_keyboard_event(true, &down);
    assert!(outcome.consumed);
    let (outcome, effects) = controller.handle_keyboard_event(true, &enter);
    assert!(matches!(outcome.action, Some(AutocompleteAction::Accepted(2))));
    let effects = effects.expect("acceptance has effects");
    assert_eq!(effects.input_text.as_deref(), Some("Debug"));
    assert!(!controller.is_open());
}

#[test]
fn clicking_row_accepts_option() {
    let mut controller = mount_controller();
    show_options(&mut controller, &[AutocompleteOption::new(7, "Search").commit_text("search")]);
    let target = controller.realized_rows()[0].ids.label;
    let result = controller.handle_interactions(&[Interaction::Clicked(target)]);
    let (action, effects) = result.expect("row click accepts");
    assert!(matches!(action, AutocompleteAction::Accepted(7)));
    assert_eq!(effects.input_text.as_deref(), Some("search"));
}

#[test]
fn losing_focus_drops_pending_refresh_and_dismisses() {
    let mut controller = mount_controller();
    controller.sync_query_from_input(true, "de", 0);
    show_options(&mut controller, &[AutocompleteOption::new(1, "Deploy")]);
    assert_eq!(controller.next_deadline(), Some(DEBOUNCE_NANOS));
    let effects = controller.sync_query_from_input(false, "de", 5).expect("dismissal");
    assert!(!effects.open);
    assert_eq!(controller.next_deadline(), None);
    assert_eq!(controller.option_count(), 0);
}

#[test]
fn unchanged_and_cleared_queries() {
    let mut controller = mount_controller();
    controller.sync_query_from_input(true, "ab", 0);
    assert!(controller.sync_query_from_input(true, "ab", 50).is_none());
    assert_eq!(controller.next_deadline(), Some(DEBOUNCE_NANOS));
    let effects = controller.sync_query_from_input(true, "", 60).expect("clearing dismisses");
    assert!(!effects.open);
    assert_eq!(controller.next_deadline(), None);
}

#[test]
fn escape_dismisses_and_unfocused_input_is_ignored() {
    let mut controller = mount_controller();
    show_options(&mut controller, &[AutocompleteOption::new(1, "a"), AutocompleteOption::new(2, "b")]);
    let escape = KeyboardInput::key_down(NavKey::Escape);
    let (outcome, _) = controller.handle_keyboard_event(false, &escape);
    assert!(!outcome.consumed);
    assert!(controller.is_open());
    let (outcome, effects) = controller.handle_keyboard_event(true, &escape);
    assert!(outcome.consumed);
    assert!(matches!(outcome.action, Some(AutocompleteAction::Dismissed)));
    assert!(!effects.expect("dismissal").open);
    assert!(!controller.is_open());
}

#[test]
fn clicking_elsewhere_dismisses() {
    let mut controller = mount_controller();
    show_options(&mut controller, &[AutocompleteOption::new(1, "a")]);
    assert!(controller.handle_interactions(&[Interaction::Clicked(ElementId(1))]).is_none());
    let result = controller.handle_interactions(&[Interaction::FocusChanged(ElementId(42))]);
    assert!(matches!(result, Some((AutocompleteAction::Dismissed, _))));
    assert!(!controller.is_open());
}
