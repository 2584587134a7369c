use overstory::color::Color;
use overstory::edits::{RowColors, UiEdit};
use overstory::ids::ElementId;
use overstory::keys::{KeyboardInput, NavKey};
use overstory::list::{
    ListKeyboardAction, ListRowAction, ListRowIds, ListRowPresentation, ListViewController,
};

fn colors() -> RowColors {
    RowColors {
        background: Color::transparent(),
        selected_background: Color::rgba8(1, 2, 3, 255),
        focused_background: Color::rgba8(4, 5, 6, 255),
    }
}

/// Realizes one row per projected row, as the retained UI does, then syncs.
fn mount(rows: &[ListRowPresentation<u32>]) -> (ListViewController<u32>, Vec<UiEdit>) {
    let mut list = ListViewController::<u32>::new(ElementId(1));
    let mut next = 10;
    for _ in 0..list.missing_rows(rows.len()) {
        let key = rows[list.realized_rows().len()].key;
        list.push_realized_row(key, ListRowIds { row: ElementId(next), label: ElementId(next + 1) });
        next += 2;
    }
    assert_eq!(list.missing_rows(rows.len()), 0);
    let edits = list.sync(rows, colors());
    (list, edits)
}

#[test]
fn clicking_row_selects_it() {
    let (mut list, _) = mount(&[ListRowPresentation::new(1, "One"), ListRowPresentation::new(2, "Two")]);
    let ids = list.realized_rows()[1].ids;
    assert_eq!(list.handle_click(ids.label), Some(ListRowAction::Select(2)));
    assert_eq!(list.focused_key(), Some(&2));
    assert_eq!(list.selected_key(), Some(&2));
}

#[test]
fn keyboard_navigation_updates_focus_and_selection() {
    let (mut list, _) = mount(&[
        ListRowPresentation::new(1, "One"),
        ListRowPresentation::new(2, "Two"),
        ListRowPresentation::new(3, "Three"),
    ]);

    list.set_focused_key(Some(2));
    assert_eq!(
        list.handle_keyboard_event(&KeyboardInput::key_down(NavKey::ArrowUp)),
        Some(ListKeyboardAction::Focus(1))
    );
    list.set_focused_key(Some(2));
    assert_eq!(
        list.handle_keyboard_event(&KeyboardInput::key_down(NavKey::ArrowDown)),
        Some(ListKeyboardAction::Focus(3))
    );
    list.set_focused_key(Some(2));
    assert_eq!(
        list.handle_keyboard_event(&KeyboardInput::key_down(NavKey::Home)),
        Some(ListKeyboardAction::Focus(1))
    );
    list.set_focused_key(Some(2));
    assert_eq!(
        list.handle_keyboard_event(&KeyboardInput::key_down(NavKey::End)),
        Some(ListKeyboardAction::Focus(3))
    );
    list.set_focused_key(Some(2));
    assert_eq!(
        list.handle_keyboard_event(&KeyboardInput::key_down(NavKey::Enter)),
        Some(ListKeyboardAction::Activate(2))
    );
    assert_eq!(list.selected_key(), Some(&2));
}

#[test]
fn composite_navigation_methods_update_state() {
    let (mut list, _) = mount(&[
        ListRowPresentation::new(1, "One"),
        ListRowPresentation::new(2, "Two"),
        ListRowPresentation::new(3, "Three"),
    ]);

    assert_eq!(list.focused_key(), Some(&1));
    assert_eq!(list.focus_next_visible(), Some(2));
    assert_eq!(list.focus_prev_visible(), Some(1));
    assert_eq!(list.focus_last_visible(), Some(3));
    assert_eq!(list.focus_first_visible(), Some(1));
    assert_eq!(list.activate_focused(), Some(1));
    assert_eq!(list.selected_key(), Some(&1));
}

#[test]
fn key_release_and_unknown_keys_do_nothing() {
    let (mut list, _) = mount(&[ListRowPresentation::new(1, "One"), ListRowPresentation::new(2, "Two")]);
    assert_eq!(list.handle_keyboard_event(&KeyboardInput::key_up(NavKey::ArrowDown)), None);
    assert_eq!(list.handle_keyboard_event(&KeyboardInput::key_down(NavKey::Escape)), None);
    assert_eq!(list.focused_key(), Some(&1));
    assert_eq!(
        list.handle_keyboard_event(&KeyboardInput::key_down(NavKey::Space)),
        Some(ListKeyboardAction::Activate(1))
    );
}

#[test]
fn navigation_stops_at_the_ends() {
    let (mut list, _) = mount(&[ListRowPresentation::new(1, "One"), ListRowPresentation::new(2, "Two")]);
    assert_eq!(list.focus_prev_visible(), None);
    assert_eq!(list.focused_key(), Some(&1));
    list.set_focused_key(Some(2));
    assert_eq!(list.focus_next_visible(), None);
    assert_eq!(list.focused_key(), Some(&2));
}

#[test]
fn next_then_prev_restores_focus() {
    let (mut list, _) = mount(&[
        ListRowPresentation::new(5, "a"),
        ListRowPresentation::new(6, "b"),
        ListRowPresentation::new(7, "c"),
    ]);
    list.set_focused_key(Some(6));
    assert_eq!(list.focus_next_visible(), Some(7));
    assert_eq!(list.focus_prev_visible(), Some(6));
}

#[test]
fn sync_moves_focus_and_clears_hidden_selection() {
    let (mut list, _) = mount(&[ListRowPresentation::new(1, "One"), ListRowPresentation::new(2, "Two")]);
    list.set_focused_key(Some(2));
    list.set_selected_key(Some(2));
    let edits = list.sync(&[ListRowPresentation::new(1, "Only")], colors());
    assert_eq!(list.focused_key(), Some(&1));
    assert_eq!(list.selected_key(), None);
    assert_eq!(edits.len(), 5);
    match &edits[2] {
        UiEdit::SetText(id, text) => {
            assert_eq!(*id, ElementId(11));
            assert_eq!(text.as_str(), "Only");
        }
        other => panic!("unexpected edit {other:?}"),
    }
    assert!(matches!(edits[3], UiEdit::SetVisible(ElementId(12), false)));
    assert!(matches!(edits[4], UiEdit::ClearText(ElementId(13))));
}

#[test]
fn sync_with_no_rows_clears_focus_and_selection() {
    let (mut list, _) = mount(&[ListRowPresentation::new(1, "One")]);
    list.set_selected_key(Some(1));
    let edits = list.sync(&[], colors());
    assert_eq!(list.focused_key(), None);
    assert_eq!(list.selected_key(), None);
    assert_eq!(edits.len(), 2);
}

#[test]
fn selected_and_focused_rows_get_their_backgrounds() {
    let (mut list, _) = mount(&[ListRowPresentation::new(1, "One"), ListRowPresentation::new(2, "Two")]);
    list.set_selected_key(Some(2));
    let edits = list.sync(&[ListRowPresentation::new(1, "One"), ListRowPresentation::new(2, "Two")], colors());
    match (&edits[1], &edits[4]) {
        (UiEdit::SetBackground(_, focused), UiEdit::SetBackground(_, selected)) => {
            assert_eq!(*focused, Color::rgba8(4, 5, 6, 255));
            assert_eq!(*selected, Color::rgba8(1, 2, 3, 255));
        }
        _ => panic!("expected background edits"),
    }
}

#[test]
fn clicking_elsewhere_is_ignored() {
    let (mut list, _) = mount(&[ListRowPresentation::new(1, "One")]);
    assert_eq!(list.handle_click(ElementId(999)), None);
    assert_eq!(list.selected_key(), None);
}

#[test]
fn focus_moves_only_over_visible_rows() {
    let (mut list, _) = mount(&[
        ListRowPresentation::new(1, "One"),
        ListRowPresentation::new(2, "Two"),
        ListRowPresentation::new(3, "Three"),
    ]);
    // A shorter projection hides the third row.
    list.sync(&[ListRowPresentation::new(1, "One"), ListRowPresentation::new(2, "Two")], colors());
    assert_eq!(list.realized_rows().len(), 3);
    assert_eq!(list.focus_last_visible(), Some(2));
    assert_eq!(list.focused_key(), Some(&2));
    assert_eq!(list.focus_next_visible(), None);
    assert_eq!(list.focused_key(), Some(&2));
    assert_eq!(list.focus_first_visible(), Some(1));
    // A row realized after the last sync is not visible until a sync shows it.
    list.push_realized_row(4, ListRowIds { row: ElementId(90), label: ElementId(91) });
    assert_eq!(list.focus_last_visible(), Some(2));
}

#[test]
fn missing_rows_counts_rows_to_realize() {
    let list = ListViewController::<u32>::new(ElementId(1));
    assert_eq!(list.missing_rows(3), 3);
    assert_eq!(list.missing_rows(0), 0);
    let (list, _) = mount(&[ListRowPresentation::new(1, "One")]);
    assert_eq!(list.missing_rows(1), 0);
    assert_eq!(list.missing_rows(4), 3);
}
