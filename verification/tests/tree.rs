use overstory::color::Color;
use overstory::edits::{Disclosure, RowColors, UiEdit};
use overstory::ids::ElementId;
use overstory::keys::{KeyboardInput, NavKey};
use overstory::tree::{
    TreeKeyboardAction, TreeRowAction, TreeRowIds, TreeRowPresentation, TreeViewController,
};

fn default_colors() -> RowColors {
    RowColors {
        background: Color::transparent(),
        selected_background: Color::transparent(),
        focused_background: Color::transparent(),
    }
}

/// Realizes one row per projected row, as the retained UI does, then syncs.
fn sync_rows(tree: &mut TreeViewController<u32>, rows: &[TreeRowPresentation<u32>], colors: RowColors) -> Vec<UiEdit> {
    let mut next = 100 + 10 * tree.realized_rows().len() as u32;
    while tree.realized_rows().len() < rows.len() {
        let key = rows[tree.realized_rows().len()].key;
        tree.push_realized_row(
            key,
            TreeRowIds {
                row: ElementId(next),
                content: ElementId(next + 1),
                indent: ElementId(next + 2),
                disclosure: ElementId(next + 3),
                label: ElementId(next + 4),
            },
        );
        next += 10;
    }
    tree.sync(rows, colors)
}

#[test]
fn disclosure_and_label_clicks_map_to_distinct_actions() {
    let mut tree = TreeViewController::<u32>::new(ElementId(1));
    sync_rows(
        &mut tree,
        &[TreeRowPresentation::new(7, "Node", 0, true, false, false, false)],
        default_colors(),
    );

    let row = tree.realized_rows()[0];
    assert_eq!(tree.handle_click(row.ids.disclosure), Some(TreeRowAction::Toggle(7)));
    assert_eq!(tree.handle_click(row.ids.label), Some(TreeRowAction::Select(7)));
    assert_eq!(tree.handle_click(row.ids.content), Some(TreeRowAction::Select(7)));
}

#[test]
fn selected_rows_apply_selected_background() {
    let mut tree = TreeViewController::<u32>::new(ElementId(1));
    let mut colors = default_colors();
    colors.selected_background = Color::rgba8(1, 2, 3, 255);
    let edits = sync_rows(
        &mut tree,
        &[TreeRowPresentation::new(1, "Selected", 1, false, false, true, false)],
        colors,
    );
    let row = tree.realized_rows()[0].ids.row;
    let background = edits.iter().find_map(|e| match e {
        UiEdit::SetBackground(id, c) if *id == row => Some(*c),
        _ => None,
    });
    assert_eq!(background, Some(Color::rgba8(1, 2, 3, 255)));
}

#[test]
fn keyboard_navigation_maps_from_focused_row() {
    let mut tree = TreeViewController::<u32>::new(ElementId(1));
    sync_rows(
        &mut tree,
        &[
            TreeRowPresentation::new(1, "One", 0, true, false, false, false),
            TreeRowPresentation::new(2, "Two", 1, false, false, false, true),
            TreeRowPresentation::new(3, "Three", 1, false, false, false, false),
        ],
        default_colors(),
    );

    assert_eq!(
        tree.handle_keyboard_event(&KeyboardInput::key_down(NavKey::ArrowUp)),
        Some(TreeKeyboardAction::Focus(1))
    );
    assert_eq!(
        tree.handle_keyboard_event(&KeyboardInput::key_down(NavKey::ArrowDown)),
        Some(TreeKeyboardAction::Focus(3))
    );
    assert_eq!(
        tree.handle_keyboard_event(&KeyboardInput::key_down(NavKey::Home)),
        Some(TreeKeyboardAction::Focus(1))
    );
    assert_eq!(
        tree.handle_keyboard_event(&KeyboardInput::key_down(NavKey::End)),
        Some(TreeKeyboardAction::Focus(3))
    );
    assert_eq!(
        tree.handle_keyboard_event(&KeyboardInput::key_down(NavKey::Enter)),
        Some(TreeKeyboardAction::Activate(2))
    );
}

#[test]
fn horizontal_arrows_use_tree_structure() {
    let mut tree = TreeViewController::<u32>::new(ElementId(1));
    sync_rows(
        &mut tree,
        &[
            TreeRowPresentation::new(1, "Root", 0, true, true, false, true),
            TreeRowPresentation::new(2, "Child", 1, false, false, false, false),
            TreeRowPresentation::new(3, "Sibling", 0, true, false, false, false),
        ],
        default_colors(),
    );

    assert_eq!(
        tree.handle_keyboard_event(&KeyboardInput::key_down(NavKey::ArrowRight)),
        Some(TreeKeyboardAction::Focus(2))
    );

    sync_rows(
        &mut tree,
        &[
            TreeRowPresentation::new(1, "Root", 0, true, true, false, false),
            TreeRowPresentation::new(2, "Child", 1, false, false, false, true),
            TreeRowPresentation::new(3, "Sibling", 0, true, false, false, false),
        ],
        default_colors(),
    );
    assert_eq!(
        tree.handle_keyboard_event(&KeyboardInput::key_down(NavKey::ArrowLeft)),
        Some(TreeKeyboardAction::Focus(1))
    );
}

#[test]
fn arrows_expand_and_collapse_toggleable_rows() {
    let mut tree = TreeViewController::<u32>::new(ElementId(1));
    sync_rows(
        &mut tree,
        &[TreeRowPresentation::new(4, "Parent", 0, true, false, false, true)],
        default_colors(),
    );
    assert_eq!(
        tree.handle_keyboard_event(&KeyboardInput::key_down(NavKey::ArrowRight)),
        Some(TreeKeyboardAction::Expand(4))
    );
    assert_eq!(tree.handle_keyboard_event(&KeyboardInput::key_down(NavKey::ArrowLeft)), None);
    sync_rows(
        &mut tree,
        &[TreeRowPresentation::new(4, "Parent", 0, true, true, false, true)],
        default_colors(),
    );
    assert_eq!(
        tree.handle_keyboard_event(&KeyboardInput::key_down(NavKey::ArrowLeft)),
        Some(TreeKeyboardAction::Collapse(4))
    );
}

#[test]
fn no_focused_row_means_no_action() {
    let mut tree = TreeViewController::<u32>::new(ElementId(1));
    sync_rows(
        &mut tree,
        &[TreeRowPresentation::new(1, "One", 0, false, false, false, false)],
        default_colors(),
    );
    assert_eq!(tree.handle_keyboard_event(&KeyboardInput::key_down(NavKey::Enter)), None);
    assert_eq!(tree.handle_click(ElementId(5)), None);
}

#[test]
fn left_from_a_deep_row_finds_the_nearest_parent() {
    let mut tree = TreeViewController::<u32>::new(ElementId(1));
    sync_rows(
        &mut tree,
        &[
            TreeRowPresentation::new(1, "a", 0, true, true, false, false),
            TreeRowPresentation::new(2, "b", 1, true, true, false, false),
            TreeRowPresentation::new(3, "c", 2, false, false, false, false),
            TreeRowPresentation::new(4, "d", 1, true, true, false, false),
            TreeRowPresentation::new(5, "e", 2, false, false, false, true),
        ],
        default_colors(),
    );
    assert_eq!(
        tree.handle_keyboard_event(&KeyboardInput::key_down(NavKey::ArrowLeft)),
        Some(TreeKeyboardAction::Focus(4))
    );
}

#[test]
fn sync_emits_disclosure_and_hides_extra_rows() {
    let mut tree = TreeViewController::<u32>::new(ElementId(1));
    sync_rows(
        &mut tree,
        &[
            TreeRowPresentation::new(1, "a", 0, true, false, false, false),
            TreeRowPresentation::new(2, "b", 3, false, false, false, false),
        ],
        default_colors(),
    );
    let edits = tree.sync(&[TreeRowPresentation::new(1, "a", 0, true, true, false, false)], default_colors());
    assert_eq!(edits.len(), 8);
    assert!(matches!(edits[2], UiEdit::SetIndentDepth(_, 0)));
    assert!(matches!(edits[3], UiEdit::SetDisclosure(_, Disclosure::Expanded)));
    assert!(matches!(edits[5], UiEdit::SetVisible(_, false)));
    assert_eq!(tree.realized_rows()[0].is_expanded, true);
    assert_eq!(tree.realized_rows()[1].depth, 3);
}

#[test]
fn navigation_stays_within_visible_rows() {
    let mut tree = TreeViewController::<u32>::new(ElementId(1));
    sync_rows(
        &mut tree,
        &[
            TreeRowPresentation::new(1, "One", 0, false, false, false, false),
            TreeRowPresentation::new(2, "Two", 0, false, false, false, true),
            TreeRowPresentation::new(3, "Three", 0, false, false, false, false),
        ],
        default_colors(),
    );
    // A shorter projection hides the third row.
    sync_rows(
        &mut tree,
        &[
            TreeRowPresentation::new(1, "One", 0, false, false, false, false),
            TreeRowPresentation::new(2, "Two", 0, false, false, false, true),
        ],
        default_colors(),
    );
    assert_eq!(tree.realized_rows().len(), 3);
    assert_eq!(
        tree.handle_keyboard_event(&KeyboardInput::key_down(NavKey::End)),
        Some(TreeKeyboardAction::Focus(2))
    );
    assert_eq!(tree.handle_keyboard_event(&KeyboardInput::key_down(NavKey::ArrowDown)), None);
    assert_eq!(tree.missing_rows(5), 2);
}
