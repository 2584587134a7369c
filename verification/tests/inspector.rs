use overstory::edits::UiEdit;
use overstory::ids::ElementId;
use overstory::inspector::{InspectorTreeClick, InspectorTreeController, InspectorVisibleRow};

fn row(key: u32, depth: usize, has_children: bool, is_expanded: bool) -> InspectorVisibleRow<u32> {
    InspectorVisibleRow {
        key,
        depth,
        has_children,
        is_expanded,
    }
}

fn texts(edits: &[UiEdit]) -> Vec<(u32, Option<String>)> {
    edits
        .iter()
        .filter_map(|e| match e {
            UiEdit::SetText(id, t) => Some((id.0, Some(t.clone()))),
            UiEdit::ClearText(id) => Some((id.0, None)),
            _ => None,
        })
        .collect()
}

fn realize(controller: &mut InspectorTreeController<u32>, visible: &[InspectorVisibleRow<u32>], first: u32) {
    let missing = controller.missing_rows(visible.len());
    for i in 0..missing {
        controller.push_realized_row(visible, ElementId(first + i as u32));
    }
}

#[test]
fn sync_realizes_rows_and_composes_labels() {
    let mut controller = InspectorTreeController::new(ElementId(1));
    assert_eq!(controller.scroll_view(), ElementId(1));
    let visible = [row(10, 0, true, true), row(11, 1, false, false), row(12, 1, true, false)];
    assert_eq!(controller.missing_rows(visible.len()), 3);
    realize(&mut controller, &visible, 100);
    assert_eq!(controller.missing_rows(visible.len()), 0);
    assert_eq!(controller.realized_rows().len(), 3);

    let items = vec![String::from("root"), String::from("leaf"), String::from("branch")];
    let edits = controller.sync(&visible, &items, Some(11));
    assert_eq!(
        texts(&edits),
        vec![
            (100, Some(String::from("▾ root"))),
            (101, Some(String::from("    ● leaf"))),
            (102, Some(String::from("  ▸ branch"))),
        ]
    );
    assert!(edits.iter().all(|e| !matches!(e, UiEdit::SetVisible(_, false))));
}

#[test]
fn rows_past_the_projection_are_emptied_and_hidden() {
    let mut controller = InspectorTreeController::new(ElementId(1));
    let visible = [row(1, 0, false, false), row(2, 0, false, false)];
    realize(&mut controller, &visible, 50);
    let shorter = [row(3, 0, false, false)];
    let edits = controller.sync(&shorter, &[String::from("only")], None);
    assert_eq!(edits.len(), 4);
    assert!(matches!(&edits[0], UiEdit::SetText(ElementId(50), t) if t == "  only"));
    assert!(matches!(edits[1], UiEdit::SetVisible(ElementId(50), true)));
    assert!(matches!(edits[2], UiEdit::ClearText(ElementId(51))));
    assert!(matches!(edits[3], UiEdit::SetVisible(ElementId(51), false)));
    assert_eq!(controller.realized_rows()[0].key, 3);
    assert_eq!(controller.realized_rows()[1].key, 2);
}

#[test]
fn clicks_report_key_and_toggle_for_parents() {
    let mut controller = InspectorTreeController::new(ElementId(1));
    let visible = [row(10, 0, true, false), row(11, 0, false, false)];
    realize(&mut controller, &visible, 20);
    assert_eq!(
        controller.handle_row_click(ElementId(20), &visible),
        Some(InspectorTreeClick { key: 10, toggled: true })
    );
    assert_eq!(
        controller.handle_row_click(ElementId(21), &visible),
        Some(InspectorTreeClick { key: 11, toggled: false })
    );
    assert_eq!(controller.handle_row_click(ElementId(99), &visible), None);
    // A realized row without a visible counterpart does not map to a click.
    assert_eq!(controller.handle_row_click(ElementId(21), &visible[..1]), None);
}
