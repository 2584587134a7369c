use overstory::svg_layers::{LayerGroupOpen, LayerGroups};

#[test]
fn layers_open_groups_only_when_they_clip_or_composite() {
    let mut groups = LayerGroups::new(0);
    assert_eq!(
        groups.push_layer(true, false, false),
        LayerGroupOpen { open: true, clip_id: Some(1), filter_id: None }
    );
    assert_eq!(
        groups.push_layer(false, false, false),
        LayerGroupOpen { open: false, clip_id: None, filter_id: None }
    );
    assert_eq!(
        groups.push_layer(true, true, true),
        LayerGroupOpen { open: true, clip_id: Some(2), filter_id: Some(1) }
    );
    assert_eq!(
        groups.push_layer(false, false, true),
        LayerGroupOpen { open: true, clip_id: None, filter_id: None }
    );
    assert!(groups.pop_layer());
    assert!(groups.pop_layer());
    assert!(!groups.pop_layer());
    // One layer left open, and it opened a group.
    assert_eq!(groups.close_all(), 1);
    assert_eq!(groups.close_all(), 0);
}

#[test]
fn every_opened_group_is_closed_once() {
    let mut groups = LayerGroups::new(10_000);
    let mut opened = 0;
    let mut closed = 0;
    for (clip, effects) in [(true, false), (false, true), (false, false), (true, true)] {
        if groups.push_layer(clip, false, effects).open {
            opened += 1;
        }
    }
    if groups.pop_layer() {
        closed += 1;
    }
    closed += groups.close_all();
    assert_eq!(opened, 3);
    assert_eq!(closed, 3);
}

#[test]
fn fragment_definitions_are_numbered_past_the_base() {
    let mut groups = LayerGroups::new(10_000);
    assert_eq!(groups.push_layer(true, true, true).clip_id, Some(10_001));
    assert_eq!(groups.push_layer(true, true, true).filter_id, Some(10_002));
}
