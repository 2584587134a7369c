use overstory::color::Color;
use overstory::glob::{any_filter_matches, matches_glob, parse_case_filters};
use overstory::ids::SemanticId;
use overstory::imaging::{
    blend_mode_css, can_reuse, classify_transform_diff, fill_rule_svg, stroke_cap_svg, stroke_join_svg,
    BlendMode, Cap, Compose, FillRule, Join, LayerOp, Mix, TransformClass,
};
use overstory::timer::TimerQueue;
use overstory::inspector::{inspector_row_label, InspectorTreeLabels};
use overstory::runtime::{HoverEvent, HoverState, Interaction, InteractionBatch, RuntimeState};
use overstory::text_block::TextBlock;
use overstory::ids::ElementId;

#[test]
fn color_channels_round_trip() {
    let c = Color::rgba8(0x12, 0x34, 0x56, 0x78);
    assert_eq!(c.to_rgba8(), 0x1234_5678);
    assert_eq!((c.r(), c.g(), c.b(), c.a()), (0x12, 0x34, 0x56, 0x78));
    assert_eq!(Color::rgba8(c.r(), c.g(), c.b(), c.a()), c);
    assert_eq!(Color::black().to_rgba8(), 0x0000_00ff);
    assert_eq!(Color::white().to_rgba8(), 0xffff_ffff);
    assert_eq!(Color::transparent().to_rgba8(), 0);
}

#[test]
fn semantic_ids_round_trip() {
    assert_eq!(SemanticId::new(42).get(), 42);
    assert!(SemanticId::new(1) < SemanticId::new(2));
}

#[test]
fn glob_patterns() {
    assert!(matches_glob("*", "anything"));
    assert!(matches_glob("*", ""));
    assert!(matches_glob("clip_rect", "clip_rect"));
    assert!(!matches_glob("clip_rect", "clip_rects"));
    assert!(matches_glob("clip_*", "clip_rect"));
    assert!(!matches_glob("clip_*", "image_clip"));
    assert!(matches_glob("*_rect", "clip_rect"));
    assert!(matches_glob("*clip*", "image_clip_path"));
    assert!(matches_glob("a*b*c", "axxbyyc"));
    assert!(!matches_glob("a*b*c", "axxbyyd"));
    assert!(matches_glob("a**c", "abc"));
    // A `*` matches any run of characters, so a later occurrence of a part
    // can be the one that ends the text.
    assert!(matches_glob("*a", "aba"));
    assert!(matches_glob("*ab", "abab"));
    assert!(matches_glob("a*b", "abab"));
    assert!(matches_glob("*a", "ba"));
    assert!(!matches_glob("*a", "ab"));
    assert!(!matches_glob("a*", ""));
    assert!(matches_glob("", ""));
    assert!(!matches_glob("", "x"));
}

#[test]
fn transform_class_support_follows_the_hierarchy() {
    let all = [
        TransformClass::Exact,
        TransformClass::TranslateOnly,
        TransformClass::Orthonormal,
        TransformClass::Affine,
    ];
    for (i, a) in all.iter().enumerate() {
        for (j, b) in all.iter().enumerate() {
            assert_eq!(a.supports(*b), j <= i);
        }
    }
}

#[test]
fn fill_rules_in_svg() {
    assert_eq!(fill_rule_svg(FillRule::NonZero), "nonzero");
    assert_eq!(fill_rule_svg(FillRule::EvenOdd), "evenodd");
}

#[test]
fn text_block_text() {
    let mut t = TextBlock::new();
    assert_eq!(t.text(), None);
    t.set_text("hello");
    assert_eq!(t.text(), Some("hello"));
    t.set_text("");
    assert_eq!(t.text(), None);
}

#[test]
fn hover_paths_produce_enter_and_leave() {
    let mut hover = HoverState::<u32>::new();
    assert_eq!(
        hover.update_path(&[1, 2, 3]),
        vec![HoverEvent::Enter(1), HoverEvent::Enter(2), HoverEvent::Enter(3)]
    );
    assert_eq!(hover.update_path(&[1, 2, 4]), vec![HoverEvent::Leave(3), HoverEvent::Enter(4)]);
    assert_eq!(hover.update_path(&[1, 2, 4]), vec![]);
    assert_eq!(
        hover.update_path(&[5]),
        vec![HoverEvent::Leave(4), HoverEvent::Leave(2), HoverEvent::Leave(1), HoverEvent::Enter(5)]
    );
    assert_eq!(hover.current_path(), &[5]);
}

#[test]
fn runtime_state_starts_empty() {
    let state = RuntimeState::new();
    assert!(state.hovered_path().is_empty());
    assert_eq!(state.pressed_target(), None);
}

#[test]
fn interaction_batches_keep_emission_order() {
    let mut batch = InteractionBatch::new();
    assert!(batch.is_empty());
    batch.push(Interaction::HoverEntered(ElementId(1)));
    batch.push(Interaction::Clicked(ElementId(2)));
    assert!(!batch.is_empty());
    assert_eq!(
        batch.events(),
        &[Interaction::HoverEntered(ElementId(1)), Interaction::Clicked(ElementId(2))]
    );
}

#[test]
fn inspector_labels_compose_indent_disclosure_marker_and_item() {
    let labels = InspectorTreeLabels {
        indent_unit: String::from("  "),
        expanded_prefix: String::from("v "),
        collapsed_prefix: String::from("> "),
        leaf_prefix: String::from("  "),
        selected_prefix: String::from("* "),
        unselected_prefix: String::new(),
    };
    assert_eq!(inspector_row_label(&labels, 2, true, false, true, "node"), "    > * node");
    assert_eq!(inspector_row_label(&labels, 0, true, true, false, "root"), "v root");
    assert_eq!(inspector_row_label(&labels, 1, false, false, false, "leaf"), "    leaf");
}

#[test]
fn case_filters_split_on_commas_and_whitespace() {
    assert_eq!(
        parse_case_filters("clip_*,fill_rule_*"),
        Some(vec![String::from("clip_*"), String::from("fill_rule_*")])
    );
    assert_eq!(
        parse_case_filters(" stroke_styles ,\tclip_*\n\nimage_*,"),
        Some(vec![
            String::from("stroke_styles"),
            String::from("clip_*"),
            String::from("image_*"),
        ])
    );
    assert_eq!(parse_case_filters("stroke_styles"), Some(vec![String::from("stroke_styles")]));
    assert_eq!(parse_case_filters(""), None);
    assert_eq!(parse_case_filters(" ,, \t"), None);
}

#[test]
fn any_filter_selects_matching_case_names() {
    let filters = parse_case_filters("clip_*,fill_rule_*").unwrap();
    assert!(any_filter_matches(&filters, "clip_rounded_rect"));
    assert!(any_filter_matches(&filters, "fill_rule_nonzero_vs_evenodd"));
    assert!(!any_filter_matches(&filters, "image_scaled"));
    assert!(!any_filter_matches(&[], "clip_rounded_rect"));
}

#[test]
fn transform_differences_are_classified_conservatively() {
    assert_eq!(classify_transform_diff(true, true), TransformClass::Exact);
    assert_eq!(classify_transform_diff(false, true), TransformClass::TranslateOnly);
    assert_eq!(classify_transform_diff(false, false), TransformClass::Affine);
}

#[test]
fn recordings_are_reused_only_with_acceleration_and_a_supported_difference() {
    let exact = TransformClass::Exact;
    let translate = TransformClass::TranslateOnly;
    assert!(can_reuse(true, translate, Some(exact)));
    assert!(can_reuse(true, translate, Some(translate)));
    assert!(!can_reuse(true, translate, Some(TransformClass::Affine)));
    assert!(!can_reuse(false, TransformClass::Affine, Some(exact)));
    assert!(!can_reuse(true, TransformClass::Affine, None));
    assert!(can_reuse(true, TransformClass::Affine, Some(TransformClass::Orthonormal)));
}

#[test]
fn stroke_caps_and_joins_in_svg() {
    assert_eq!(stroke_cap_svg(Cap::Butt), "butt");
    assert_eq!(stroke_cap_svg(Cap::Round), "round");
    assert_eq!(stroke_cap_svg(Cap::Square), "square");
    assert_eq!(stroke_join_svg(Join::Miter), "miter");
    assert_eq!(stroke_join_svg(Join::Round), "round");
    assert_eq!(stroke_join_svg(Join::Bevel), "bevel");
}

#[test]
fn blend_modes_in_css() {
    let over = |mix| BlendMode { mix, compose: Compose::SrcOver };
    assert_eq!(blend_mode_css(&over(Mix::Normal)), None);
    assert_eq!(blend_mode_css(&over(Mix::Multiply)), Some("multiply"));
    assert_eq!(blend_mode_css(&over(Mix::ColorDodge)), Some("color-dodge"));
    assert_eq!(blend_mode_css(&over(Mix::Luminosity)), Some("luminosity"));
    assert_eq!(
        blend_mode_css(&BlendMode { mix: Mix::Multiply, compose: Compose::Xor }),
        None
    );
    assert_eq!(
        blend_mode_css(&BlendMode { mix: Mix::Normal, compose: Compose::Copy }),
        None
    );
}

#[test]
fn defaults_are_empty() {
    let queue = TimerQueue::default();
    assert!(queue.is_empty());
    assert_eq!(queue.next_deadline(), None);
    let state = RuntimeState::default();
    assert!(state.hovered_path().is_empty());
    assert_eq!(state.pressed_target(), None);
    assert!(InteractionBatch::default().is_empty());
}

#[test]
fn layer_ops_report_their_effects() {
    let none: LayerOp<u8, u8, u8, f32> = LayerOp { clip: None, filter: None, blend: None, opacity: None };
    assert!(none.is_noop());
    assert!(!none.has_compositing_effects());
    let clip_only = LayerOp { clip: Some(1u8), ..none.clone() };
    assert!(!clip_only.is_noop());
    assert!(!clip_only.has_compositing_effects());
    let faded = LayerOp { opacity: Some(0.5f32), ..none.clone() };
    assert!(faded.has_compositing_effects());
    assert!(!faded.is_noop());
}
