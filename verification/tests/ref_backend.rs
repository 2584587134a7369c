use kurbo::Affine;
use overstory::imaging::{
    record_ops, ImageId, ImagingBackend, ImagingTypes, PaintId, PathId, PictureId, Recording, TransformClass,
};
use overstory::ref_backend::{Event, RefBackend};
use peniko::{Brush, Color};

#[derive(Clone, Debug, PartialEq)]
enum PathCmd {
    MoveTo { x: f32, y: f32 },
}

#[derive(Clone, Debug, PartialEq)]
struct PathDesc {
    commands: Box<[PathCmd]>,
}

#[derive(Clone, Debug, PartialEq)]
struct ImageDesc {
    width: u32,
    height: u32,
}

#[derive(Clone, Debug, PartialEq)]
struct PaintDesc {
    brush: Brush,
}

#[derive(Clone, Debug)]
struct PictureDesc {
    recording: Recording<ImagingOp>,
}

#[derive(Clone, Debug, PartialEq)]
enum ClipShape {
    Infinite,
    Rect { x0: f64, y0: f64, x1: f64, y1: f64 },
}

/// The value types of the imaging operations in these tests.
#[derive(Clone, Debug, PartialEq)]
struct Types;

impl ImagingTypes for Types {
    type Transform = Affine;
    type Clip = ClipShape;
    type Stroke = kurbo::Stroke;
    type Blend = peniko::BlendMode;
    type Opacity = f32;
    type Group = ();
    type Rect = (f32, f32, f32, f32);
    type PathDesc = PathDesc;
    type ImageDesc = ImageDesc;
    type PaintDesc = PaintDesc;
    type PictureDesc = PictureDesc;
}

type StateOp = overstory::imaging::StateOp<Types>;
type DrawOp = overstory::imaging::DrawOp<Types>;
type ImagingOp = overstory::imaging::ImagingOp<Types>;
type StateSnapshot = overstory::ref_backend::StateSnapshot<Types>;
type Backend = RefBackend<Types>;

/// The snapshot a fresh backend starts from.
fn initial_state() -> StateSnapshot {
    StateSnapshot::new(Affine::IDENTITY, ClipShape::Infinite, peniko::BlendMode::default(), 1.0)
}

fn new_backend() -> Backend {
    Backend::new(initial_state())
}

fn white_paint() -> PaintDesc {
    PaintDesc {
        brush: Brush::Solid(Color::WHITE),
    }
}

fn origin_path() -> PathDesc {
    PathDesc {
        commands: vec![PathCmd::MoveTo { x: 0.0, y: 0.0 }].into_boxed_slice(),
    }
}

#[test]
fn basic_state_and_draw() {
    let mut backend = new_backend();

    let paint = backend.create_paint(white_paint());
    let path = backend.create_path(origin_path());

    backend.state(StateOp::SetPaint(paint));
    backend.draw(DrawOp::FillPath(path));

    assert_eq!(backend.events().len(), 2);
    assert_eq!(backend.ops().len(), 2);
    assert_eq!(
        backend.ops(),
        &[
            ImagingOp::State(StateOp::SetPaint(paint)),
            ImagingOp::Draw(DrawOp::FillPath(path)),
        ]
    );
}

#[test]
fn recording_captures_suffix_of_ops() {
    let mut backend = new_backend();

    let img = backend.create_image(
        ImageDesc {
            width: 1,
            height: 1,
        },
        &[0_u8, 0, 0, 0],
    );

    // One op before recording.
    backend.state(StateOp::SetOpacity(0.5));

    backend.begin_record();
    backend.draw(
        DrawOp::DrawImage {
            image: img,
            transform: Affine::IDENTITY,
        },
    );
    let rec = backend.end_record();

    assert_eq!(backend.ops().len(), 2);
    assert_eq!(rec.ops.len(), 1);
    assert!(rec.acceleration.is_none());
    assert!(matches!(rec.valid_under, TransformClass::Exact));
    assert!(rec.original_ctm.is_none());
}

#[test]
fn clear_events_keeps_resources_usable() {
    let mut backend = new_backend();

    let paint = backend.create_paint(white_paint());
    let path = backend.create_path(origin_path());

    backend.state(StateOp::SetPaint(paint));
    backend.draw(DrawOp::FillPath(path));
    assert_eq!(backend.events().len(), 2);

    backend.clear_events();
    assert!(backend.events().is_empty());
    assert!(backend.ops().is_empty());

    // Using the same paint/path after clearing events should still work.
    backend.state(StateOp::SetPaint(paint));
    backend.draw(DrawOp::FillPath(path));
    assert_eq!(backend.events().len(), 2);
}

#[test]
fn state_snapshot_updates() {
    let mut backend = new_backend();

    backend.state(StateOp::SetTransform(Affine::scale(2.0)));
    backend.state(StateOp::SetOpacity(0.25));
    backend.state(StateOp::SetBlendMode(peniko::BlendMode::default()));

    let last = backend.events().last().expect("at least one event");
    let Event::State { state, .. } = last else {
        panic!("expected final event to be State");
    };

    assert_eq!(state.opacity, 0.25);
    assert_eq!(state.transform, Affine::scale(2.0));
    assert!(matches!(state.clip, ClipShape::Infinite));
}

#[test]
fn draw_events_carry_the_current_state() {
    let mut backend = new_backend();
    let path = backend.create_path(origin_path());
    backend.state(StateOp::SetPaint(PaintId(3)));
    backend.draw(DrawOp::FillPath(path));
    let Event::Draw { op, state } = backend.events().last().unwrap() else {
        panic!("expected final event to be Draw");
    };
    assert_eq!(op, &DrawOp::FillPath(path));
    assert_eq!(state.paint, Some(PaintId(3)));
    assert_eq!(backend.current().paint, Some(PaintId(3)));
}

#[test]
fn nested_begin_record_uses_latest_start() {
    let mut backend = new_backend();

    let path = backend.create_path(origin_path());

    backend.state(StateOp::SetOpacity(1.0));
    backend.begin_record();
    backend.draw(DrawOp::FillPath(path));
    // Start a new recording; this should overwrite the start index.
    backend.begin_record();
    backend.draw(DrawOp::StrokePath(path));
    let rec = backend.end_record();

    // We recorded only the last draw.
    assert_eq!(backend.ops().len(), 3);
    assert_eq!(rec.ops.len(), 1);
    assert_eq!(rec.ops[0], ImagingOp::Draw(DrawOp::StrokePath(path)));
}

#[test]
fn empty_recording_is_valid() {
    let mut backend = new_backend();

    backend.begin_record();
    let rec = backend.end_record();

    assert_eq!(rec.ops.len(), 0);
}

#[test]
fn resource_destroy_is_tolerant() {
    let mut backend = new_backend();

    let path = backend.create_path(origin_path());
    let img = backend.create_image(
        ImageDesc {
            width: 1,
            height: 1,
        },
        &[0_u8, 0, 0, 0],
    );
    let paint = backend.create_paint(white_paint());
    let picture = backend.create_picture(PictureDesc {
        recording: Recording {
            ops: Vec::new(),
            acceleration: None,
            valid_under: TransformClass::Exact,
            original_ctm: None,
        },
    });

    backend.destroy_path(path);
    backend.destroy_image(img);
    backend.destroy_paint(paint);
    backend.destroy_picture(picture);

    // Double-destroy should not panic.
    backend.destroy_path(path);
    backend.destroy_image(img);
    backend.destroy_paint(paint);
    backend.destroy_picture(picture);
}

#[test]
fn ids_are_sequential_per_kind_and_never_reused() {
    let mut backend = new_backend();
    assert_eq!(backend.create_path(origin_path()), PathId(0));
    assert_eq!(backend.create_path(origin_path()), PathId(1));
    assert_eq!(backend.create_paint(white_paint()), PaintId(0));
    backend.destroy_path(PathId(0));
    assert_eq!(backend.create_path(origin_path()), PathId(2));
    assert_eq!(
        backend.create_image(ImageDesc { width: 2, height: 1 }, &[1, 2, 3, 4, 5, 6, 7, 8]),
        ImageId(0)
    );
    let picture = backend.create_picture(PictureDesc {
        recording: Recording {
            ops: Vec::new(),
            acceleration: None,
            valid_under: TransformClass::Exact,
            original_ctm: None,
        },
    });
    assert_eq!(picture, PictureId(0));
    assert_eq!(picture.0, 0);
}

#[test]
fn destroying_unknown_ids_changes_nothing() {
    let mut backend = new_backend();
    backend.destroy_path(PathId(7));
    backend.destroy_image(ImageId(3));
    assert_eq!(backend.create_path(origin_path()), PathId(0));
    assert_eq!(
        backend.create_image(ImageDesc { width: 1, height: 1 }, &[9, 9, 9, 9]),
        ImageId(0)
    );
}

#[test]
fn end_record_without_begin_captures_nothing() {
    let mut backend = new_backend();
    backend.state(StateOp::SetOpacity(0.25));
    let rec = backend.end_record();
    assert!(rec.ops.is_empty());
    assert_eq!(backend.ops().len(), 1);
}

#[test]
fn recording_captures_appended_ops_in_order() {
    let mut backend = new_backend();
    let path = backend.create_path(origin_path());
    backend.state(StateOp::SetOpacity(0.5));
    backend.begin_record();
    backend.state(StateOp::SetPaint(PaintId(4)));
    backend.draw(DrawOp::FillPath(path));
    backend.draw(DrawOp::StrokePath(path));
    let rec = backend.end_record();
    assert_eq!(
        rec.ops,
        vec![
            ImagingOp::State(StateOp::SetPaint(PaintId(4))),
            ImagingOp::Draw(DrawOp::FillPath(path)),
            ImagingOp::Draw(DrawOp::StrokePath(path)),
        ]
    );
    // The recording ended: a second end captures nothing.
    assert!(backend.end_record().ops.is_empty());
    assert_eq!(backend.ops().len(), 4);
}

#[test]
fn clearing_the_log_ends_the_recording() {
    let mut backend = new_backend();
    backend.begin_record();
    backend.state(StateOp::SetOpacity(0.5));
    backend.clear_events();
    backend.state(StateOp::SetOpacity(0.75));
    let rec = backend.end_record();
    assert!(rec.ops.is_empty());
    assert_eq!(backend.ops(), &[ImagingOp::State(StateOp::SetOpacity(0.75))]);
}

#[test]
fn snapshot_transitions_replace_one_field() {
    let s = initial_state();
    let s = s.apply(StateOp::SetPaint(PaintId(9)));
    assert_eq!(s.paint, Some(PaintId(9)));
    let s = s.apply(StateOp::SetStroke(kurbo::Stroke::new(2.0)));
    assert_eq!(s.stroke.as_ref().map(|st| st.width), Some(2.0));
    let before = s.clone();
    let s = s.apply(StateOp::SetPaintTransform(Affine::scale(3.0)));
    assert_eq!(s, before);
    let s = s.apply(StateOp::BeginGroup(()));
    let s = s.apply(StateOp::EndGroup);
    assert_eq!(s, before);
    let s = s.apply(StateOp::SetClip(ClipShape::Infinite));
    assert_eq!(s.clip, ClipShape::Infinite);
    assert_eq!(s.opacity, 1.0);
}

#[test]
fn record_ops_captures_what_the_closure_applies() {
    let mut backend = new_backend();
    let path = backend.create_path(origin_path());
    backend.state(StateOp::SetOpacity(0.5));
    let rec = record_ops(&mut backend, |b: &mut Backend| {
        b.state(StateOp::SetPaint(PaintId(1)));
        b.draw(DrawOp::FillPath(path));
    });
    assert_eq!(
        rec.ops,
        vec![ImagingOp::State(StateOp::SetPaint(PaintId(1))), ImagingOp::Draw(DrawOp::FillPath(path))]
    );
    assert_eq!(backend.ops().len(), 3);
    assert!(backend.end_record().ops.is_empty());
}

#[test]
fn record_basic_ops() {
    let mut backend = new_backend();

    let paint = backend.create_paint(white_paint());
    let path = backend.create_path(origin_path());

    backend.state(StateOp::SetPaint(paint));
    backend.draw(DrawOp::FillPath(path));

    assert_eq!(backend.ops().len(), 2);
}

#[test]
fn record_segment_of_ops() {
    let mut backend = new_backend();

    let paint = backend.create_paint(white_paint());
    let path = backend.create_path(origin_path());

    // First op outside the recording.
    backend.state(StateOp::SetPaint(paint));

    backend.begin_record();
    backend.draw(DrawOp::FillPath(path));
    backend.draw(DrawOp::StrokePath(path));
    let recorded = backend.end_record();

    assert_eq!(backend.ops().len(), 3);
    assert_eq!(recorded.ops.len(), 2);
    assert!(matches!(recorded.valid_under, TransformClass::Exact));
}

#[test]
fn the_backend_tracks_its_own_state() {
    let mut backend = new_backend();
    backend.state(StateOp::SetOpacity(0.25));
    assert_eq!(backend.current().opacity, 0.25);
    backend.state(StateOp::SetClip(ClipShape::Rect { x0: 0.0, y0: 0.0, x1: 4.0, y1: 2.0 }));
    backend.state(StateOp::SetStroke(kurbo::Stroke::new(3.0)));
    backend.state(StateOp::SetPaintTransform(Affine::scale(5.0)));
    backend.state(StateOp::BeginGroup(()));
    backend.state(StateOp::EndGroup);
    let current = backend.current().clone();
    assert_eq!(current.transform, Affine::IDENTITY);
    assert_eq!(current.clip, ClipShape::Rect { x0: 0.0, y0: 0.0, x1: 4.0, y1: 2.0 });
    assert_eq!(current.stroke.as_ref().map(|s| s.width), Some(3.0));
    assert_eq!(current.paint, None);
    assert_eq!(current.opacity, 0.25);
    // Each state event carries the snapshot the operation left.
    let Event::State { op, state } = &backend.events()[0] else {
        panic!("expected a state event");
    };
    assert_eq!(op, &StateOp::SetOpacity(0.25));
    assert_eq!(state.opacity, 0.25);
    assert_eq!(state.clip, ClipShape::Infinite);
    let Event::State { state, .. } = backend.events().last().unwrap() else {
        panic!("expected a state event");
    };
    assert_eq!(state, &current);
}

#[test]
fn the_backend_tracks_state_through_the_backend_trait() {
    fn set_paint<B: ImagingBackend<Types>>(backend: &mut B, paint: PaintId) {
        backend.state(StateOp::SetPaint(paint));
    }
    let mut backend = new_backend();
    set_paint(&mut backend, PaintId(6));
    assert_eq!(backend.current().paint, Some(PaintId(6)));
    assert_eq!(backend.ops(), &[ImagingOp::State(StateOp::SetPaint(PaintId(6)))]);
}

#[test]
fn update_and_apply_agree() {
    let ops = [
        StateOp::SetTransform(Affine::translate((1.0, 2.0))),
        StateOp::SetPaint(PaintId(2)),
        StateOp::SetClip(ClipShape::Rect { x0: 1.0, y0: 1.0, x1: 2.0, y1: 2.0 }),
        StateOp::SetStroke(kurbo::Stroke::new(1.5)),
        StateOp::SetBlendMode(peniko::BlendMode::default()),
        StateOp::SetOpacity(0.5),
        StateOp::EndGroup,
    ];
    let mut updated = initial_state();
    let mut applied = initial_state();
    for op in ops {
        updated.update(&op);
        applied = applied.apply(op);
        assert_eq!(updated, applied);
    }
    assert_eq!(updated.paint, Some(PaintId(2)));
    assert_eq!(updated.opacity, 0.5);
}

#[test]
fn record_ops_through_the_backend_trait_keeps_earlier_ops_out() {
    fn record_fill<B: ImagingBackend<Types>>(backend: &mut B, path: PathId) -> Recording<ImagingOp> {
        record_ops(backend, |b: &mut B| {
            b.state(StateOp::SetOpacity(0.75));
            b.draw(DrawOp::FillPath(path));
        })
    }
    let mut backend = new_backend();
    let path = backend.create_path(origin_path());
    backend.state(StateOp::SetPaint(PaintId(1)));
    let rec = record_fill(&mut backend, path);
    assert_eq!(
        rec.ops,
        vec![ImagingOp::State(StateOp::SetOpacity(0.75)), ImagingOp::Draw(DrawOp::FillPath(path))]
    );
    assert_eq!(rec.valid_under, TransformClass::Exact);
    assert_eq!(backend.current().opacity, 0.75);
    assert_eq!(backend.ops().len(), 3);
}
