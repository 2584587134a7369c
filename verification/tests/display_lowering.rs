use kurbo::{Affine, Point, Rect};
use overstory::display_lowering::{lower_display_to_imaging, record_into_backend, DisplayOp};
use overstory::imaging::{ImageId, ImagingTypes, PaintId, PathId};
use overstory::ref_backend::{RefBackend, StateSnapshot};

/// The value types of the imaging operations in these tests.
#[derive(Clone, Debug, PartialEq)]
struct Types;

impl ImagingTypes for Types {
    type Transform = Affine;
    type Clip = ();
    type Stroke = ();
    type Blend = ();
    type Opacity = f32;
    type Group = ();
    type Rect = (f32, f32, f32, f32);
    type PathDesc = ();
    type ImageDesc = ();
    type PaintDesc = ();
    type PictureDesc = ();
}

type Op = DisplayOp<Affine, f32>;
type ImagingOp = overstory::imaging::ImagingOp<Types>;
type StateOp = overstory::imaging::StateOp<Types>;
type DrawOp = overstory::imaging::DrawOp<Types>;

fn lower(list: &[Op]) -> Vec<ImagingOp> {
    lower_display_to_imaging::<Types>(list)
}

fn new_backend() -> RefBackend<Types> {
    RefBackend::new(StateSnapshot::new(Affine::IDENTITY, (), (), 1.0))
}

fn rect(x0: f64, y0: f64, x1: f64, y1: f64) -> Rect {
    Rect::new(x0, y0, x1, y1)
}

/// The display side of an image: the unit square mapped onto `dest`, and
/// the opacity when it is not fully opaque.
fn image_op(image: u32, dest: Rect, opacity: f32) -> Op {
    let transform = Affine::translate((dest.x0, dest.y0)) * Affine::scale_non_uniform(dest.width(), dest.height());
    let opacity = if (opacity - 1.0).abs() > f32::EPSILON {
        Some(opacity)
    } else {
        None
    };
    DisplayOp::Image {
        image,
        transform,
        opacity,
    }
}

#[test]
fn lowers_fill_and_image_ops() {
    let list = [
        DisplayOp::FillPath { path: 1, paint: 2 },
        image_op(3, rect(10.0, 10.0, 20.0, 20.0), 0.5),
    ];

    let ops = lower(&list);
    assert_eq!(ops.len(), 4);

    match &ops[0] {
        ImagingOp::State(StateOp::SetPaint(id)) => assert_eq!(id.0, 2),
        _ => panic!("expected SetPaint"),
    }
    match &ops[1] {
        ImagingOp::Draw(DrawOp::FillPath(id)) => assert_eq!(id.0, 1),
        _ => panic!("expected FillPath"),
    }
    match &ops[2] {
        ImagingOp::State(StateOp::SetOpacity(v)) => assert!((*v - 0.5).abs() < 1e-6),
        _ => panic!("expected SetOpacity"),
    }
    match &ops[3] {
        ImagingOp::Draw(DrawOp::DrawImage { image, transform }) => {
            assert_eq!(image.0, 3);
            let p = (*transform) * Point::new(0.0, 0.0);
            assert_eq!(p, Point::new(10.0, 10.0));
        }
        _ => panic!("expected DrawImage"),
    }
}

#[test]
fn end_to_end_with_ref_backend() {
    let list = [
        DisplayOp::FillPath { path: 1, paint: 2 },
        image_op(3, rect(5.0, 5.0, 15.0, 15.0), 1.0),
    ];

    let mut backend = new_backend();
    record_into_backend(&mut backend, &list);

    let ops = backend.ops();
    // Expect: SetPaint + FillPath + DrawImage (opacity is 1.0 so no SetOpacity).
    assert_eq!(ops.len(), 3);

    let expected_transform = Affine::translate((5.0, 5.0)) * Affine::scale_non_uniform(10.0, 10.0);

    let expected = [
        ImagingOp::State(StateOp::SetPaint(PaintId(2))),
        ImagingOp::Draw(DrawOp::FillPath(PathId(1))),
        ImagingOp::Draw(DrawOp::DrawImage {
            image: ImageId(3),
            transform: expected_transform,
        }),
    ];
    assert_eq!(ops, &expected);
}

#[test]
fn record_into_backend_streams_ops() {
    let list = [DisplayOp::FillPath { path: 1, paint: 2 }];

    let mut backend = new_backend();
    record_into_backend(&mut backend, &list);
    assert_eq!(backend.ops().len(), 2);
    assert_eq!(backend.events().len(), 2);
}

#[test]
fn other_ops_are_dropped_and_order_is_kept() {
    let list: [Op; 4] = [
        DisplayOp::Other,
        DisplayOp::FillPath { path: 7, paint: 8 },
        DisplayOp::Other,
        DisplayOp::FillPath { path: 9, paint: 10 },
    ];
    assert_eq!(
        lower(&list),
        vec![
            ImagingOp::State(StateOp::SetPaint(PaintId(8))),
            ImagingOp::Draw(DrawOp::FillPath(PathId(7))),
            ImagingOp::State(StateOp::SetPaint(PaintId(10))),
            ImagingOp::Draw(DrawOp::FillPath(PathId(9))),
        ]
    );
    assert!(lower(&[DisplayOp::Other]).is_empty());
}

#[test]
fn lowering_in_parts_equals_lowering_the_whole() {
    let list = [
        DisplayOp::FillPath { path: 1, paint: 2 },
        image_op(3, rect(0.0, 0.0, 4.0, 4.0), 0.25),
        DisplayOp::Other,
        image_op(4, rect(1.0, 1.0, 2.0, 2.0), 1.0),
    ];
    let whole = lower(&list);
    let mut parts = lower(&list[..2]);
    parts.extend(lower(&list[2..]));
    assert_eq!(whole, parts);
}

#[test]
fn streamed_ops_update_the_backend_state() {
    let list = [
        DisplayOp::FillPath { path: 1, paint: 2 },
        image_op(3, rect(0.0, 0.0, 1.0, 1.0), 0.5),
    ];
    let mut backend = new_backend();
    record_into_backend(&mut backend, &list);
    assert_eq!(backend.current().paint, Some(PaintId(2)));
    assert_eq!(backend.current().opacity, 0.5);
    assert_eq!(backend.ops(), lower(&list).as_slice());
}
