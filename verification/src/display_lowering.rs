//! Lowering of display-list operations into imaging operations.
//!
//! The mapping is deliberately conservative: a path fill becomes "set paint"
//! then "fill path"; an image becomes an optional "set opacity" then "draw
//! image"; every other operation (strokes, glyph runs, clips, groups) is
//! dropped. The image's destination transform and the test of its opacity
//! against full opacity are geometry, computed by the caller and carried here
//! as opaque values.

use vstd::prelude::*;

use crate::imaging::{DrawOp, ImageId, ImagingBackend, ImagingOp, ImagingTypes, PaintId, PathId, StateOp};

verus! {

/// A display-list operation, as far as lowering reads it.
#[derive(Copy, Clone, Debug, PartialEq)]
pub enum DisplayOp<T, O> {
    /// Fill the path `path` with the paint `paint`.
    FillPath {
        /// Display-side path id.
        path: u32,
        /// Display-side paint id.
        paint: u32,
    },
    /// Draw the image `image`. `transform` maps the unit square onto the
    /// destination rectangle; `opacity` is `Some` only when the image is not
    /// fully opaque.
    Image {
        /// Display-side image id.
        image: u32,
        /// Unit square to destination.
        transform: T,
        /// Opacity, when it differs from fully opaque.
        opacity: Option<O>,
    },
    /// Any other operation: strokes, glyph runs, clips, groups.
    Other,
}

/// The imaging operations one display operation lowers to.
pub open spec fn lowered<T: ImagingTypes>(op: DisplayOp<T::Transform, T::Opacity>) -> Seq<ImagingOp<T>> {
    match op {
        DisplayOp::FillPath { path, paint } => seq![
            ImagingOp::State(StateOp::SetPaint(PaintId(paint))),
            ImagingOp::Draw(DrawOp::FillPath(PathId(path))),
        ],
        DisplayOp::Image { image, transform, opacity } => match opacity {
            Some(o) => seq![
                ImagingOp::State(StateOp::SetOpacity(o)),
                ImagingOp::Draw(DrawOp::DrawImage { image: ImageId(image), transform }),
            ],
            None => seq![ImagingOp::Draw(DrawOp::DrawImage { image: ImageId(image), transform })],
        },
        DisplayOp::Other => Seq::empty(),
    }
}

/// The imaging operations a sequence of display operations lowers to: each
/// operation's lowering, in order.
pub open spec fn lowered_all<T: ImagingTypes>(ops: Seq<DisplayOp<T::Transform, T::Opacity>>) -> Seq<ImagingOp<T>>
    decreases ops.len(),
{
    if ops.len() == 0 {
        Seq::empty()
    } else {
        lowered_all::<T>(ops.drop_last()) + lowered::<T>(ops.last())
    }
}

/// Lowering distributes over concatenation: lowering a list in two parts
/// and joining the results is lowering the whole list.
pub proof fn lemma_lowering_concatenates<T: ImagingTypes>(
    a: Seq<DisplayOp<T::Transform, T::Opacity>>,
    b: Seq<DisplayOp<T::Transform, T::Opacity>>,
)
    ensures
        lowered_all::<T>(a + b) == lowered_all::<T>(a) + lowered_all::<T>(b),
    decreases b.len(),
{
    if b.len() == 0 {
        assert(a + b =~= a);
        assert(lowered_all::<T>(a) + lowered_all::<T>(b) =~= lowered_all::<T>(a));
    } else {
        lemma_lowering_concatenates::<T>(a, b.drop_last());
        assert((a + b).drop_last() =~= a + b.drop_last());
        assert((a + b).last() == b.last());
        assert(lowered_all::<T>(a) + lowered_all::<T>(b.drop_last()) + lowered::<T>(b.last())
            =~= lowered_all::<T>(a) + (lowered_all::<T>(b.drop_last()) + lowered::<T>(b.last())));
    }
}

/// Lowers display operations into imaging operations: a path fill becomes
/// "set paint" then "fill path", an image an optional "set opacity" then
/// "draw image", and every other operation is dropped.
pub fn lower_display_to_imaging<T: ImagingTypes>(ops: &[DisplayOp<T::Transform, T::Opacity>]) -> (out: Vec<
    ImagingOp<T>,
>)
    ensures
        out@ == lowered_all::<T>(ops@),
{
    let mut out: Vec<ImagingOp<T>> = Vec::new();
    let mut i: usize = 0;
    while i < ops.len()
        invariant
            i <= ops@.len(),
            out@ == lowered_all::<T>(ops@.take(i as int)),
        decreases ops@.len() - i,
    {
        let ghost before = out@;
        proof {
            assert(ops@.take(i + 1).drop_last() =~= ops@.take(i as int));
            assert(ops@.take(i + 1).last() == ops@[i as int]);
        }
        match ops[i] {
            DisplayOp::FillPath { path, paint } => {
                out.push(ImagingOp::State(StateOp::SetPaint(PaintId(paint))));
                out.push(ImagingOp::Draw(DrawOp::FillPath(PathId(path))));
            },
            DisplayOp::Image { image, transform, opacity } => {
                if let Some(o) = opacity {
                    out.push(ImagingOp::State(StateOp::SetOpacity(o)));
                }
                out.push(ImagingOp::Draw(DrawOp::DrawImage { image: ImageId(image), transform }));
            },
            DisplayOp::Other => {},
        }
        proof {
            assert(out@ =~= before + lowered::<T>(ops@[i as int]));
        }
        i = i + 1;
    }
    proof {
        assert(ops@.take(i as int) =~= ops@);
    }
    out
}

/// Lowers display operations and streams the result into `backend`, in
/// order: each state operation through `state`, each draw operation through
/// `draw`.
pub fn record_into_backend<T: ImagingTypes, B: ImagingBackend<T>>(
    backend: &mut B,
    ops: &[DisplayOp<T::Transform, T::Opacity>],
)
    ensures
        final(backend).applied() == old(backend).applied() + lowered_all::<T>(ops@),
{
    let lowered = lower_display_to_imaging::<T>(ops);
    let ghost all = lowered@;
    proof {
        assert(old(backend).applied() + all.take(0) =~= old(backend).applied());
    }
    for op in it: lowered.into_iter()
        invariant
            it.seq() == all,
            all == lowered_all::<T>(ops@),
            backend.applied() == old(backend).applied() + all.take(it.index() as int),
    {
        proof {
            assert(all.take(it.index() + 1) =~= all.take(it.index() as int).push(op));
        }
        match op {
            ImagingOp::State(s) => backend.state(s),
            ImagingOp::Draw(d) => backend.draw(d),
        }
    }
    proof {
        assert(all.take(all.len() as int) =~= all);
    }
}

} // verus!
