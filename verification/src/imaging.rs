//! Imaging resource handles, transform classes, recording reuse, and the
//! SVG keywords of fill rules, stroke caps and joins, and blend modes.

use vstd::prelude::*;

verus! {

/// Identifier for a path resource.
#[derive(Copy, Clone, Debug, PartialEq, Eq, Hash, Structural)]
pub struct PathId(pub u32);

/// Identifier for an image resource.
#[derive(Copy, Clone, Debug, PartialEq, Eq, Hash, Structural)]
pub struct ImageId(pub u32);

/// Identifier for a paint resource.
#[derive(Copy, Clone, Debug, PartialEq, Eq, Hash, Structural)]
pub struct PaintId(pub u32);

/// Identifier for a picture resource (nested imaging program).
#[derive(Copy, Clone, Debug, PartialEq, Eq, Hash, Structural)]
pub struct PictureId(pub u32);

/// Transform class describing when cached or recorded content remains valid.
///
/// The variants form a hierarchy of increasing flexibility:
/// `Exact ⊆ TranslateOnly ⊆ Orthonormal ⊆ Affine`.
#[derive(Copy, Clone, Debug, PartialEq, Eq, Structural)]
pub enum TransformClass {
    /// Valid only when the current transform is exactly equal.
    Exact,
    /// Valid when transforms differ by a pure translation.
    TranslateOnly,
    /// Valid under orthonormal transforms (rotation/reflection, no shear, uniform scale).
    Orthonormal,
    /// Valid under any affine transform.
    Affine,
}

/// Position of a class in the hierarchy, `Exact` lowest.
pub open spec fn class_rank(c: TransformClass) -> int {
    match c {
        TransformClass::Exact => 0,
        TransformClass::TranslateOnly => 1,
        TransformClass::Orthonormal => 2,
        TransformClass::Affine => 3,
    }
}

impl TransformClass {
    /// Returns `true` if a cache entry that is valid under `self` can be
    /// safely reused for a transform difference classified as `diff`: when
    /// `diff` lies no higher in the hierarchy than `self`.
    pub fn supports(self, diff: Self) -> (r: bool)
        ensures
            r == (class_rank(diff) <= class_rank(self)),
    {
        match self {
            TransformClass::Exact => matches!(diff, TransformClass::Exact),
            TransformClass::TranslateOnly => matches!(diff, TransformClass::Exact | TransformClass::TranslateOnly),
            TransformClass::Orthonormal => !matches!(diff, TransformClass::Affine),
            TransformClass::Affine => true,
        }
    }
}

/// `supports` is a partial order that follows the hierarchy: every class
/// supports itself and `Exact`, `Affine` supports every class, and support
/// is transitive and antisymmetric.
pub proof fn lemma_supports_order(a: TransformClass, b: TransformClass, c: TransformClass)
    ensures
        class_rank(a) <= class_rank(a),
        class_rank(TransformClass::Exact) <= class_rank(a),
        class_rank(a) <= class_rank(TransformClass::Affine),
        class_rank(a) <= class_rank(b) && class_rank(b) <= class_rank(c) ==> class_rank(a) <= class_rank(c),
        class_rank(a) <= class_rank(b) && class_rank(b) <= class_rank(a) ==> a == b,
{
}

/// Classifies the difference between an original and a current transform
/// from two comparisons of their coefficients: `same_transform` when all
/// coefficients are equal, `same_linear` when the linear part (all but the
/// translation) is equal. Equal transforms give `Exact`, transforms that
/// differ only by translation give `TranslateOnly`, anything else `Affine`;
/// `Orthonormal` is never returned.
pub fn classify_transform_diff(same_transform: bool, same_linear: bool) -> (c: TransformClass)
    ensures
        same_transform ==> c == TransformClass::Exact,
        !same_transform && same_linear ==> c == TransformClass::TranslateOnly,
        !same_transform && !same_linear ==> c == TransformClass::Affine,
        c != TransformClass::Orthonormal,
{
    if same_transform {
        TransformClass::Exact
    } else if same_linear {
        TransformClass::TranslateOnly
    } else {
        TransformClass::Affine
    }
}

/// Whether backend acceleration prepared for a recording can be reused under
/// the current transform. `diff` is the class of the difference between the
/// transform the acceleration was prepared under and the current one, or
/// `None` when that original transform is unknown. Reuse needs acceleration,
/// a known original transform, and a recording class that supports `diff`.
pub fn can_reuse(has_acceleration: bool, valid_under: TransformClass, diff: Option<TransformClass>) -> (r: bool)
    ensures
        r == (has_acceleration && diff is Some && class_rank(diff->0) <= class_rank(valid_under)),
{
    if !has_acceleration {
        return false;
    }
    match diff {
        None => false,
        Some(d) => valid_under.supports(d),
    }
}

/// Fill rule used to decide which points a path encloses.
#[derive(Copy, Clone, Debug, PartialEq, Eq, Structural)]
pub enum FillRule {
    /// Non-zero winding number.
    NonZero,
    /// Even-odd crossing count.
    EvenOdd,
}

/// The SVG `fill-rule` keyword of a fill rule.
pub fn fill_rule_svg(rule: FillRule) -> (s: &'static str)
    ensures
        rule == FillRule::NonZero ==> s@ == "nonzero"@,
        rule == FillRule::EvenOdd ==> s@ == "evenodd"@,
{
    match rule {
        FillRule::NonZero => "nonzero",
        FillRule::EvenOdd => "evenodd",
    }
}


/// How the end of an open stroked subpath is drawn.
#[derive(Copy, Clone, Debug, PartialEq, Eq, Structural)]
pub enum Cap {
    /// Flat end at the endpoint.
    Butt,
    /// Half-disc around the endpoint.
    Round,
    /// Half-square around the endpoint.
    Square,
}

/// How two stroked segments are joined.
#[derive(Copy, Clone, Debug, PartialEq, Eq, Structural)]
pub enum Join {
    /// Flat cut across the corner.
    Bevel,
    /// Sharp corner.
    Miter,
    /// Rounded corner.
    Round,
}

/// The SVG `stroke-linecap` keyword of a cap.
pub fn stroke_cap_svg(cap: Cap) -> (s: &'static str)
    ensures
        cap == Cap::Butt ==> s@ == "butt"@,
        cap == Cap::Round ==> s@ == "round"@,
        cap == Cap::Square ==> s@ == "square"@,
{
    match cap {
        Cap::Butt => "butt",
        Cap::Round => "round",
        Cap::Square => "square",
    }
}

/// The SVG `stroke-linejoin` keyword of a join.
pub fn stroke_join_svg(join: Join) -> (s: &'static str)
    ensures
        join == Join::Miter ==> s@ == "miter"@,
        join == Join::Round ==> s@ == "round"@,
        join == Join::Bevel ==> s@ == "bevel"@,
{
    match join {
        Join::Miter => "miter",
        Join::Round => "round",
        Join::Bevel => "bevel",
    }
}

/// Color mixing mode of a blend.
#[derive(Copy, Clone, Debug, PartialEq, Eq, Structural)]
pub enum Mix {
    /// Source color replaces the backdrop.
    Normal,
    /// Product of source and backdrop.
    Multiply,
    /// Complement of the product of the complements.
    Screen,
    /// Multiply or screen, by the backdrop.
    Overlay,
    /// Darker of source and backdrop.
    Darken,
    /// Lighter of source and backdrop.
    Lighten,
    /// Brightens the backdrop toward the source.
    ColorDodge,
    /// Darkens the backdrop toward the source.
    ColorBurn,
    /// Multiply or screen, by the source.
    HardLight,
    /// Darken or lighten, by the source.
    SoftLight,
    /// Absolute difference.
    Difference,
    /// Difference with lower contrast.
    Exclusion,
    /// Hue of the source, saturation and luminosity of the backdrop.
    Hue,
    /// Saturation of the source, hue and luminosity of the backdrop.
    Saturation,
    /// Hue and saturation of the source, luminosity of the backdrop.
    Color,
    /// Luminosity of the source, hue and saturation of the backdrop.
    Luminosity,
}

/// Porter-Duff composition mode of a blend.
#[derive(Copy, Clone, Debug, PartialEq, Eq, Structural)]
pub enum Compose {
    /// No regions are enabled.
    Clear,
    /// Only the source is present.
    Copy,
    /// Only the destination is present.
    Dest,
    /// Source over destination.
    SrcOver,
    /// Destination over source.
    DestOver,
    /// Source where destination is present.
    SrcIn,
    /// Destination where source is present.
    DestIn,
    /// Source where destination is absent.
    SrcOut,
    /// Destination where source is absent.
    DestOut,
    /// Source atop destination.
    SrcAtop,
    /// Destination atop source.
    DestAtop,
    /// Source or destination, not both.
    Xor,
    /// Sum of source and destination.
    Plus,
    /// Sum of source and destination, clamped.
    PlusLighter,
}

/// A blend: how colors mix and how the result composes with the backdrop.
#[derive(Copy, Clone, Debug, PartialEq, Eq, Structural)]
pub struct BlendMode {
    /// Color mixing.
    pub mix: Mix,
    /// Composition.
    pub compose: Compose,
}

/// The CSS `mix-blend-mode` keyword of a mixing mode other than `Normal`.
pub open spec fn mix_css_keyword(mix: Mix) -> Option<Seq<char>> {
    match mix {
        Mix::Normal => None,
        Mix::Multiply => Some("multiply"@),
        Mix::Screen => Some("screen"@),
        Mix::Overlay => Some("overlay"@),
        Mix::Darken => Some("darken"@),
        Mix::Lighten => Some("lighten"@),
        Mix::ColorDodge => Some("color-dodge"@),
        Mix::ColorBurn => Some("color-burn"@),
        Mix::HardLight => Some("hard-light"@),
        Mix::SoftLight => Some("soft-light"@),
        Mix::Difference => Some("difference"@),
        Mix::Exclusion => Some("exclusion"@),
        Mix::Hue => Some("hue"@),
        Mix::Saturation => Some("saturation"@),
        Mix::Color => Some("color"@),
        Mix::Luminosity => Some("luminosity"@),
    }
}

/// Each mixing mode other than `Normal` is written as its own CSS
/// `mix-blend-mode` name.
pub proof fn lemma_mix_css_names()
    ensures
        mix_css_keyword(Mix::Normal) is None,
        mix_css_keyword(Mix::Multiply) == Some("multiply"@),
        mix_css_keyword(Mix::Screen) == Some("screen"@),
        mix_css_keyword(Mix::Overlay) == Some("overlay"@),
        mix_css_keyword(Mix::Darken) == Some("darken"@),
        mix_css_keyword(Mix::Lighten) == Some("lighten"@),
        mix_css_keyword(Mix::ColorDodge) == Some("color-dodge"@),
        mix_css_keyword(Mix::ColorBurn) == Some("color-burn"@),
        mix_css_keyword(Mix::HardLight) == Some("hard-light"@),
        mix_css_keyword(Mix::SoftLight) == Some("soft-light"@),
        mix_css_keyword(Mix::Difference) == Some("difference"@),
        mix_css_keyword(Mix::Exclusion) == Some("exclusion"@),
        mix_css_keyword(Mix::Hue) == Some("hue"@),
        mix_css_keyword(Mix::Saturation) == Some("saturation"@),
        mix_css_keyword(Mix::Color) == Some("color"@),
        mix_css_keyword(Mix::Luminosity) == Some("luminosity"@),
{
}

/// The CSS `mix-blend-mode` keyword for drawing with `mode` in SVG, or `None`
/// when plain source-over drawing applies: a non-normal mix composed
/// source-over has a keyword; other compositions have none in SVG and fall
/// back to normal drawing.
pub fn blend_mode_css(mode: &BlendMode) -> (css: Option<&'static str>)
    ensures
        mode.compose != Compose::SrcOver ==> css is None,
        mode.compose == Compose::SrcOver ==> match mix_css_keyword(mode.mix) {
            None => css is None,
            Some(k) => css is Some && css->0@ == k,
        },
{
    match mode.compose {
        Compose::SrcOver => match mode.mix {
            Mix::Normal => None,
            Mix::Multiply => Some("multiply"),
            Mix::Screen => Some("screen"),
            Mix::Overlay => Some("overlay"),
            Mix::Darken => Some("darken"),
            Mix::Lighten => Some("lighten"),
            Mix::ColorDodge => Some("color-dodge"),
            Mix::ColorBurn => Some("color-burn"),
            Mix::HardLight => Some("hard-light"),
            Mix::SoftLight => Some("soft-light"),
            Mix::Difference => Some("difference"),
            Mix::Exclusion => Some("exclusion"),
            Mix::Hue => Some("hue"),
            Mix::Saturation => Some("saturation"),
            Mix::Color => Some("color"),
            Mix::Luminosity => Some("luminosity"),
        },
        _ => None,
    }
}

/// Parameters of a pushed compositing layer: an optional clip (type `C`)
/// restricting drawing inside the layer, and an optional filter (`F`), blend
/// mode (`B`) and opacity (`O`) applied when compositing the layer into its
/// parent.
#[derive(Clone, Debug, PartialEq)]
pub struct LayerOp<C, F, B, O> {
    /// Optional clip applied to the layer's contents.
    pub clip: Option<C>,
    /// Optional filter applied when compositing the layer.
    pub filter: Option<F>,
    /// Optional blend mode used when compositing the layer.
    pub blend: Option<B>,
    /// Optional opacity applied when compositing the layer.
    pub opacity: Option<O>,
}

impl<C, F, B, O> LayerOp<C, F, B, O> {
    /// Returns true if the layer changes how its contents are composited
    /// into its parent: a filter, a blend mode or an opacity is set. The clip
    /// does not count.
    pub fn has_compositing_effects(&self) -> (r: bool)
        ensures
            r == (self.filter is Some || self.blend is Some || self.opacity is Some),
    {
        self.filter.is_some() || self.blend.is_some() || self.opacity.is_some()
    }

    /// Returns true if the layer has no effect at all: no clip and no
    /// compositing effect.
    pub fn is_noop(&self) -> (r: bool)
        ensures
            r == (self.clip is None && self.filter is None && self.blend is None && self.opacity is None),
    {
        self.clip.is_none() && !self.has_compositing_effects()
    }
}


/// The value types that imaging operations carry: how a backend represents
/// transforms, clips, stroke styles, blend modes, opacities, layer group
/// parameters and rectangles, and the descriptors of its resources.
///
/// Transforms, blend modes, opacities and rectangles are plain values that
/// are copied; clips, stroke styles and group parameters may own data and
/// are cloned.
pub trait ImagingTypes: Clone + core::fmt::Debug + PartialEq {
    /// A 2D affine transform.
    type Transform: Copy + core::fmt::Debug + PartialEq;
    /// A clip shape.
    type Clip: Clone + core::fmt::Debug + PartialEq;
    /// A stroke style.
    type Stroke: Clone + core::fmt::Debug + PartialEq;
    /// A blend mode.
    type Blend: Copy + core::fmt::Debug + PartialEq;
    /// An opacity.
    type Opacity: Copy + core::fmt::Debug + PartialEq;
    /// Parameters of a layer group.
    type Group: Clone + core::fmt::Debug + PartialEq;
    /// An axis-aligned rectangle.
    type Rect: Copy + core::fmt::Debug + PartialEq;
    /// A path descriptor.
    type PathDesc;
    /// An image descriptor.
    type ImageDesc;
    /// A paint descriptor.
    type PaintDesc;
    /// A picture descriptor.
    type PictureDesc;
}

/// State operations that change the current imaging state.
#[derive(Clone, Debug, PartialEq)]
pub enum StateOp<T: ImagingTypes> {
    /// Set the current transform.
    SetTransform(T::Transform),
    /// Set the paint-space transform used when sampling brushes.
    SetPaintTransform(T::Transform),
    /// Set the current clip.
    SetClip(T::Clip),
    /// Set the current paint.
    SetPaint(PaintId),
    /// Set the current stroke style.
    SetStroke(T::Stroke),
    /// Set the current blend mode.
    SetBlendMode(T::Blend),
    /// Set the current opacity.
    SetOpacity(T::Opacity),
    /// Begin a layer group.
    BeginGroup(T::Group),
    /// End the most recently begun layer group.
    EndGroup,
}

/// Draw operations that produce pixels under the current state.
#[derive(Clone, Debug, PartialEq)]
pub enum DrawOp<T: ImagingTypes> {
    /// Fill a path with the current paint.
    FillPath(PathId),
    /// Stroke a path with the current stroke style and paint.
    StrokePath(PathId),
    /// Fill a rectangle with the current paint.
    FillRect(T::Rect),
    /// Stroke a rectangle with the current stroke style and paint.
    StrokeRect(T::Rect),
    /// Draw an image under an explicit transform.
    DrawImage {
        /// Image to draw.
        image: ImageId,
        /// Transform applied to the image.
        transform: T::Transform,
    },
}

/// An imaging operation: a state operation or a draw operation.
#[derive(Clone, Debug, PartialEq)]
pub enum ImagingOp<T: ImagingTypes> {
    /// State-changing operation.
    State(StateOp<T>),
    /// Drawing operation.
    Draw(DrawOp<T>),
}

/// The operations that a recording which started at `start` captures from
/// `ops`: everything from `start` on, or nothing when no recording is active.
pub open spec fn recorded_span<Op>(ops: Seq<Op>, start: Option<usize>) -> Seq<Op> {
    match start {
        Some(s) => if s <= ops.len() {
            ops.subrange(s as int, ops.len() as int)
        } else {
            Seq::empty()
        },
        None => Seq::empty(),
    }
}

/// With no active recording nothing is captured, so ending a recording twice
/// in a row captures nothing the second time.
pub proof fn lemma_no_recording_captures_nothing<Op>(ops: Seq<Op>)
    ensures
        recorded_span(ops, None) == Seq::<Op>::empty(),
{
}

/// A recording that starts at the end of the log captures exactly the
/// operations appended after it started.
pub proof fn lemma_recording_captures_appended<Op>(ops: Seq<Op>, added: Seq<Op>)
    requires
        ops.len() <= usize::MAX,
    ensures
        recorded_span(ops + added, Some(ops.len() as usize)) == added,
{
    assert((ops + added).subrange(ops.len() as int, (ops + added).len() as int) =~= added);
}

/// Operations captured by a recording, with optional backend-specific
/// acceleration of type `A`, the transform class under which the recording
/// remains valid, and the transform (of type `C`) the acceleration was
/// prepared under.
#[derive(Clone, Debug)]
pub struct Recording<Op, A = (), C = ()> {
    /// The captured operations, in order.
    pub ops: Vec<Op>,
    /// Backend-specific acceleration, if any was prepared.
    pub acceleration: Option<A>,
    /// Transform class under which the recording remains valid.
    pub valid_under: TransformClass,
    /// The transform the acceleration was prepared under, if any.
    pub original_ctm: Option<C>,
}

/// An imaging backend: state and draw operations are applied one at a time,
/// in order, and a recording captures the operations applied while it is
/// active.
pub trait ImagingBackend<T: ImagingTypes> {
    /// The operations applied so far, in order.
    spec fn applied(&self) -> Seq<ImagingOp<T>>;

    /// Where the active recording starts in `applied`, if one is active.
    spec fn recording_start(&self) -> Option<usize>;

    /// Applies a state operation.
    fn state(&mut self, op: StateOp<T>)
        ensures
            final(self).applied() == old(self).applied().push(ImagingOp::State(op)),
            final(self).recording_start() == old(self).recording_start(),
    ;

    /// Applies a draw operation.
    fn draw(&mut self, op: DrawOp<T>)
        ensures
            final(self).applied() == old(self).applied().push(ImagingOp::Draw(op)),
            final(self).recording_start() == old(self).recording_start(),
    ;

    /// Starts a recording at the current end of the applied operations;
    /// a recording that was already active is restarted here.
    fn begin_record(&mut self)
        ensures
            final(self).applied() == old(self).applied(),
            final(self).recording_start() == Some(old(self).applied().len() as usize),
    ;

    /// Ends the active recording and returns copies of the operations it
    /// captured, or none when no recording was active.
    fn end_record(&mut self) -> (recording: Recording<ImagingOp<T>>)
        ensures
            final(self).applied() == old(self).applied(),
            final(self).recording_start() is None,
            recording.ops@.len() == recorded_span(old(self).applied(), old(self).recording_start()).len(),
            forall|i: int|
                0 <= i < recording.ops@.len() ==> cloned::<ImagingOp<T>>(
                    recorded_span(old(self).applied(), old(self).recording_start())[i],
                    #[trigger] recording.ops@[i],
                ),
    ;
}

/// `after` is `before` with a recording started at the end of what it has
/// applied.
pub open spec fn began_recording<T: ImagingTypes, B: ImagingBackend<T>>(before: B, after: B) -> bool {
    &&& after.applied() == before.applied()
    &&& after.recording_start() == Some(before.applied().len() as usize)
}

/// `after` is `before` with its recording ended, and `recording` holds copies
/// of the operations that recording captured.
pub open spec fn ended_recording<T: ImagingTypes, B: ImagingBackend<T>>(
    before: B,
    after: B,
    recording: Recording<ImagingOp<T>>,
) -> bool {
    &&& after.applied() == before.applied()
    &&& after.recording_start() is None
    &&& recording.ops@.len() == recorded_span(before.applied(), before.recording_start()).len()
    &&& forall|i: int|
        0 <= i < recording.ops@.len() ==> cloned::<ImagingOp<T>>(
            recorded_span(before.applied(), before.recording_start())[i],
            #[trigger] recording.ops@[i],
        )
}

/// Records the operations that `f` issues on `backend`: starts a recording,
/// runs `f` once on the backend, and ends the recording. The result is what
/// ending the recording gives on the backend as `f` left it.
pub fn record_ops<T: ImagingTypes, B: ImagingBackend<T>, F: FnOnce(&mut B)>(backend: &mut B, f: F) -> (recording:
    Recording<ImagingOp<T>>)
    requires
        forall|b: &mut B| call_requires(f, (b,)),
    ensures
        exists|b: &mut B|
            #![trigger call_ensures(f, (b,), ())]
            {
                &&& began_recording::<T, B>(*old(backend), *b)
                &&& call_ensures(f, (b,), ())
                &&& ended_recording::<T, B>(*final(b), *final(backend), recording)
            },
{
    backend.begin_record();
    f(backend);
    backend.end_record()
}

} // verus!
