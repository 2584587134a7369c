//! Reference imaging backend: resource slot tables keyed by their ids, the
//! current imaging state, and an operation log with a recording window.
//!
//! Resources live in one slot table per kind; an id is the index of its slot,
//! handed out in creation order and never reused. Destroying a resource
//! empties its slot and is tolerant of ids that are already destroyed or were
//! never handed out. A state operation updates the backend's state snapshot;
//! every applied operation is appended to the log together with an event
//! that carries the snapshot, and a recording captures the operations
//! appended since the latest `begin_record`.

use vstd::prelude::*;

use crate::imaging::{
    recorded_span, DrawOp, ImageId, ImagingBackend, ImagingOp, ImagingTypes, PaintId, PathId, PictureId,
    Recording, StateOp, TransformClass,
};

verus! {

/// Slot table after releasing `id`: a slot in range becomes empty; an id past
/// the end leaves the table as it is.
pub open spec fn release_slot<D>(slots: Seq<Option<D>>, id: int) -> Seq<Option<D>> {
    if 0 <= id < slots.len() {
        slots.update(id, None)
    } else {
        slots
    }
}

/// An image slot as a plain value: its descriptor and its pixel bytes.
pub open spec fn image_entry<I>(e: Option<(I, Vec<u8>)>) -> Option<(I, Seq<u8>)> {
    match e {
        Some((desc, pixels)) => Some((desc, pixels@)),
        None => None,
    }
}

/// Releasing a slot twice is the same as releasing it once.
pub proof fn lemma_release_slot_idempotent<D>(slots: Seq<Option<D>>, id: int)
    ensures
        release_slot(release_slot(slots, id), id) == release_slot(slots, id),
{
    if 0 <= id < slots.len() {
        assert(release_slot(release_slot(slots, id), id) =~= release_slot(slots, id));
    }
}

/// Releasing a slot keeps the table's length, so the next id handed out is
/// unchanged and ids are never reused, and it leaves every other slot as it
/// was.
pub proof fn lemma_release_slot_keeps_others<D>(slots: Seq<Option<D>>, id: int)
    ensures
        release_slot(slots, id).len() == slots.len(),
        forall|j: int| 0 <= j < slots.len() && j != id ==> release_slot(slots, id)[j] == slots[j],
        0 <= id < slots.len() ==> release_slot(slots, id)[id] is None,
{
}

fn allocate_slot<D>(slots: &mut Vec<Option<D>>, desc: D) -> (id: u32)
    requires
        old(slots)@.len() <= u32::MAX,
    ensures
        id == old(slots)@.len(),
        final(slots)@ == old(slots)@.push(Some(desc)),
{
    let id = slots.len() as u32;
    slots.push(Some(desc));
    id
}

fn release<D>(slots: &mut Vec<Option<D>>, id: u32)
    ensures
        final(slots)@ == release_slot(old(slots)@, id as int),
{
    let idx = id as usize;
    if idx < slots.len() {
        slots.set(idx, None);
    }
}

/// Snapshot of the current imaging state.
#[derive(Clone, Debug, PartialEq)]
pub struct StateSnapshot<T: ImagingTypes> {
    /// Current transform.
    pub transform: T::Transform,
    /// Current clip.
    pub clip: T::Clip,
    /// Current paint, if set.
    pub paint: Option<PaintId>,
    /// Current stroke style, if set.
    pub stroke: Option<T::Stroke>,
    /// Current blend mode.
    pub blend_mode: T::Blend,
    /// Current opacity.
    pub opacity: T::Opacity,
}

/// The snapshot after applying `op` to `s`: the operation's field is
/// replaced; the paint transform and layer groups leave the snapshot as it
/// is.
pub open spec fn snapshot_after<T: ImagingTypes>(s: StateSnapshot<T>, op: StateOp<T>) -> StateSnapshot<T> {
    match op {
        StateOp::SetTransform(t) => StateSnapshot { transform: t, ..s },
        StateOp::SetClip(c) => StateSnapshot { clip: c, ..s },
        StateOp::SetPaint(id) => StateSnapshot { paint: Some(id), ..s },
        StateOp::SetStroke(st) => StateSnapshot { stroke: Some(st), ..s },
        StateOp::SetBlendMode(b) => StateSnapshot { blend_mode: b, ..s },
        StateOp::SetOpacity(o) => StateSnapshot { opacity: o, ..s },
        StateOp::SetPaintTransform(_) | StateOp::BeginGroup(_) | StateOp::EndGroup => s,
    }
}

/// `next` is `s` updated by `op` with the operation's value copied in: it is
/// `snapshot_after(s, op)`, except that a clip or a stroke style, which are
/// cloned rather than copied, is a clone of the operation's.
pub open spec fn snapshot_follows<T: ImagingTypes>(
    s: StateSnapshot<T>,
    op: StateOp<T>,
    next: StateSnapshot<T>,
) -> bool {
    match op {
        StateOp::SetClip(c) => cloned(c, next.clip) && next == StateSnapshot { clip: next.clip, ..s },
        StateOp::SetStroke(st) => match next.stroke {
            Some(x) => cloned(st, x) && next == StateSnapshot { stroke: next.stroke, ..s },
            None => false,
        },
        _ => next == snapshot_after(s, op),
    }
}

/// The snapshot that consuming `op` gives is one that copying it in gives.
pub proof fn lemma_snapshot_after_follows<T: ImagingTypes>(s: StateSnapshot<T>, op: StateOp<T>)
    ensures
        snapshot_follows(s, op, snapshot_after(s, op)),
{
}

impl<T: ImagingTypes> StateSnapshot<T> {
    /// A snapshot with the given transform, clip, blend mode and opacity, and
    /// neither a paint nor a stroke style.
    pub fn new(transform: T::Transform, clip: T::Clip, blend_mode: T::Blend, opacity: T::Opacity) -> (s: Self)
        ensures
            s.transform == transform,
            s.clip == clip,
            s.paint is None,
            s.stroke is None,
            s.blend_mode == blend_mode,
            s.opacity == opacity,
    {
        StateSnapshot { transform, clip, paint: None, stroke: None, blend_mode, opacity }
    }

    /// The snapshot after applying the state operation `op`, which it
    /// consumes.
    pub fn apply(self, op: StateOp<T>) -> (s: Self)
        ensures
            s == snapshot_after(self, op),
    {
        let StateSnapshot { transform, clip, paint, stroke, blend_mode, opacity } = self;
        match op {
            StateOp::SetTransform(t) => StateSnapshot { transform: t, clip, paint, stroke, blend_mode, opacity },
            StateOp::SetClip(c) => StateSnapshot { transform, clip: c, paint, stroke, blend_mode, opacity },
            StateOp::SetPaint(id) => StateSnapshot { transform, clip, paint: Some(id), stroke, blend_mode, opacity },
            StateOp::SetStroke(st) => StateSnapshot { transform, clip, paint, stroke: Some(st), blend_mode, opacity },
            StateOp::SetBlendMode(b) => StateSnapshot { transform, clip, paint, stroke, blend_mode: b, opacity },
            StateOp::SetOpacity(o) => StateSnapshot { transform, clip, paint, stroke, blend_mode, opacity: o },
            StateOp::SetPaintTransform(_) | StateOp::BeginGroup(_) | StateOp::EndGroup => StateSnapshot {
                transform,
                clip,
                paint,
                stroke,
                blend_mode,
                opacity,
            },
        }
    }

    /// Updates the snapshot by the state operation `op`: its transform,
    /// paint, blend mode or opacity is copied in, its clip or stroke style
    /// cloned in; the paint transform and layer groups change nothing.
    pub fn update(&mut self, op: &StateOp<T>)
        ensures
            snapshot_follows(*old(self), *op, *final(self)),
    {
        match op {
            StateOp::SetTransform(t) => self.transform = *t,
            StateOp::SetClip(c) => self.clip = c.clone(),
            StateOp::SetPaint(id) => self.paint = Some(*id),
            StateOp::SetStroke(st) => self.stroke = Some(st.clone()),
            StateOp::SetBlendMode(b) => self.blend_mode = *b,
            StateOp::SetOpacity(o) => self.opacity = *o,
            StateOp::SetPaintTransform(_) | StateOp::BeginGroup(_) | StateOp::EndGroup => {},
        }
    }
}

/// Event recorded by the reference backend: an applied operation and the
/// imaging state it left or was drawn with.
#[derive(Clone, Debug)]
#[allow(inconsistent_fields)]
pub enum Event<T: ImagingTypes> {
    /// A state operation and the state snapshot after it.
    State {
        /// State operation that was applied.
        op: StateOp<T>,
        /// Snapshot after applying the operation.
        state: StateSnapshot<T>,
    },
    /// A draw operation and the state snapshot used for drawing.
    Draw {
        /// Draw operation that was applied.
        op: DrawOp<T>,
        /// Snapshot at the time of drawing.
        state: StateSnapshot<T>,
    },
}

/// Reference backend: one slot table per resource kind, the current imaging
/// state snapshot, the log of applied operations with the events recorded for
/// them, and the start of the active recording, if any.
pub struct RefBackend<T: ImagingTypes> {
    paths: Vec<Option<T::PathDesc>>,
    images: Vec<Option<(T::ImageDesc, Vec<u8>)>>,
    paints: Vec<Option<T::PaintDesc>>,
    pictures: Vec<Option<T::PictureDesc>>,
    events: Vec<Event<T>>,
    ops: Vec<ImagingOp<T>>,
    recording_start: Option<usize>,
    state: StateSnapshot<T>,
}

impl<T: ImagingTypes> RefBackend<T> {
    /// Path slots, indexed by path id.
    pub closed spec fn path_slots(&self) -> Seq<Option<T::PathDesc>> {
        self.paths@
    }

    /// Image slots (descriptor and pixel bytes), indexed by image id.
    pub closed spec fn image_slots(&self) -> Seq<Option<(T::ImageDesc, Seq<u8>)>> {
        self.images@.map_values(|e: Option<(T::ImageDesc, Vec<u8>)>| image_entry(e))
    }

    /// Paint slots, indexed by paint id.
    pub closed spec fn paint_slots(&self) -> Seq<Option<T::PaintDesc>> {
        self.paints@
    }

    /// Picture slots, indexed by picture id.
    pub closed spec fn picture_slots(&self) -> Seq<Option<T::PictureDesc>> {
        self.pictures@
    }

    /// The applied operations, in order.
    pub closed spec fn op_log(&self) -> Seq<ImagingOp<T>> {
        self.ops@
    }

    /// Where the active recording starts in the log, if one is active.
    pub closed spec fn recording(&self) -> Option<usize> {
        self.recording_start
    }

    /// The recorded events, in order.
    pub closed spec fn event_log(&self) -> Seq<Event<T>> {
        self.events@
    }

    /// The current imaging state snapshot.
    pub closed spec fn current_state(&self) -> StateSnapshot<T> {
        self.state
    }

    /// Creates a backend with no resources, no operations, no events and no
    /// recording, in the imaging state `state`.
    pub fn new(state: StateSnapshot<T>) -> (b: Self)
        ensures
            b.current_state() == state,
            b.event_log() == Seq::<Event<T>>::empty(),
            b.path_slots() == Seq::<Option<T::PathDesc>>::empty(),
            b.image_slots() == Seq::<Option<(T::ImageDesc, Seq<u8>)>>::empty(),
            b.paint_slots() == Seq::<Option<T::PaintDesc>>::empty(),
            b.picture_slots() == Seq::<Option<T::PictureDesc>>::empty(),
            b.op_log() == Seq::<ImagingOp<T>>::empty(),
            b.recording() is None,
    {
        let b = RefBackend {
            paths: Vec::new(),
            images: Vec::new(),
            paints: Vec::new(),
            pictures: Vec::new(),
            events: Vec::new(),
            ops: Vec::new(),
            recording_start: None,
            state,
        };
        assert(b.image_slots() =~= Seq::<Option<(T::ImageDesc, Seq<u8>)>>::empty());
        b
    }

    /// Stores a path descriptor; its id is the index of its new slot.
    pub fn create_path(&mut self, desc: T::PathDesc) -> (id: PathId)
        requires
            old(self).path_slots().len() <= u32::MAX,
        ensures
            id.0 == old(self).path_slots().len(),
            final(self).path_slots() == old(self).path_slots().push(Some(desc)),
            final(self).image_slots() == old(self).image_slots(),
            final(self).paint_slots() == old(self).paint_slots(),
            final(self).picture_slots() == old(self).picture_slots(),
            final(self).op_log() == old(self).op_log(),
            final(self).recording() == old(self).recording(),
            final(self).event_log() == old(self).event_log(),
            final(self).current_state() == old(self).current_state(),
    {
        PathId(allocate_slot(&mut self.paths, desc))
    }

    /// Empties the slot of path `id`; an id already destroyed or never
    /// handed out leaves the backend unchanged.
    pub fn destroy_path(&mut self, id: PathId)
        ensures
            final(self).path_slots() == release_slot(old(self).path_slots(), id.0 as int),
            final(self).image_slots() == old(self).image_slots(),
            final(self).paint_slots() == old(self).paint_slots(),
            final(self).picture_slots() == old(self).picture_slots(),
            final(self).op_log() == old(self).op_log(),
            final(self).recording() == old(self).recording(),
            final(self).event_log() == old(self).event_log(),
            final(self).current_state() == old(self).current_state(),
    {
        release(&mut self.paths, id.0);
    }

    /// Stores an image descriptor with a copy of its pixel bytes; its id is
    /// the index of its new slot.
    pub fn create_image(&mut self, desc: T::ImageDesc, pixels: &[u8]) -> (id: ImageId)
        requires
            old(self).image_slots().len() <= u32::MAX,
        ensures
            id.0 == old(self).image_slots().len(),
            final(self).image_slots() == old(self).image_slots().push(Some((desc, pixels@))),
            final(self).path_slots() == old(self).path_slots(),
            final(self).paint_slots() == old(self).paint_slots(),
            final(self).picture_slots() == old(self).picture_slots(),
            final(self).op_log() == old(self).op_log(),
            final(self).recording() == old(self).recording(),
            final(self).event_log() == old(self).event_log(),
            final(self).current_state() == old(self).current_state(),
    {
        let ghost before = self.images@;
        let copy = vstd::slice::slice_to_vec(pixels);
        let id = allocate_slot(&mut self.images, (desc, copy));
        assert(self.image_slots() =~= before.map_values(|e: Option<(T::ImageDesc, Vec<u8>)>| image_entry(e)).push(
            Some((desc, pixels@)),
        ));
        ImageId(id)
    }

    /// Empties the slot of image `id`; an id already destroyed or never
    /// handed out leaves the backend unchanged.
    pub fn destroy_image(&mut self, id: ImageId)
        ensures
            final(self).image_slots() == release_slot(old(self).image_slots(), id.0 as int),
            final(self).path_slots() == old(self).path_slots(),
            final(self).paint_slots() == old(self).paint_slots(),
            final(self).picture_slots() == old(self).picture_slots(),
            final(self).op_log() == old(self).op_log(),
            final(self).recording() == old(self).recording(),
            final(self).event_log() == old(self).event_log(),
            final(self).current_state() == old(self).current_state(),
    {
        let ghost before = self.images@;
        release(&mut self.images, id.0);
        assert(self.image_slots() =~= release_slot(
            before.map_values(|e: Option<(T::ImageDesc, Vec<u8>)>| image_entry(e)),
            id.0 as int,
        ));
    }

    /// Stores a paint descriptor; its id is the index of its new slot.
    pub fn create_paint(&mut self, desc: T::PaintDesc) -> (id: PaintId)
        requires
            old(self).paint_slots().len() <= u32::MAX,
        ensures
            id.0 == old(self).paint_slots().len(),
            final(self).paint_slots() == old(self).paint_slots().push(Some(desc)),
            final(self).path_slots() == old(self).path_slots(),
            final(self).image_slots() == old(self).image_slots(),
            final(self).picture_slots() == old(self).picture_slots(),
            final(self).op_log() == old(self).op_log(),
            final(self).recording() == old(self).recording(),
            final(self).event_log() == old(self).event_log(),
            final(self).current_state() == old(self).current_state(),
    {
        PaintId(allocate_slot(&mut self.paints, desc))
    }

    /// Empties the slot of paint `id`; an id already destroyed or never
    /// handed out leaves the backend unchanged.
    pub fn destroy_paint(&mut self, id: PaintId)
        ensures
            final(self).paint_slots() == release_slot(old(self).paint_slots(), id.0 as int),
            final(self).path_slots() == old(self).path_slots(),
            final(self).image_slots() == old(self).image_slots(),
            final(self).picture_slots() == old(self).picture_slots(),
            final(self).op_log() == old(self).op_log(),
            final(self).recording() == old(self).recording(),
            final(self).event_log() == old(self).event_log(),
            final(self).current_state() == old(self).current_state(),
    {
        release(&mut self.paints, id.0);
    }

    /// Stores a picture descriptor; its id is the index of its new slot.
    pub fn create_picture(&mut self, desc: T::PictureDesc) -> (id: PictureId)
        requires
            old(self).picture_slots().len() <= u32::MAX,
        ensures
            id.0 == old(self).picture_slots().len(),
            final(self).picture_slots() == old(self).picture_slots().push(Some(desc)),
            final(self).path_slots() == old(self).path_slots(),
            final(self).image_slots() == old(self).image_slots(),
            final(self).paint_slots() == old(self).paint_slots(),
            final(self).op_log() == old(self).op_log(),
            final(self).recording() == old(self).recording(),
            final(self).event_log() == old(self).event_log(),
            final(self).current_state() == old(self).current_state(),
    {
        PictureId(allocate_slot(&mut self.pictures, desc))
    }

    /// Empties the slot of picture `id`; an id already destroyed or never
    /// handed out leaves the backend unchanged.
    pub fn destroy_picture(&mut self, id: PictureId)
        ensures
            final(self).picture_slots() == release_slot(old(self).picture_slots(), id.0 as int),
            final(self).path_slots() == old(self).path_slots(),
            final(self).image_slots() == old(self).image_slots(),
            final(self).paint_slots() == old(self).paint_slots(),
            final(self).op_log() == old(self).op_log(),
            final(self).recording() == old(self).recording(),
            final(self).event_log() == old(self).event_log(),
            final(self).current_state() == old(self).current_state(),
    {
        release(&mut self.pictures, id.0);
    }

    /// Applies a state operation: the current snapshot is updated by it,
    /// the operation is appended to the log, and a state event with a copy
    /// of the operation and a copy of the updated snapshot is recorded.
    pub fn state(&mut self, op: StateOp<T>)
        ensures
            snapshot_follows(old(self).current_state(), op, final(self).current_state()),
            final(self).op_log() == old(self).op_log().push(ImagingOp::State(op)),
            final(self).event_log().len() == old(self).event_log().len() + 1,
            final(self).event_log().drop_last() == old(self).event_log(),
            final(self).event_log().last() matches Event::State { op: o, state: st } && cloned(op, o)
                && cloned(final(self).current_state(), st),
            final(self).recording() == old(self).recording(),
            final(self).path_slots() == old(self).path_slots(),
            final(self).image_slots() == old(self).image_slots(),
            final(self).paint_slots() == old(self).paint_slots(),
            final(self).picture_slots() == old(self).picture_slots(),
    {
        self.state.update(&op);
        let logged = op.clone();
        let snapshot = self.state.clone();
        self.events.push(Event::State { op: logged, state: snapshot });
        self.ops.push(ImagingOp::State(op));
        proof {
            assert(self.events@.drop_last() =~= old(self).events@);
        }
    }

    /// Applies a draw operation: the operation is appended to the log, and a
    /// draw event with a copy of the operation and a copy of the current
    /// snapshot is recorded. The snapshot stays.
    pub fn draw(&mut self, op: DrawOp<T>)
        ensures
            final(self).op_log() == old(self).op_log().push(ImagingOp::Draw(op)),
            final(self).current_state() == old(self).current_state(),
            final(self).event_log().len() == old(self).event_log().len() + 1,
            final(self).event_log().drop_last() == old(self).event_log(),
            final(self).event_log().last() matches Event::Draw { op: o, state: st } && cloned(op, o)
                && cloned(old(self).current_state(), st),
            final(self).recording() == old(self).recording(),
            final(self).path_slots() == old(self).path_slots(),
            final(self).image_slots() == old(self).image_slots(),
            final(self).paint_slots() == old(self).paint_slots(),
            final(self).picture_slots() == old(self).picture_slots(),
    {
        let logged = op.clone();
        let snapshot = self.state.clone();
        self.events.push(Event::Draw { op: logged, state: snapshot });
        self.ops.push(ImagingOp::Draw(op));
        proof {
            assert(self.events@.drop_last() =~= old(self).events@);
        }
    }

    /// The recorded events, in order.
    pub fn events(&self) -> (events: &[Event<T>])
        ensures
            events@ == self.event_log(),
    {
        self.events.as_slice()
    }

    /// The current imaging state snapshot.
    pub fn current(&self) -> (state: &StateSnapshot<T>)
        ensures
            *state == self.current_state(),
    {
        &self.state
    }

    /// Starts a recording at the current end of the log; a recording that was
    /// already active is restarted here.
    pub fn begin_record(&mut self)
        ensures
            final(self).recording() == Some(old(self).op_log().len() as usize),
            final(self).op_log() == old(self).op_log(),
            final(self).event_log() == old(self).event_log(),
            final(self).current_state() == old(self).current_state(),
            final(self).path_slots() == old(self).path_slots(),
            final(self).image_slots() == old(self).image_slots(),
            final(self).paint_slots() == old(self).paint_slots(),
            final(self).picture_slots() == old(self).picture_slots(),
    {
        self.recording_start = Some(self.ops.len());
    }

    /// Ends the active recording and returns a copy of the operations it
    /// captured: those from its start to the end of the log, or none when no
    /// recording was active. The log itself is kept. The reference backend
    /// prepares no acceleration, so its recordings carry none and are valid
    /// only under the exact transform they were recorded with.
    pub fn end_record(&mut self) -> (recording: Recording<ImagingOp<T>>)
        ensures
            recording.ops@.len() == recorded_span(old(self).op_log(), old(self).recording()).len(),
            forall|i: int|
                0 <= i < recording.ops@.len() ==> cloned::<ImagingOp<T>>(
                    recorded_span(old(self).op_log(), old(self).recording())[i],
                    #[trigger] recording.ops@[i],
                ),
            recording.valid_under == TransformClass::Exact,
            recording.acceleration is None,
            recording.original_ctm is None,
            final(self).recording() is None,
            final(self).op_log() == old(self).op_log(),
            final(self).event_log() == old(self).event_log(),
            final(self).current_state() == old(self).current_state(),
            final(self).path_slots() == old(self).path_slots(),
            final(self).image_slots() == old(self).image_slots(),
            final(self).paint_slots() == old(self).paint_slots(),
            final(self).picture_slots() == old(self).picture_slots(),
    {
        let len = self.ops.len();
        let start = match self.recording_start {
            Some(s) => if s <= len {
                s
            } else {
                len
            },
            None => len,
        };
        self.recording_start = None;
        let ghost span = self.ops@.subrange(start as int, len as int);
        let mut recorded: Vec<ImagingOp<T>> = Vec::new();
        let mut i: usize = start;
        while i < len
            invariant
                start <= i <= len,
                len == self.ops@.len(),
                span == self.ops@.subrange(start as int, len as int),
                recorded@.len() == i - start,
                forall|k: int| 0 <= k < recorded@.len() ==> cloned::<ImagingOp<T>>(span[k], #[trigger] recorded@[k]),
            decreases len - i,
        {
            let op = self.ops[i].clone();
            recorded.push(op);
            i = i + 1;
        }
        Recording { ops: recorded, acceleration: None, valid_under: TransformClass::Exact, original_ctm: None }
    }

    /// The applied operations, in order.
    pub fn ops(&self) -> (ops: &[ImagingOp<T>])
        ensures
            ops@ == self.op_log(),
    {
        self.ops.as_slice()
    }

    /// Clears the recorded events, the operation log and any active
    /// recording; resources and the current snapshot stay.
    pub fn clear_events(&mut self)
        ensures
            final(self).event_log() == Seq::<Event<T>>::empty(),
            final(self).op_log() == Seq::<ImagingOp<T>>::empty(),
            final(self).recording() is None,
            final(self).current_state() == old(self).current_state(),
            final(self).path_slots() == old(self).path_slots(),
            final(self).image_slots() == old(self).image_slots(),
            final(self).paint_slots() == old(self).paint_slots(),
            final(self).picture_slots() == old(self).picture_slots(),
    {
        self.events.clear();
        self.ops.clear();
        self.recording_start = None;
    }
}

/// The reference backend applies an operation by appending it to its log,
/// and records from its log.
impl<T: ImagingTypes> ImagingBackend<T> for RefBackend<T> {
    open spec fn applied(&self) -> Seq<ImagingOp<T>> {
        self.op_log()
    }

    open spec fn recording_start(&self) -> Option<usize> {
        self.recording()
    }

    fn state(&mut self, op: StateOp<T>)
        ensures
            snapshot_follows(old(self).current_state(), op, final(self).current_state()),
    {
        RefBackend::state(self, op);
    }

    fn draw(&mut self, op: DrawOp<T>)
        ensures
            final(self).current_state() == old(self).current_state(),
    {
        RefBackend::draw(self, op);
    }

    fn begin_record(&mut self) {
        RefBackend::begin_record(self);
    }

    fn end_record(&mut self) -> (recording: Recording<ImagingOp<T>>) {
        RefBackend::end_record(self)
    }
}

} // verus!
