//! Runtime interaction state: hover tracking and the interactions one event
//! emits.

use vstd::prelude::*;

use crate::ids::ElementId;

verus! {

/// High-level interactions emitted while handling one pointer or focus event.
#[derive(Copy, Clone, Debug, PartialEq, Eq, Structural)]
pub enum Interaction {
    /// Pointer entered an element.
    HoverEntered(ElementId),
    /// Pointer left an element.
    HoverLeft(ElementId),
    /// Primary press began on an element.
    PressStarted(ElementId),
    /// Primary press ended on an element.
    PressEnded(ElementId),
    /// Primary click completed on an element.
    Clicked(ElementId),
    /// A scroll gesture was applied to an element.
    Scrolled(ElementId),
    /// An element was submitted (for example, Enter in a text input).
    Submitted(ElementId),
    /// Keyboard focus moved to an element.
    FocusChanged(ElementId),
}

/// Batch of high-level interactions emitted during one event.
#[derive(Clone, Debug)]
pub struct InteractionBatch {
    events: Vec<Interaction>,
}

impl Default for InteractionBatch {
    /// An empty batch.
    fn default() -> (b: Self)
        ensures
            b.view_events() == Seq::<Interaction>::empty(),
    {
        InteractionBatch::new()
    }
}

impl InteractionBatch {
    /// The interactions, in emission order.
    pub closed spec fn view_events(&self) -> Seq<Interaction> {
        self.events@
    }

    /// Creates an empty batch.
    pub fn new() -> (b: Self)
        ensures
            b.view_events() == Seq::<Interaction>::empty(),
    {
        InteractionBatch { events: Vec::new() }
    }

    /// Appends one interaction.
    pub fn push(&mut self, interaction: Interaction)
        ensures
            final(self).view_events() == old(self).view_events().push(interaction),
    {
        self.events.push(interaction);
    }

    /// Returns `true` if the batch is empty.
    pub fn is_empty(&self) -> (b: bool)
        ensures
            b == (self.view_events().len() == 0),
    {
        self.events.len() == 0
    }

    /// Returns the interactions in emission order.
    pub fn events(&self) -> (events: &[Interaction])
        ensures
            events@ == self.view_events(),
    {
        self.events.as_slice()
    }
}

/// Pushing interactions one at a time onto an empty batch keeps them in
/// emission order: when each batch in `steps` is the one before it with the
/// next of `items` pushed, the last batch holds exactly `items`, and it is
/// empty only when nothing was pushed.
pub proof fn lemma_pushes_keep_emission_order(steps: Seq<InteractionBatch>, items: Seq<Interaction>)
    requires
        steps.len() == items.len() + 1,
        steps[0].view_events() == Seq::<Interaction>::empty(),
        forall|k: int|
            0 <= k < items.len() ==> steps[k + 1].view_events() == steps[k].view_events().push(
                #[trigger] items[k],
            ),
    ensures
        steps.last().view_events() == items,
        (steps.last().view_events().len() == 0) == (items.len() == 0),
    decreases items.len(),
{
    if items.len() > 0 {
        let n = items.len() - 1;
        let earlier = steps.drop_last();
        let before = items.drop_last();
        assert forall|k: int| 0 <= k < before.len() implies earlier[k + 1].view_events()
            == earlier[k].view_events().push(#[trigger] before[k]) by {
            assert(items[k] == before[k]);
        }
        lemma_pushes_keep_emission_order(earlier, before);
        assert(items[n] == items.last());
        assert(before.push(items.last()) =~= items);
    }
}

/// Hover transition for one element.
#[derive(Copy, Clone, Debug, PartialEq, Eq)]
pub enum HoverEvent<T> {
    /// The pointer entered the element.
    Enter(T),
    /// The pointer left the element.
    Leave(T),
}

/// Tracks the hovered root-to-target path and computes enter/leave
/// transitions as the pointer moves.
#[derive(Clone, Debug)]
pub struct HoverState<T> {
    current: Vec<T>,
}

/// Length of the longest common prefix of two paths.
pub open spec fn common_prefix_len<T>(a: Seq<T>, b: Seq<T>) -> nat
    decreases a.len(),
{
    if a.len() == 0 || b.len() == 0 || a[0] != b[0] {
        0
    } else {
        1 + common_prefix_len(a.drop_first(), b.drop_first())
    }
}

/// Transitions from path `old` to path `new`: leave the old elements past the
/// common prefix, innermost first, then enter the new ones, outermost first.
pub open spec fn hover_transitions<T>(old: Seq<T>, new: Seq<T>) -> Seq<HoverEvent<T>> {
    let c = common_prefix_len(old, new) as int;
    Seq::new((old.len() - c) as nat, |i: int| HoverEvent::Leave(old[old.len() - 1 - i])) + Seq::new(
        (new.len() - c) as nat,
        |i: int| HoverEvent::Enter(new[c + i]),
    )
}

/// The common prefix is a prefix of both paths, and the paths differ right
/// after it.
pub proof fn lemma_common_prefix<T>(a: Seq<T>, b: Seq<T>)
    ensures
        common_prefix_len(a, b) <= a.len(),
        common_prefix_len(a, b) <= b.len(),
        forall|j: int| 0 <= j < common_prefix_len(a, b) ==> a[j] == b[j],
        common_prefix_len(a, b) < a.len() && common_prefix_len(a, b) < b.len() ==> a[common_prefix_len(
            a,
            b,
        ) as int] != b[common_prefix_len(a, b) as int],
    decreases a.len(),
{
    if a.len() > 0 && b.len() > 0 && a[0] == b[0] {
        lemma_common_prefix(a.drop_first(), b.drop_first());
        assert forall|j: int| 0 <= j < common_prefix_len(a, b) implies a[j] == b[j] by {
            if j > 0 {
                assert(a[j] == a.drop_first()[j - 1]);
                assert(b[j] == b.drop_first()[j - 1]);
            }
        }
        if common_prefix_len(a, b) < a.len() && common_prefix_len(a, b) < b.len() {
            let c = common_prefix_len(a, b) as int;
            assert(a[c] == a.drop_first()[c - 1]);
            assert(b[c] == b.drop_first()[c - 1]);
        }
    }
}

/// Moving the pointer from path `old` to path `new`, where the two agree on
/// their first `c` elements and differ right after (or one of them ends
/// there), leaves every element of `old` past position `c`, innermost first,
/// and then enters every element of `new` past `c`, outermost first; the
/// shared elements get no event.
pub proof fn lemma_hover_leaves_then_enters<T>(old: Seq<T>, new: Seq<T>, c: int)
    requires
        0 <= c <= old.len(),
        c <= new.len(),
        forall|j: int| 0 <= j < c ==> old[j] == new[j],
        c == old.len() || c == new.len() || old[c] != new[c],
    ensures
        hover_transitions(old, new).len() == (old.len() - c) + (new.len() - c),
        forall|k: int|
            c <= k < old.len() ==> hover_transitions(old, new)[old.len() - 1 - k] == HoverEvent::Leave(
                #[trigger] old[k],
            ),
        forall|k: int|
            c <= k < new.len() ==> hover_transitions(old, new)[old.len() - 2 * c + k] == HoverEvent::Enter(
                #[trigger] new[k],
            ),
{
    lemma_common_prefix(old, new);
    let k = common_prefix_len(old, new) as int;
    if k < c {
        assert(old[k] == new[k]);
    }
    if c < k {
        assert(old[c] == new[c]);
    }
    assert(k == c);
}

/// A path that does not change produces no transition.
pub proof fn lemma_same_path_no_transitions<T>(path: Seq<T>)
    ensures
        hover_transitions(path, path) == Seq::<HoverEvent<T>>::empty(),
{
    lemma_common_prefix(path, path);
    let c = common_prefix_len(path, path);
    if c < path.len() {
        assert(path[c as int] == path[c as int]);
    }
    assert(hover_transitions(path, path) =~= Seq::<HoverEvent<T>>::empty());
}

impl<T: Copy + PartialEq> HoverState<T> {
    /// The hovered path, root first.
    pub closed spec fn path(&self) -> Seq<T> {
        self.current@
    }

    /// Creates a state with nothing hovered.
    pub fn new() -> (s: Self)
        ensures
            s.path() == Seq::<T>::empty(),
    {
        HoverState { current: Vec::new() }
    }

    /// Returns the hovered path, root first.
    pub fn current_path(&self) -> (path: &[T])
        ensures
            path@ == self.path(),
    {
        self.current.as_slice()
    }

    /// Moves the hovered path to `path` (root first) and returns the
    /// leave/enter transitions in the order they happen.
    pub fn update_path(&mut self, path: &[T]) -> (events: Vec<HoverEvent<T>>)
        requires
            vstd::laws_eq::obeys_concrete_eq::<T>(),
        ensures
            final(self).path() == path@,
            events@ == hover_transitions(old(self).path(), path@),
    {
        let ghost old_path = self.current@;
        proof {
            lemma_common_prefix(old_path, path@);
        }
        let old_len = self.current.len();
        let new_len = path.len();
        let mut c: usize = 0;
        while c < old_len && c < new_len && crate::keys::same_key(&self.current[c], &path[c])
            invariant
                old_len == old_path.len(),
                new_len == path@.len(),
                self.current@ == old_path,
                c <= old_len,
                c <= new_len,
                c <= common_prefix_len(old_path, path@),
                vstd::laws_eq::obeys_concrete_eq::<T>(),
                forall|j: int| 0 <= j < common_prefix_len(old_path, path@) ==> old_path[j] == path@[j],
                common_prefix_len(old_path, path@) < old_path.len() && common_prefix_len(old_path, path@)
                    < path@.len() ==> old_path[common_prefix_len(old_path, path@) as int]
                    != path@[common_prefix_len(old_path, path@) as int],
                common_prefix_len(old_path, path@) <= old_path.len(),
                common_prefix_len(old_path, path@) <= path@.len(),
            decreases old_len - c,
        {
            c = c + 1;
        }
        assert(c == common_prefix_len(old_path, path@));
        let mut events: Vec<HoverEvent<T>> = Vec::new();
        let mut i: usize = old_len;
        while i > c
            invariant
                c <= i <= old_len,
                old_len == old_path.len(),
                self.current@ == old_path,
                events@ == Seq::new((old_len - i) as nat, |j: int| HoverEvent::Leave(old_path[old_path.len() - 1 - j])),
            decreases i,
        {
            let leaving = self.current[i - 1];
            events.push(HoverEvent::Leave(leaving));
            proof {
                assert(events@ =~= Seq::new((old_len - (i - 1)) as nat, |j: int| HoverEvent::Leave(old_path[old_path.len() - 1 - j])));
            }
            i = i - 1;
        }
        let ghost leaves = events@;
        let mut j: usize = c;
        while j < new_len
            invariant
                c <= j <= new_len,
                new_len == path@.len(),
                events@ == leaves + Seq::new((j - c) as nat, |t: int| HoverEvent::Enter(path@[c + t])),
            decreases new_len - j,
        {
            events.push(HoverEvent::Enter(path[j]));
            proof {
                assert(events@ =~= leaves + Seq::new((j + 1 - c) as nat, |t: int| HoverEvent::Enter(path@[c + t])));
            }
            j = j + 1;
        }
        let mut next: Vec<T> = Vec::new();
        let mut k: usize = 0;
        while k < new_len
            invariant
                k <= new_len,
                new_len == path@.len(),
                next@ == path@.take(k as int),
            decreases new_len - k,
        {
            next.push(path[k]);
            proof {
                assert(next@ =~= path@.take(k + 1));
            }
            k = k + 1;
        }
        proof {
            assert(next@ =~= path@);
        }
        self.current = next;
        events
    }
}

/// Mutable runtime state for a retained UI: the hovered path and the active
/// press target.
#[derive(Clone, Debug)]
pub struct RuntimeState {
    hover: HoverState<ElementId>,
    pressed_target: Option<ElementId>,
}

impl Default for RuntimeState {
    /// Empty interaction state, as [`RuntimeState::new`] makes it.
    fn default() -> (s: Self)
        ensures
            s.hovered() == Seq::<ElementId>::empty(),
            s.pressed() is None,
    {
        RuntimeState::new()
    }
}

impl RuntimeState {
    /// The hovered path, root first.
    pub closed spec fn hovered(&self) -> Seq<ElementId> {
        self.hover.path()
    }

    /// The active press target.
    pub closed spec fn pressed(&self) -> Option<ElementId> {
        self.pressed_target
    }

    /// Creates empty interaction state.
    pub fn new() -> (s: Self)
        ensures
            s.hovered() == Seq::<ElementId>::empty(),
            s.pressed() is None,
    {
        RuntimeState { hover: HoverState::new(), pressed_target: None }
    }

    /// Returns the current hovered path.
    pub fn hovered_path(&self) -> (path: &[ElementId])
        ensures
            path@ == self.hovered(),
    {
        self.hover.current_path()
    }

    /// Returns the active press target, if any.
    pub fn pressed_target(&self) -> (t: Option<ElementId>)
        ensures
            t == self.pressed(),
    {
        self.pressed_target
    }
}

} // verus!
