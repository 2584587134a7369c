//! Spatial index backends over axis-aligned boxes, with per-subtree summaries
//! and query filters that backends may use to prune traversal.

use vstd::prelude::*;

verus! {

/// Coordinate type of the spatial index: a totally ordered copyable scalar.
pub trait Scalar: Copy {
    /// The order on coordinates.
    spec fn at_most(self, other: Self) -> bool;

    /// Compares two coordinates.
    fn le(&self, other: &Self) -> (r: bool)
        ensures
            r == self.at_most(*other),
    ;

    /// The order is reflexive, transitive, antisymmetric and total.
    proof fn lemma_total_order()
        ensures
            forall|a: Self| #[trigger] a.at_most(a),
            forall|a: Self, b: Self, c: Self|
                #[trigger] a.at_most(b) && #[trigger] b.at_most(c) ==> a.at_most(c),
            forall|a: Self, b: Self| #[trigger] a.at_most(b) && b.at_most(a) ==> a == b,
            forall|a: Self, b: Self| #[trigger] a.at_most(b) || b.at_most(a),
    ;
}

impl Scalar for i64 {
    open spec fn at_most(self, other: Self) -> bool {
        self <= other
    }

    fn le(&self, other: &Self) -> (r: bool) {
        *self <= *other
    }

    proof fn lemma_total_order() {
    }
}

impl Scalar for i32 {
    open spec fn at_most(self, other: Self) -> bool {
        self <= other
    }

    fn le(&self, other: &Self) -> (r: bool) {
        *self <= *other
    }

    proof fn lemma_total_order() {
    }
}

impl Scalar for u32 {
    open spec fn at_most(self, other: Self) -> bool {
        self <= other
    }

    fn le(&self, other: &Self) -> (r: bool) {
        *self <= *other
    }

    proof fn lemma_total_order() {
    }
}

/// Axis-aligned box with inclusive bounds.
#[derive(Copy, Clone, Debug)]
pub struct Aabb2D<T> {
    /// Smallest x.
    pub min_x: T,
    /// Smallest y.
    pub min_y: T,
    /// Largest x.
    pub max_x: T,
    /// Largest y.
    pub max_y: T,
}

/// Whether the box holds the point `(x, y)`, bounds included.
pub open spec fn box_contains<T: Scalar>(a: Aabb2D<T>, x: T, y: T) -> bool {
    a.min_x.at_most(x) && x.at_most(a.max_x) && a.min_y.at_most(y) && y.at_most(a.max_y)
}

/// Whether the box holds no point.
pub open spec fn box_is_empty<T: Scalar>(a: Aabb2D<T>) -> bool {
    !(a.min_x.at_most(a.max_x) && a.min_y.at_most(a.max_y))
}

/// The larger of two coordinates.
pub open spec fn scalar_max<T: Scalar>(a: T, b: T) -> T {
    if a.at_most(b) {
        b
    } else {
        a
    }
}

/// The smaller of two coordinates.
pub open spec fn scalar_min<T: Scalar>(a: T, b: T) -> T {
    if a.at_most(b) {
        a
    } else {
        b
    }
}

/// The overlap of two boxes.
pub open spec fn box_intersection<T: Scalar>(a: Aabb2D<T>, b: Aabb2D<T>) -> Aabb2D<T> {
    Aabb2D {
        min_x: scalar_max(a.min_x, b.min_x),
        min_y: scalar_max(a.min_y, b.min_y),
        max_x: scalar_min(a.max_x, b.max_x),
        max_y: scalar_min(a.max_y, b.max_y),
    }
}

impl<T: Scalar> Aabb2D<T> {
    /// Creates a box from its bounds.
    pub fn new(min_x: T, min_y: T, max_x: T, max_y: T) -> (a: Self)
        ensures
            a.min_x == min_x,
            a.min_y == min_y,
            a.max_x == max_x,
            a.max_y == max_y,
    {
        Aabb2D { min_x, min_y, max_x, max_y }
    }

    /// Returns whether the box holds the point, bounds included.
    pub fn contains_point(&self, x: T, y: T) -> (r: bool)
        ensures
            r == box_contains(*self, x, y),
    {
        self.min_x.le(&x) && x.le(&self.max_x) && self.min_y.le(&y) && y.le(&self.max_y)
    }

    /// Returns the overlap of two boxes (empty when they are disjoint).
    pub fn intersect(&self, other: &Self) -> (r: Self)
        ensures
            r == box_intersection(*self, *other),
    {
        let min_x = if self.min_x.le(&other.min_x) {
            other.min_x
        } else {
            self.min_x
        };
        let min_y = if self.min_y.le(&other.min_y) {
            other.min_y
        } else {
            self.min_y
        };
        let max_x = if self.max_x.le(&other.max_x) {
            self.max_x
        } else {
            other.max_x
        };
        let max_y = if self.max_y.le(&other.max_y) {
            self.max_y
        } else {
            other.max_y
        };
        Aabb2D { min_x, min_y, max_x, max_y }
    }

    /// Returns whether the box holds no point.
    pub fn is_empty(&self) -> (r: bool)
        ensures
            r == box_is_empty(*self),
    {
        !(self.min_x.le(&self.max_x) && self.min_y.le(&self.max_y))
    }
}

/// A point lies in the overlap of two boxes exactly when it lies in both.
pub proof fn lemma_intersection_contains<T: Scalar>(a: Aabb2D<T>, b: Aabb2D<T>, x: T, y: T)
    ensures
        box_contains(box_intersection(a, b), x, y) <==> box_contains(a, x, y) && box_contains(b, x, y),
{
    T::lemma_total_order();
}

/// Two boxes overlap (their intersection is non-empty) exactly when some
/// point lies in both.
pub proof fn lemma_overlap_has_common_point<T: Scalar>(a: Aabb2D<T>, b: Aabb2D<T>)
    ensures
        !box_is_empty(box_intersection(a, b)) ==> box_contains(a, box_intersection(a, b).min_x, box_intersection(a, b).min_y)
            && box_contains(b, box_intersection(a, b).min_x, box_intersection(a, b).min_y),
        box_is_empty(box_intersection(a, b)) ==> forall|x: T, y: T|
            !(#[trigger] box_contains(a, x, y) && box_contains(b, x, y)),
{
    T::lemma_total_order();
    let c = box_intersection(a, b);
    assert forall|x: T, y: T| box_is_empty(c) implies !(#[trigger] box_contains(a, x, y) && box_contains(b, x, y)) by {
        lemma_intersection_contains(a, b, x, y);
        if box_contains(a, x, y) && box_contains(b, x, y) {
            assert(c.min_x.at_most(x) && x.at_most(c.max_x));
            assert(c.min_y.at_most(y) && y.at_most(c.max_y));
        }
    }
}

/// Summary value cached per subtree for pruning.
///
/// Summaries form a commutative monoid under `combine` with `empty` as its
/// identity.
pub trait SubtreeSummary: Sized {
    /// The identity summary.
    spec fn spec_empty() -> Self;

    /// The summary of two subtrees together.
    spec fn spec_combine(left: Self, right: Self) -> Self;

    /// Identity summary for an empty subtree.
    fn empty() -> (s: Self)
        ensures
            s == Self::spec_empty(),
    ;

    /// Combine summaries of two child subtrees.
    fn combine(left: Self, right: Self) -> (s: Self)
        ensures
            s == Self::spec_combine(left, right),
    ;

    /// `combine` is associative and commutative, and `empty` is its identity.
    proof fn lemma_monoid(a: Self, b: Self, c: Self)
        ensures
            Self::spec_combine(a, Self::spec_empty()) == a,
            Self::spec_combine(a, b) == Self::spec_combine(b, a),
            Self::spec_combine(Self::spec_combine(a, b), c) == Self::spec_combine(
                a,
                Self::spec_combine(b, c),
            ),
    ;
}

impl SubtreeSummary for () {
    open spec fn spec_empty() -> Self {
        ()
    }

    open spec fn spec_combine(left: Self, right: Self) -> Self {
        ()
    }

    fn empty() -> (s: Self) {
    }

    fn combine(left: Self, right: Self) -> (s: Self) {
    }

    proof fn lemma_monoid(a: Self, b: Self, c: Self) {
    }
}

impl SubtreeSummary for u64 {
    open spec fn spec_empty() -> Self {
        0
    }

    open spec fn spec_combine(left: Self, right: Self) -> Self {
        left | right
    }

    fn empty() -> (s: Self) {
        0
    }

    fn combine(left: Self, right: Self) -> (s: Self) {
        left | right
    }

    proof fn lemma_monoid(a: Self, b: Self, c: Self) {
        assert(a | 0 == a) by (bit_vector);
        assert(a | b == b | a) by (bit_vector);
        assert((a | b) | c == a | (b | c)) by (bit_vector);
    }
}

/// Query-dependent filter for subtree summaries.
///
/// A filter decides whether a subtree *may* contain relevant content for a
/// query. Returning `false` must guarantee that no descendant is relevant.
pub trait SubtreeFilter<S, Q> {
    /// Whether a subtree summarised by `summary` may hold matches for `query`.
    spec fn spec_may_contain(&self, summary: S, query: Q) -> bool;

    /// Returns `true` if the subtree described by `summary` might contain
    /// matches for `query`.
    fn may_contain(&self, summary: &S, query: &Q) -> (r: bool)
        ensures
            r == self.spec_may_contain(*summary, *query),
    ;
}

/// Trivial filter for the zero-sized `()` summary: never prunes.
impl<Q> SubtreeFilter<(), Q> for () {
    open spec fn spec_may_contain(&self, summary: (), query: Q) -> bool {
        true
    }

    fn may_contain(&self, summary: &(), query: &Q) -> (r: bool) {
        true
    }
}

/// Filter for `u64` bitmask summaries: a subtree is relevant when its summary
/// shares a bit with the query mask.
impl SubtreeFilter<u64, u64> for () {
    open spec fn spec_may_contain(&self, summary: u64, query: u64) -> bool {
        summary & query != 0
    }

    fn may_contain(&self, summary: &u64, query: &u64) -> (r: bool) {
        (*summary & *query) != 0
    }
}

/// Pruning with bitmask summaries is sound: a combined subtree may hold a
/// match exactly when one of its parts may.
pub proof fn lemma_bitmask_filter_combines(a: u64, b: u64, q: u64)
    ensures
        ().spec_may_contain(<u64 as SubtreeSummary>::spec_combine(a, b), q) <==> (
        ().spec_may_contain(a, q) || ().spec_may_contain(b, q)),
        !().spec_may_contain(<u64 as SubtreeSummary>::spec_empty(), q),
{
    assert(((a | b) & q != 0) <==> (a & q != 0 || b & q != 0)) by (bit_vector);
    assert(0u64 & q == 0) by (bit_vector);
}

/// Spatial backend abstraction: a table of slots, each holding a box.
pub trait Backend<T: Scalar, S: SubtreeSummary = ()>: Sized {
    /// The live slots and their boxes.
    spec fn live(&self) -> Map<usize, Aabb2D<T>>;

    /// Insert a new slot into the spatial structure.
    fn insert(&mut self, slot: usize, aabb: Aabb2D<T>)
        requires
            slot < usize::MAX,
        ensures
            final(self).live() == old(self).live().insert(slot, aabb),
    ;

    /// Update an existing slot's box.
    fn update(&mut self, slot: usize, aabb: Aabb2D<T>)
        ensures
            old(self).live().dom().contains(slot) ==> final(self).live() == old(self).live().insert(
                slot,
                aabb,
            ),
    ;

    /// Remove a slot from the spatial structure.
    fn remove(&mut self, slot: usize)
        ensures
            final(self).live() == old(self).live().remove(slot),
    ;

    /// Clear all spatial structures.
    fn clear(&mut self)
        ensures
            final(self).live() == Map::<usize, Aabb2D<T>>::empty(),
    ;

    /// Optionally associate a subtree summary with a slot.
    ///
    /// Backends that support subtree-level pruning cache summaries in their
    /// internal nodes; by default summaries are ignored.
    fn set_summary(&mut self, slot: usize, summary: S)
        ensures
            final(self).live() == old(self).live(),
    {
    }

    /// Slots whose box contains the point, each listed once.
    fn query_point(&self, x: T, y: T) -> (slots: Vec<usize>)
        ensures
            slots@.no_duplicates(),
            forall|s: usize| #[trigger] slots@.contains(s) <==> (self.live().dom().contains(s) && box_contains(self.live()[s], x, y)),
    ;

    /// Slots whose box contains the point, with a summary-based filter.
    ///
    /// By default the filter is ignored.
    fn query_point_filtered<Q, F: SubtreeFilter<S, Q>>(&self, x: T, y: T, query: &Q, filter: &F) -> (slots: Vec<usize>)
        ensures
            slots@.no_duplicates(),
            forall|s: usize| #[trigger] slots@.contains(s) ==> (self.live().dom().contains(s) && box_contains(self.live()[s], x, y)),
        default_ensures
            slots@.no_duplicates(),
            forall|s: usize| #[trigger] slots@.contains(s) <==> (self.live().dom().contains(s) && box_contains(self.live()[s], x, y)),
    {
        self.query_point(x, y)
    }

    /// Slots whose box overlaps the rectangle, each listed once.
    fn query_rect(&self, rect: Aabb2D<T>) -> (slots: Vec<usize>)
        ensures
            slots@.no_duplicates(),
            forall|s: usize| #[trigger] slots@.contains(s) <==> (self.live().dom().contains(s) && !box_is_empty(box_intersection(self.live()[s], rect))),
    ;

    /// Slots whose box overlaps the rectangle, with a summary-based filter.
    ///
    /// By default the filter is ignored.
    fn query_rect_filtered<Q, F: SubtreeFilter<S, Q>>(&self, rect: Aabb2D<T>, query: &Q, filter: &F) -> (slots: Vec<usize>)
        ensures
            slots@.no_duplicates(),
            forall|s: usize| #[trigger] slots@.contains(s) ==> (self.live().dom().contains(s) && !box_is_empty(box_intersection(self.live()[s], rect))),
        default_ensures
            slots@.no_duplicates(),
            forall|s: usize| #[trigger] slots@.contains(s) <==> (self.live().dom().contains(s) && !box_is_empty(box_intersection(self.live()[s], rect))),
    {
        self.query_rect(rect)
    }
}

/// An element is in `s.push(x)` exactly when it is `x` or in `s`.
proof fn lemma_push_contains<A>(s: Seq<A>, x: A, y: A)
    ensures
        s.push(x).contains(y) <==> (s.contains(y) || y == x),
{
    if s.push(x).contains(y) {
        let k = choose|k: int| 0 <= k < s.push(x).len() && s.push(x)[k] == y;
        if k < s.len() {
            assert(s[k] == y);
        }
    }
    if s.contains(y) {
        let k = choose|k: int| 0 <= k < s.len() && s[k] == y;
        assert(s.push(x)[k] == y);
    }
    if y == x {
        assert(s.push(x)[s.len() as int] == x);
    }
}

/// Flat vector backend with linear scans. Small and simple; good for tiny sets.
pub struct FlatVec<T> {
    entries: Vec<Option<Aabb2D<T>>>,
}

/// The live slots of a slot table.
pub open spec fn live_slots<T>(entries: Seq<Option<Aabb2D<T>>>) -> Map<usize, Aabb2D<T>> {
    Map::new(|i: usize| i < entries.len() && entries[i as int] is Some, |i: usize| entries[i as int]->0)
}

impl<T: Scalar> Default for FlatVec<T> {
    /// An empty backend, as [`FlatVec::new`] makes it.
    fn default() -> (f: Self)
        ensures
            f.slots() == Seq::<Option<Aabb2D<T>>>::empty(),
    {
        FlatVec::new()
    }
}

impl<T: Scalar> FlatVec<T> {
    /// The slot table.
    pub closed spec fn slots(&self) -> Seq<Option<Aabb2D<T>>> {
        self.entries@
    }

    /// Creates an empty backend.
    pub fn new() -> (f: Self)
        ensures
            f.slots() == Seq::<Option<Aabb2D<T>>>::empty(),
    {
        FlatVec { entries: Vec::new() }
    }

    /// Number of slots in the table, live or not.
    pub fn total_slots(&self) -> (n: usize)
        ensures
            n == self.slots().len(),
    {
        self.entries.len()
    }

    /// Number of live slots.
    pub fn alive(&self) -> (n: usize)
        ensures
            n == self.slots().filter(|e: Option<Aabb2D<T>>| e is Some).len(),
    {
        let ghost pred = |e: Option<Aabb2D<T>>| e is Some;
        let mut n: usize = 0;
        let mut i: usize = 0;
        while i < self.entries.len()
            invariant
                i <= self.entries@.len(),
                pred == (|e: Option<Aabb2D<T>>| e is Some),
                n == self.entries@.take(i as int).filter(pred).len(),
                n <= i,
            decreases self.entries@.len() - i,
        {
            proof {
                assert(self.entries@.take(i + 1).drop_last() =~= self.entries@.take(i as int));
                reveal(Seq::filter);
            }
            if self.entries[i].is_some() {
                n = n + 1;
            }
            i = i + 1;
        }
        proof {
            assert(self.entries@.take(i as int) =~= self.entries@);
        }
        n
    }
}

impl<T: Scalar> Backend<T> for FlatVec<T> {
    open spec fn live(&self) -> Map<usize, Aabb2D<T>> {
        live_slots(self.slots())
    }

    fn insert(&mut self, slot: usize, aabb: Aabb2D<T>)
        ensures
            final(self).slots().len() == (if old(self).slots().len() <= slot {
                slot + 1
            } else {
                old(self).slots().len() as int
            }),
            forall|i: int|
                0 <= i < final(self).slots().len() && i != slot ==> final(self).slots()[i] == (if i
                    < old(self).slots().len() {
                    old(self).slots()[i]
                } else {
                    None
                }),
            final(self).slots()[slot as int] == Some(aabb),
    {
        let ghost old_entries = self.entries@;
        while self.entries.len() <= slot
            invariant
                slot < usize::MAX,
                self.entries@.len() == old_entries.len() || self.entries@.len() <= slot + 1,
                self.entries@.len() >= old_entries.len(),
                forall|i: int| 0 <= i < self.entries@.len() ==> self.entries@[i] == (if i < old_entries.len() {
                    old_entries[i]
                } else {
                    None
                }),
            decreases slot + 1 - self.entries@.len(),
        {
            self.entries.push(None);
        }
        self.entries.set(slot, Some(aabb));
        proof {
            assert(live_slots(self.entries@) =~= live_slots(old_entries).insert(slot, aabb));
        }
    }

    fn update(&mut self, slot: usize, aabb: Aabb2D<T>)
        ensures
            final(self).slots() == (if slot < old(self).slots().len() {
                old(self).slots().update(slot as int, Some(aabb))
            } else {
                old(self).slots()
            }),
    {
        if slot < self.entries.len() {
            self.entries.set(slot, Some(aabb));
        }
        proof {
            if old(self).live().dom().contains(slot) {
                assert(live_slots(self.entries@) =~= live_slots(old(self).entries@).insert(slot, aabb));
            }
        }
    }

    fn remove(&mut self, slot: usize)
        ensures
            final(self).slots() == (if slot < old(self).slots().len() {
                old(self).slots().update(slot as int, None)
            } else {
                old(self).slots()
            }),
    {
        if slot < self.entries.len() {
            self.entries.set(slot, None);
        }
        proof {
            assert(live_slots(self.entries@) =~= live_slots(old(self).entries@).remove(slot));
        }
    }

    fn clear(&mut self)
        ensures
            final(self).slots() == Seq::<Option<Aabb2D<T>>>::empty(),
    {
        self.entries.clear();
        proof {
            assert(live_slots(self.entries@) =~= Map::<usize, Aabb2D<T>>::empty());
        }
    }

    fn query_point(&self, x: T, y: T) -> (slots: Vec<usize>)
        ensures
            forall|i: int, j: int| 0 <= i < j < slots@.len() ==> slots@[i] < slots@[j],
    {
        let mut out: Vec<usize> = Vec::new();
        let mut i: usize = 0;
        while i < self.entries.len()
            invariant
                i <= self.entries@.len(),
                forall|a: int, b: int| 0 <= a < b < out@.len() ==> out@[a] < out@[b],
                forall|a: int| 0 <= a < out@.len() ==> out@[a] < i,
                forall|s: usize|
                    #[trigger] out@.contains(s) <==> (s < i && live_slots(self.entries@).dom().contains(s)
                        && box_contains(live_slots(self.entries@)[s], x, y)),
            decreases self.entries@.len() - i,
        {
            let ghost prev = out@;
            match self.entries[i] {
                Some(a) => {
                    if a.contains_point(x, y) {
                        out.push(i);
                    }
                },
                None => {},
            }
            proof {
                assert forall|s: usize| #[trigger] out@.contains(s) <==> (prev.contains(s) || (s == i
                    && live_slots(self.entries@).dom().contains(s) && box_contains(
                    live_slots(self.entries@)[s],
                    x,
                    y,
                ))) by {
                    lemma_push_contains(prev, i, s);
                }
            }
            i = i + 1;
        }
        proof {
            assert forall|a: int, b: int| 0 <= a < out@.len() && 0 <= b < out@.len() && a != b implies out@[a] != out@[b] by {
                if a < b {
                } else {
                }
            }
        }
        out
    }

    fn query_rect(&self, rect: Aabb2D<T>) -> (slots: Vec<usize>)
        ensures
            forall|i: int, j: int| 0 <= i < j < slots@.len() ==> slots@[i] < slots@[j],
    {
        let mut out: Vec<usize> = Vec::new();
        let mut i: usize = 0;
        while i < self.entries.len()
            invariant
                i <= self.entries@.len(),
                forall|a: int, b: int| 0 <= a < b < out@.len() ==> out@[a] < out@[b],
                forall|a: int| 0 <= a < out@.len() ==> out@[a] < i,
                forall|s: usize|
                    #[trigger] out@.contains(s) <==> (s < i && live_slots(self.entries@).dom().contains(s)
                        && !box_is_empty(box_intersection(live_slots(self.entries@)[s], rect))),
            decreases self.entries@.len() - i,
        {
            let ghost prev = out@;
            match self.entries[i] {
                Some(a) => {
                    if !a.intersect(&rect).is_empty() {
                        out.push(i);
                    }
                },
                None => {},
            }
            proof {
                assert forall|s: usize| #[trigger] out@.contains(s) <==> (prev.contains(s) || (s == i
                    && live_slots(self.entries@).dom().contains(s) && !box_is_empty(
                    box_intersection(live_slots(self.entries@)[s], rect),
                ))) by {
                    lemma_push_contains(prev, i, s);
                }
            }
            i = i + 1;
        }
        proof {
            assert forall|a: int, b: int| 0 <= a < out@.len() && 0 <= b < out@.len() && a != b implies out@[a] != out@[b] by {
                if a < b {
                } else {
                }
            }
        }
        out
    }
}

} // verus!
