//! Host-agnostic timer queue for animation and delayed actions.
//!
//! The queue keeps pending timers sorted by deadline. The host asks
//! [`TimerQueue::next_deadline`] when to wake, then drains the expired timers.

use vstd::prelude::*;

use crate::ids::ElementId;

verus! {

/// Identifier for a pending timer.
#[derive(Copy, Clone, Debug, PartialEq, Eq, Hash, Structural)]
pub struct TimerId(u32);

impl View for TimerId {
    type V = u32;

    closed spec fn view(&self) -> u32 {
        self.0
    }
}

/// One pending timer entry.
#[derive(Copy, Clone, Debug)]
pub struct TimerEntry {
    /// Identifier handed out when the timer was requested.
    pub id: TimerId,
    /// Element the timer belongs to.
    pub element_id: ElementId,
    /// Absolute deadline in host-provided monotonic nanoseconds.
    pub deadline: u64,
    /// Repeat interval in nanoseconds, or `None` for one-shot.
    pub repeat: Option<u64>,
}

/// Queue of pending timers, sorted by deadline.
#[derive(Clone, Debug)]
pub struct TimerQueue {
    entries: Vec<TimerEntry>,
    next_id: u32,
}

/// Deadlines never decrease along the sequence.
pub open spec fn deadlines_sorted(s: Seq<TimerEntry>) -> bool {
    forall|i: int, j: int| 0 <= i <= j < s.len() ==> s[i].deadline <= s[j].deadline
}

/// Number of leading entries whose deadline is at most `d`: the position at
/// which a timer with deadline `d` is inserted, after every timer due no later.
pub open spec fn leading_due(s: Seq<TimerEntry>, d: u64) -> nat
    decreases s.len(),
{
    if s.len() == 0 {
        0
    } else if s[0].deadline <= d {
        1 + leading_due(s.drop_first(), d)
    } else {
        0
    }
}

/// `s` with `e` inserted after every entry due no later than `e`.
pub open spec fn insert_by_deadline(s: Seq<TimerEntry>, e: TimerEntry) -> Seq<TimerEntry> {
    s.insert(leading_due(s, e.deadline) as int, e)
}

/// `s` with each of `es` inserted by deadline, in order.
pub open spec fn insert_all_by_deadline(s: Seq<TimerEntry>, es: Seq<TimerEntry>) -> Seq<TimerEntry>
    decreases es.len(),
{
    if es.len() == 0 {
        s
    } else {
        insert_by_deadline(insert_all_by_deadline(s, es.drop_last()), es.last())
    }
}

/// `x + y`, clamped to `u64::MAX`.
pub open spec fn saturating_sum(x: u64, y: u64) -> u64 {
    if x + y > u64::MAX {
        u64::MAX
    } else {
        (x + y) as u64
    }
}

/// The repeating entries of `s`, each re-armed to fire one interval after `now`.
pub open spec fn rearmed(s: Seq<TimerEntry>, now: u64) -> Seq<TimerEntry>
    decreases s.len(),
{
    if s.len() == 0 {
        Seq::empty()
    } else {
        let rest = rearmed(s.drop_last(), now);
        let e = s.last();
        match e.repeat {
            Some(interval) => rest.push(
                TimerEntry {
                    id: e.id,
                    element_id: e.element_id,
                    deadline: saturating_sum(now, interval),
                    repeat: e.repeat,
                },
            ),
            None => rest,
        }
    }
}

/// What a fired timer reports: its id and its element.
pub open spec fn fired_pair(e: TimerEntry) -> (TimerId, ElementId) {
    (e.id, e.element_id)
}

/// Keeps every entry whose id differs from `id`.
pub open spec fn other_than(id: TimerId) -> spec_fn(TimerEntry) -> bool {
    |e: TimerEntry| e.id != id
}

/// The entry that a timer request adds.
pub open spec fn requested_entry(
    id: TimerId,
    element_id: ElementId,
    now: u64,
    delay: u64,
    repeat: Option<u64>,
) -> TimerEntry {
    TimerEntry { id, element_id, deadline: saturating_sum(now, delay), repeat }
}

/// The leading-due count splits the sequence into the entries due no later
/// than `d` and the first one that is due later.
pub proof fn lemma_leading_due_bounds(s: Seq<TimerEntry>, d: u64)
    ensures
        leading_due(s, d) <= s.len(),
        forall|j: int| 0 <= j < leading_due(s, d) ==> s[j].deadline <= d,
        leading_due(s, d) < s.len() ==> s[leading_due(s, d) as int].deadline > d,
    decreases s.len(),
{
    if s.len() > 0 && s[0].deadline <= d {
        lemma_leading_due_bounds(s.drop_first(), d);
        assert forall|j: int| 0 <= j < leading_due(s, d) implies s[j].deadline <= d by {
            if j > 0 {
                assert(s[j] == s.drop_first()[j - 1]);
            }
        }
        if leading_due(s, d) < s.len() {
            assert(s[leading_due(s, d) as int] == s.drop_first()[leading_due(s, d) - 1]);
        }
    }
}

/// In a sorted sequence the entries due no later than `d` are exactly the
/// first `leading_due(s, d)` ones.
pub proof fn lemma_leading_due_sorted(s: Seq<TimerEntry>, d: u64)
    requires
        deadlines_sorted(s),
    ensures
        forall|j: int| 0 <= j < s.len() ==> (s[j].deadline <= d <==> j < leading_due(s, d)),
{
    lemma_leading_due_bounds(s, d);
}

/// Inserting by deadline keeps a sorted sequence sorted.
pub proof fn lemma_insert_keeps_sorted(s: Seq<TimerEntry>, e: TimerEntry)
    requires
        deadlines_sorted(s),
    ensures
        deadlines_sorted(insert_by_deadline(s, e)),
        insert_by_deadline(s, e).len() == s.len() + 1,
{
    lemma_leading_due_bounds(s, e.deadline);
    let p = leading_due(s, e.deadline) as int;
    let t = insert_by_deadline(s, e);
    assert forall|i: int, j: int| 0 <= i <= j < t.len() implies t[i].deadline <= t[j].deadline by {
        if i < p && j < p {
        } else if i < p && j == p {
        } else if i < p && j > p {
            assert(t[j] == s[j - 1]);
        } else if i == p && j > p {
            assert(t[j] == s[j - 1]);
            assert(s[p].deadline <= s[j - 1].deadline);
        } else if i > p {
            assert(t[i] == s[i - 1]);
            assert(t[j] == s[j - 1]);
        }
    }
}

/// Inserting several entries by deadline keeps a sorted sequence sorted.
pub proof fn lemma_insert_all_keeps_sorted(s: Seq<TimerEntry>, es: Seq<TimerEntry>)
    requires
        deadlines_sorted(s),
    ensures
        deadlines_sorted(insert_all_by_deadline(s, es)),
        insert_all_by_deadline(s, es).len() == s.len() + es.len(),
    decreases es.len(),
{
    if es.len() > 0 {
        lemma_insert_all_keeps_sorted(s, es.drop_last());
        lemma_insert_keeps_sorted(insert_all_by_deadline(s, es.drop_last()), es.last());
    }
}

/// Filtering with a predicate that keeps every element changes nothing.
proof fn lemma_filter_keeps_all(s: Seq<TimerEntry>, pred: spec_fn(TimerEntry) -> bool)
    requires
        forall|i: int| 0 <= i < s.len() ==> pred(s[i]),
    ensures
        s.filter(pred) == s,
    decreases s.len(),
{
    reveal(Seq::filter);
    if s.len() > 0 {
        lemma_filter_keeps_all(s.drop_last(), pred);
        assert(s.drop_last().push(s.last()) =~= s);
    }
}

/// Filtering with a predicate that fails on the first `k` elements and holds
/// on the rest keeps exactly the elements from `k` on.
proof fn lemma_filter_keeps_suffix(s: Seq<TimerEntry>, pred: spec_fn(TimerEntry) -> bool, k: int)
    requires
        0 <= k,
        forall|i: int| 0 <= i < s.len() ==> (pred(s[i]) <==> k <= i),
    ensures
        s.filter(pred) == s.subrange(if k <= s.len() { k } else { s.len() as int }, s.len() as int),
    decreases s.len(),
{
    reveal(Seq::filter);
    if s.len() > 0 {
        let n = s.len() - 1;
        let rest = s.drop_last();
        assert forall|i: int| 0 <= i < rest.len() implies (pred(rest[i]) <==> k <= i) by {
            assert(rest[i] == s[i]);
        }
        lemma_filter_keeps_suffix(rest, pred, k);
        assert(pred(s[n]) <==> k <= n);
        if k <= n {
            assert(s.subrange(k, s.len() as int) =~= rest.subrange(k, n).push(s.last()));
        } else {
            assert(s.subrange(s.len() as int, s.len() as int) =~= rest.subrange(n, n));
        }
    }
}

/// Inserting timers by deadline adds exactly those timers: as a multiset,
/// the result holds the timers of `s` and those of `es`.
pub proof fn lemma_insert_all_multiset(s: Seq<TimerEntry>, es: Seq<TimerEntry>)
    ensures
        insert_all_by_deadline(s, es).to_multiset() == s.to_multiset().add(es.to_multiset()),
    decreases es.len(),
{
    broadcast use vstd::seq_lib::to_multiset_insert, vstd::seq_lib::to_multiset_build, vstd::seq_lib::to_multiset_len,
        vstd::multiset::lemma_multiset_empty_len, vstd::multiset::group_multiset_axioms;

    if es.len() == 0 {
        assert(es.to_multiset().len() == 0);
        assert(es.to_multiset() =~= vstd::multiset::Multiset::<TimerEntry>::empty());
        assert(s.to_multiset().add(es.to_multiset()) =~= s.to_multiset());
    } else {
        lemma_insert_all_multiset(s, es.drop_last());
        let t = insert_all_by_deadline(s, es.drop_last());
        lemma_leading_due_bounds(t, es.last().deadline);
        assert(es.drop_last().push(es.last()) =~= es);
        assert(insert_all_by_deadline(s, es).to_multiset() =~= s.to_multiset().add(es.to_multiset()));
    }
}

/// The set form of draining a sorted queue at `now`: afterwards the pending
/// timers are, as a multiset, the timers that were not yet due together
/// with the re-armed repeating timers that fired.
pub proof fn lemma_drain_keeps_undue_and_rearmed(pending: Seq<TimerEntry>, now: u64)
    requires
        deadlines_sorted(pending),
    ensures
        insert_all_by_deadline(
            pending.skip(leading_due(pending, now) as int),
            rearmed(pending.take(leading_due(pending, now) as int), now),
        ).to_multiset() == pending.filter(|e: TimerEntry| e.deadline > now).to_multiset().add(
            rearmed(pending.take(leading_due(pending, now) as int), now).to_multiset(),
        ),
{
    let k = leading_due(pending, now) as int;
    lemma_leading_due_bounds(pending, now);
    lemma_leading_due_sorted(pending, now);
    let due_later = |e: TimerEntry| e.deadline > now;
    lemma_filter_keeps_suffix(pending, due_later, k);
    assert(pending.filter(due_later) == pending.skip(k));
    lemma_insert_all_multiset(pending.skip(k), rearmed(pending.take(k), now));
}

/// Cancelling the timer that a request just added restores the pending
/// timers, provided no other pending timer carried the same id.
pub proof fn lemma_cancel_undoes_request(s: Seq<TimerEntry>, e: TimerEntry)
    requires
        forall|i: int| 0 <= i < s.len() ==> s[i].id != e.id,
    ensures
        insert_by_deadline(s, e).filter(other_than(e.id)) == s,
{
    broadcast use Seq::filter_distributes_over_add;

    lemma_leading_due_bounds(s, e.deadline);
    let p = leading_due(s, e.deadline) as int;
    let pred = other_than(e.id);
    assert(insert_by_deadline(s, e) =~= s.take(p) + (seq![e] + s.skip(p)));
    lemma_filter_keeps_all(s.take(p), pred);
    lemma_filter_keeps_all(s.skip(p), pred);
    reveal(Seq::filter);
    assert(seq![e].drop_last() =~= Seq::<TimerEntry>::empty());
    assert(seq![e].last() == e);
    assert(!pred(e));
    assert(Seq::<TimerEntry>::empty().filter(pred) =~= Seq::<TimerEntry>::empty());
    assert(seq![e].filter(pred) =~= Seq::<TimerEntry>::empty());
    assert(s.take(p) + s.skip(p) =~= s);
}

/// A requested timer fires exactly when its deadline has passed: draining a
/// sorted queue at `now` reports the inserted timer if and only if its
/// deadline is at most `now`.
pub proof fn lemma_requested_timer_fires(s: Seq<TimerEntry>, e: TimerEntry, now: u64)
    requires
        deadlines_sorted(s),
    ensures
        insert_by_deadline(s, e).take(leading_due(insert_by_deadline(s, e), now) as int).contains(e)
            <==> e.deadline <= now,
{
    let t = insert_by_deadline(s, e);
    lemma_insert_keeps_sorted(s, e);
    lemma_leading_due_bounds(s, e.deadline);
    lemma_leading_due_sorted(t, now);
    lemma_leading_due_bounds(t, now);
    let p = leading_due(s, e.deadline) as int;
    let n = leading_due(t, now) as int;
    assert(t[p] == e);
    if e.deadline <= now {
        assert(p < n);
        assert(t.take(n)[p] == e);
    } else {
        assert forall|i: int| 0 <= i < t.take(n).len() implies t.take(n)[i] != e by {
            assert(t.take(n)[i] == t[i]);
        }
    }
}

/// The id a queue hands out after `n`: ids count up and wrap around after
/// `u32::MAX`.
pub open spec fn successor_id(n: u32) -> u32 {
    if n == u32::MAX {
        0
    } else {
        (n + 1) as u32
    }
}

/// The id handed out by the request `k` places after one that handed out
/// `start`.
pub open spec fn id_after(start: u32, k: nat) -> u32
    decreases k,
{
    if k == 0 {
        start
    } else {
        successor_id(id_after(start, (k - 1) as nat))
    }
}

/// The `k`-th id after `start` is `start + k`, wrapped to 32 bits.
proof fn lemma_id_after_wraps(start: u32, k: nat)
    ensures
        id_after(start, k) as int == (start + k) % 0x1_0000_0000,
    decreases k,
{
    if k > 0 {
        lemma_id_after_wraps(start, (k - 1) as nat);
        let prev = id_after(start, (k - 1) as nat) as int;
        assert(prev == (start + k - 1) % 0x1_0000_0000);
        if prev == u32::MAX as int {
            assert((start + k) % 0x1_0000_0000 == 0) by (nonlinear_arith)
                requires
                    (start + k - 1) % 0x1_0000_0000 == 0xffff_ffff,
            ;
        } else {
            assert((start + k) % 0x1_0000_0000 == prev + 1) by (nonlinear_arith)
                requires
                    (start + k - 1) % 0x1_0000_0000 == prev,
                    0 <= prev < 0xffff_ffff,
            ;
        }
    }
}

/// Request ids are fresh: among fewer than 2^32 successive requests no two
/// hand out the same id, so cancelling a timer by its id never reaches
/// another timer requested in that span.
pub proof fn lemma_request_ids_fresh(start: u32, i: nat, j: nat)
    requires
        i < j < 0x1_0000_0000,
    ensures
        id_after(start, i) != id_after(start, j),
{
    lemma_id_after_wraps(start, i);
    lemma_id_after_wraps(start, j);
    let a = start + i;
    let b = start + j;
    assert(a % 0x1_0000_0000 != b % 0x1_0000_0000) by (nonlinear_arith)
        requires
            0 <= a < b,
            b - a < 0x1_0000_0000,
    ;
}

/// Position at which a timer due at `d` is inserted.
fn insertion_point(entries: &Vec<TimerEntry>, d: u64) -> (p: usize)
    ensures
        p == leading_due(entries@, d),
{
    let mut i: usize = 0;
    while i < entries.len() && entries[i].deadline <= d
        invariant
            i <= entries.len(),
            forall|j: int| 0 <= j < i ==> entries@[j].deadline <= d,
        decreases entries.len() - i,
    {
        i = i + 1;
    }
    proof {
        lemma_leading_due_bounds(entries@, d);
    }
    i
}

impl Default for TimerQueue {
    /// An empty queue, as [`TimerQueue::new`] makes it.
    fn default() -> (q: Self)
        ensures
            q.wf(),
            q.pending() == Seq::<TimerEntry>::empty(),
            q.next_id_value() == 0,
    {
        TimerQueue::new()
    }
}

impl TimerQueue {
    /// The pending timers, earliest deadline first.
    pub closed spec fn pending(&self) -> Seq<TimerEntry> {
        self.entries@
    }

    /// The id that the next request hands out.
    pub closed spec fn next_id_value(&self) -> u32 {
        self.next_id
    }

    /// The queue's invariant: pending timers are sorted by deadline.
    pub open spec fn wf(&self) -> bool {
        deadlines_sorted(self.pending())
    }

    /// Creates an empty timer queue.
    pub fn new() -> (q: Self)
        ensures
            q.wf(),
            q.pending() == Seq::<TimerEntry>::empty(),
            q.next_id_value() == 0,
    {
        TimerQueue { entries: Vec::new(), next_id: 0 }
    }

    /// Schedules a timer. `now` is the current monotonic time in nanoseconds.
    /// `delay` is the delay from now in nanoseconds. If `repeat` is `Some`,
    /// the timer re-arms after firing.
    ///
    /// Returns a [`TimerId`] for cancellation.
    pub fn request(&mut self, element_id: ElementId, now: u64, delay: u64, repeat: Option<u64>) -> (id: TimerId)
        requires
            old(self).wf(),
        ensures
            final(self).wf(),
            id@ == old(self).next_id_value(),
            final(self).next_id_value() == successor_id(old(self).next_id_value()),
            final(self).pending() == insert_by_deadline(
                old(self).pending(),
                requested_entry(id, element_id, now, delay, repeat),
            ),
    {
        let id = TimerId(self.next_id);
        self.next_id = if self.next_id == u32::MAX {
            0
        } else {
            self.next_id + 1
        };
        let entry = TimerEntry { id, element_id, deadline: now.saturating_add(delay), repeat };
        let pos = insertion_point(&self.entries, entry.deadline);
        proof {
            lemma_leading_due_bounds(self.entries@, entry.deadline);
            lemma_insert_keeps_sorted(self.entries@, entry);
        }
        self.entries.insert(pos, entry);
        id
    }

    /// Cancels a pending timer. No-op if the timer already fired or was
    /// cancelled.
    pub fn cancel(&mut self, id: TimerId)
        requires
            old(self).wf(),
        ensures
            final(self).wf(),
            final(self).next_id_value() == old(self).next_id_value(),
            final(self).pending() == old(self).pending().filter(other_than(id)),
    {
        let ghost old_entries = self.entries@;
        let ghost pred = other_than(id);
        let mut kept: Vec<TimerEntry> = Vec::new();
        let mut i: usize = 0;
        while i < self.entries.len()
            invariant
                self.entries@ == old_entries,
                deadlines_sorted(old_entries),
                pred == other_than(id),
                i <= old_entries.len(),
                kept@ == old_entries.take(i as int).filter(pred),
                deadlines_sorted(kept@),
                kept@.len() > 0 ==> forall|k: int|
                    i <= k < old_entries.len() ==> kept@.last().deadline <= old_entries[k].deadline,
            decreases old_entries.len() - i,
        {
            let e = self.entries[i];
            proof {
                assert(old_entries.take(i + 1).drop_last() =~= old_entries.take(i as int));
                reveal(Seq::filter);
            }
            if e.id != id {
                kept.push(e);
            }
            i = i + 1;
        }
        proof {
            assert(old_entries.take(i as int) =~= old_entries);
        }
        self.entries = kept;
    }

    /// Returns the next deadline in nanoseconds, or `None` if no timers
    /// are pending.
    pub fn next_deadline(&self) -> (d: Option<u64>)
        requires
            self.wf(),
        ensures
            self.pending().len() == 0 ==> d is None,
            self.pending().len() > 0 ==> d == Some(self.pending()[0].deadline),
            d matches Some(first) ==> forall|i: int|
                0 <= i < self.pending().len() ==> first <= self.pending()[i].deadline,
    {
        if self.entries.len() == 0 {
            None
        } else {
            Some(self.entries[0].deadline)
        }
    }

    /// Returns `true` if there are no pending timers.
    pub fn is_empty(&self) -> (b: bool)
        ensures
            b == (self.pending().len() == 0),
    {
        self.entries.len() == 0
    }

    /// Drains all timers whose deadline is <= `now`.
    ///
    /// Returns a list of (`TimerId`, `ElementId`) for each fired timer, in
    /// deadline order. Repeating timers are re-armed one interval after `now`.
    pub fn drain_expired(&mut self, now: u64) -> (fired: Vec<(TimerId, ElementId)>)
        requires
            old(self).wf(),
        ensures
            final(self).wf(),
            final(self).next_id_value() == old(self).next_id_value(),
            fired@ == old(self).pending().take(leading_due(old(self).pending(), now) as int).map_values(
                |e: TimerEntry| fired_pair(e),
            ),
            forall|i: int|
                0 <= i < old(self).pending().len() ==> (old(self).pending()[i].deadline <= now
                    <==> i < fired@.len()),
            final(self).pending() == insert_all_by_deadline(
                old(self).pending().skip(leading_due(old(self).pending(), now) as int),
                rearmed(old(self).pending().take(leading_due(old(self).pending(), now) as int), now),
            ),
    {
        let ghost old_entries = self.entries@;
        let ghost old_next = self.next_id;
        let mut fired: Vec<(TimerId, ElementId)> = Vec::new();
        let mut rearm: Vec<TimerEntry> = Vec::new();
        let ghost mut i: int = 0;

        while self.entries.len() > 0 && self.entries[0].deadline <= now
            invariant
                0 <= i <= old_entries.len(),
                self.next_id == old_next,
                self.entries@ == old_entries.skip(i),
                forall|j: int| 0 <= j < i ==> old_entries[j].deadline <= now,
                fired@ == old_entries.take(i).map_values(|e: TimerEntry| fired_pair(e)),
                rearm@ == rearmed(old_entries.take(i), now),
            decreases self.entries.len(),
        {
            let entry = self.entries.remove(0);
            proof {
                assert(entry == old_entries[i]);
                assert(old_entries.take(i + 1).drop_last() =~= old_entries.take(i));
                assert(old_entries.take(i + 1).last() == entry);
                assert(old_entries.take(i + 1).map_values(|e: TimerEntry| fired_pair(e))
                    =~= old_entries.take(i).map_values(|e: TimerEntry| fired_pair(e)).push(
                    fired_pair(entry),
                ));
                assert(old_entries.skip(i + 1) =~= old_entries.skip(i).remove(0));
            }
            fired.push((entry.id, entry.element_id));
            if let Some(interval) = entry.repeat {
                rearm.push(
                    TimerEntry {
                        id: entry.id,
                        element_id: entry.element_id,
                        deadline: now.saturating_add(interval),
                        repeat: entry.repeat,
                    },
                );
            }
            proof {
                i = i + 1;
            }
        }
        let ghost k = i;
        proof {
            lemma_leading_due_bounds(old_entries, now);
            lemma_leading_due_sorted(old_entries, now);
            assert(k == leading_due(old_entries, now));
            assert forall|a: int, b: int| 0 <= a <= b < self.entries@.len() implies
                self.entries@[a].deadline <= self.entries@[b].deadline by {
                assert(self.entries@[a] == old_entries[a + k]);
                assert(self.entries@[b] == old_entries[b + k]);
            }
        }
        let ghost base = self.entries@;

        let mut j: usize = 0;
        while j < rearm.len()
            invariant
                j <= rearm@.len(),
                self.next_id == old_next,
                deadlines_sorted(base),
                self.entries@ == insert_all_by_deadline(base, rearm@.take(j as int)),
                deadlines_sorted(self.entries@),
            decreases rearm@.len() - j,
        {
            let entry = rearm[j];
            let pos = insertion_point(&self.entries, entry.deadline);
            proof {
                lemma_leading_due_bounds(self.entries@, entry.deadline);
                lemma_insert_keeps_sorted(self.entries@, entry);
                assert(rearm@.take(j + 1).drop_last() =~= rearm@.take(j as int));
                assert(rearm@.take(j + 1).last() == entry);
            }
            self.entries.insert(pos, entry);
            j = j + 1;
        }
        proof {
            assert(rearm@.take(j as int) =~= rearm@);
        }
        fired
    }
}

} // verus!
