//! Layer bookkeeping of the SVG export: which pushed layers open a `<g>`
//! group, which pops close one, and the numbering of clip and filter
//! definitions.
//!
//! A pushed layer opens a group when it clips or changes compositing
//! (filter, blend or opacity); a layer that does neither opens none. Each pop
//! closes the group its layer opened, if any, and the groups still open at
//! the end of the document are closed then, so every group opened is closed
//! exactly once. Clip and filter definitions are numbered consecutively from
//! a base, so their ids never repeat within a document.

use vstd::prelude::*;

verus! {

/// Number of open groups on a layer stack.
pub open spec fn open_groups(stack: Seq<bool>) -> nat
    decreases stack.len(),
{
    if stack.len() == 0 {
        0
    } else {
        open_groups(stack.drop_last()) + if stack.last() {
            1nat
        } else {
            0nat
        }
    }
}

/// One layer event of an operation stream: `Some(opens)` pushes a layer
/// that opens a group or not, `None` pops the innermost layer.
pub open spec fn replay_stack(events: Seq<Option<bool>>) -> Seq<bool>
    decreases events.len(),
{
    if events.len() == 0 {
        Seq::empty()
    } else {
        let s = replay_stack(events.drop_last());
        match events.last() {
            Some(open) => s.push(open),
            None => s.drop_last(),
        }
    }
}

/// Whether every pop in `events` has a pushed layer to pop.
pub open spec fn pops_matched(events: Seq<Option<bool>>) -> bool
    decreases events.len(),
{
    if events.len() == 0 {
        true
    } else {
        pops_matched(events.drop_last()) && (events.last() is None ==> replay_stack(events.drop_last()).len() > 0)
    }
}

/// `<g>` tags written while replaying `events`.
pub open spec fn groups_opened(events: Seq<Option<bool>>) -> nat
    decreases events.len(),
{
    if events.len() == 0 {
        0
    } else {
        groups_opened(events.drop_last()) + match events.last() {
            Some(open) => if open {
                1nat
            } else {
                0nat
            },
            None => 0nat,
        }
    }
}

/// `</g>` tags written by the pops while replaying `events`.
pub open spec fn groups_closed(events: Seq<Option<bool>>) -> nat
    decreases events.len(),
{
    if events.len() == 0 {
        0
    } else {
        groups_closed(events.drop_last()) + match events.last() {
            Some(_) => 0nat,
            None => if replay_stack(events.drop_last()).last() {
                1nat
            } else {
                0nat
            },
        }
    }
}

/// Groups balance: at every point of a stream whose pops all have a layer to
/// pop, the groups opened are those closed plus those still open on the
/// stack, so closing the open ones at the end closes every group exactly
/// once.
pub proof fn lemma_groups_balance(events: Seq<Option<bool>>)
    requires
        pops_matched(events),
    ensures
        groups_opened(events) == groups_closed(events) + open_groups(replay_stack(events)),
    decreases events.len(),
{
    if events.len() > 0 {
        let prev = events.drop_last();
        lemma_groups_balance(prev);
        let s = replay_stack(prev);
        match events.last() {
            Some(open) => {
                assert(s.push(open).drop_last() =~= s);
            },
            None => {
                assert(s.len() > 0);
                assert(s.drop_last().push(s.last()) =~= s);
            },
        }
    }
}

/// What pushing a layer writes: whether it opens a group, and the ids of the
/// clip and filter definitions it references.
#[derive(Copy, Clone, Debug, PartialEq, Eq, Structural)]
pub struct LayerGroupOpen {
    /// Whether a `<g>` group is opened.
    pub open: bool,
    /// Id number of the clip definition, when the layer clips.
    pub clip_id: Option<u64>,
    /// Id number of the filter definition, when the layer filters.
    pub filter_id: Option<u64>,
}

/// Layer stack and definition counters of one SVG document or fragment.
#[derive(Clone, Debug)]
pub struct LayerGroups {
    stack: Vec<bool>,
    clip_counter: u64,
    filter_counter: u64,
}

impl LayerGroups {
    /// For each pushed layer still on the stack, innermost last, whether it
    /// opened a group.
    pub closed spec fn layers(&self) -> Seq<bool> {
        self.stack@
    }

    /// Number of the last clip definition handed out.
    pub closed spec fn last_clip(&self) -> u64 {
        self.clip_counter
    }

    /// Number of the last filter definition handed out.
    pub closed spec fn last_filter(&self) -> u64 {
        self.filter_counter
    }

    /// An empty stack whose definitions are numbered from `base + 1`.
    pub fn new(base: u64) -> (g: Self)
        ensures
            g.layers() == Seq::<bool>::empty(),
            g.last_clip() == base,
            g.last_filter() == base,
    {
        LayerGroups { stack: Vec::new(), clip_counter: base, filter_counter: base }
    }

    /// Pushes a layer. It opens a group when it clips or has compositing
    /// effects; a clipping layer takes the next clip number and a filtering
    /// layer the next filter number.
    pub fn push_layer(&mut self, has_clip: bool, has_filter: bool, has_compositing_effects: bool) -> (o: LayerGroupOpen)
        requires
            has_filter ==> has_compositing_effects,
            has_clip ==> old(self).last_clip() < u64::MAX,
            has_filter ==> old(self).last_filter() < u64::MAX,
        ensures
            o.open == (has_clip || has_compositing_effects),
            final(self).layers() == old(self).layers().push(o.open),
            has_clip ==> o.clip_id == Some((old(self).last_clip() + 1) as u64) && final(self).last_clip()
                == old(self).last_clip() + 1,
            !has_clip ==> o.clip_id is None && final(self).last_clip() == old(self).last_clip(),
            has_filter ==> o.filter_id == Some((old(self).last_filter() + 1) as u64) && final(self).last_filter()
                == old(self).last_filter() + 1,
            !has_filter ==> o.filter_id is None && final(self).last_filter() == old(self).last_filter(),
    {
        let mut o = LayerGroupOpen { open: false, clip_id: None, filter_id: None };
        if has_clip || has_compositing_effects {
            if has_clip {
                self.clip_counter = self.clip_counter + 1;
                o.clip_id = Some(self.clip_counter);
            }
            if has_filter {
                self.filter_counter = self.filter_counter + 1;
                o.filter_id = Some(self.filter_counter);
            }
            o.open = true;
        }
        self.stack.push(o.open);
        o
    }

    /// Pops the innermost layer; returns whether it closes a group.
    pub fn pop_layer(&mut self) -> (close: bool)
        requires
            old(self).layers().len() > 0,
        ensures
            close == old(self).layers().last(),
            final(self).layers() == old(self).layers().drop_last(),
            final(self).last_clip() == old(self).last_clip(),
            final(self).last_filter() == old(self).last_filter(),
    {
        let close = self.stack[self.stack.len() - 1];
        self.stack.pop();
        close
    }

    /// Pops every remaining layer; returns how many groups that closes.
    pub fn close_all(&mut self) -> (closed: usize)
        ensures
            closed == open_groups(old(self).layers()),
            final(self).layers() == Seq::<bool>::empty(),
            final(self).last_clip() == old(self).last_clip(),
            final(self).last_filter() == old(self).last_filter(),
    {
        proof {
            lemma_open_groups_bound(self.stack@);
            assert(self.stack@.len() == self.stack.len());
        }
        let mut closed: usize = 0;
        while self.stack.len() > 0
            invariant
                closed + open_groups(self.stack@) == open_groups(old(self).stack@),
                open_groups(old(self).stack@) <= old(self).stack@.len(),
                old(self).stack@.len() <= usize::MAX,
                self.clip_counter == old(self).clip_counter,
                self.filter_counter == old(self).filter_counter,
            decreases self.stack@.len(),
        {
            let ghost before = self.stack@;
            let opened = self.stack[self.stack.len() - 1];
            self.stack.pop();
            proof {
                assert(self.stack@ == before.drop_last());
                assert(open_groups(before) == open_groups(before.drop_last()) + if before.last() {
                    1nat
                } else {
                    0nat
                });
            }
            if opened {
                closed = closed + 1;
            }
        }
        closed
    }
}

/// A stack never holds more open groups than layers.
proof fn lemma_open_groups_bound(stack: Seq<bool>)
    ensures
        open_groups(stack) <= stack.len(),
    decreases stack.len(),
{
    if stack.len() > 0 {
        lemma_open_groups_bound(stack.drop_last());
    }
}

} // verus!
