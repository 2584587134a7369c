//! Drag tracking: where a drag started and the last pointer position seen.
//!
//! Positions are of a caller's type `P`; the movement delta of an update is
//! the new position minus the position the update reports it moved from, and
//! the total offset is the current position minus the start position.

use vstd::prelude::*;

verus! {

/// Tracks drag state for move event processing.
#[derive(Clone, Copy, Debug)]
pub struct DragState<P> {
    /// Start position of the drag operation.
    pub start_pos: Option<P>,
    /// Last recorded pointer position during the drag.
    pub last_pos: Option<P>,
}

impl<P> DragState<P> {
    /// A drag is active and its last position is known exactly when it has
    /// a start position.
    pub open spec fn consistent(&self) -> bool {
        self.start_pos is Some <==> self.last_pos is Some
    }

    /// A state with no active drag.
    pub fn new() -> (d: Self)
        ensures
            d.start_pos is None,
            d.last_pos is None,
            d.consistent(),
    {
        DragState { start_pos: None, last_pos: None }
    }

    /// Starts tracking a new drag from `pos`, replacing any drag in progress.
    pub fn start(&mut self, pos: P)
        where
            P: Copy,
        ensures
            final(self).start_pos == Some(pos),
            final(self).last_pos == Some(pos),
            final(self).consistent(),
    {
        self.start_pos = Some(pos);
        self.last_pos = Some(pos);
    }

    /// Records `pos` as the last position of the active drag and returns the
    /// position the movement started from (the previous last position), so
    /// that the movement delta is `pos` minus it. With no active drag nothing
    /// changes and the result is `None`; with an active drag whose last
    /// position is unknown, `pos` is recorded and the result is `None`.
    pub fn update(&mut self, pos: P) -> (from: Option<P>)
        where
            P: Copy,
        ensures
            old(self).start_pos is None ==> from is None && *final(self) == *old(self),
            old(self).start_pos is Some ==> {
                &&& from == old(self).last_pos
                &&& final(self).start_pos == old(self).start_pos
                &&& final(self).last_pos == Some(pos)
            },
            old(self).consistent() ==> final(self).consistent(),
    {
        if self.start_pos.is_some() {
            let from = self.last_pos;
            self.last_pos = Some(pos);
            from
        } else {
            None
        }
    }

    /// Ends the current drag and resets the state.
    pub fn end(&mut self)
        ensures
            final(self).start_pos is None,
            final(self).last_pos is None,
            final(self).consistent(),
    {
        self.start_pos = None;
        self.last_pos = None;
    }

    /// Returns `true` while a drag is active.
    pub fn is_dragging(&self) -> (b: bool)
        ensures
            b == self.start_pos is Some,
    {
        self.start_pos.is_some()
    }
}

impl<P> Default for DragState<P> {
    /// A state with no active drag.
    fn default() -> (d: Self)
        ensures
            d.start_pos is None,
            d.last_pos is None,
    {
        DragState::new()
    }
}

} // verus!
