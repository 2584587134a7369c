//! Hierarchical tree surface: realized rows and composite keyboard navigation.
//!
//! Rows arrive in visible order with their depth, disclosure state and the
//! focus/selection flags that the owning model computed. The controller maps
//! clicks and keys back into row actions; [`TreeViewController::sync`] returns
//! the edits that bring the retained rows up to date.

use vstd::prelude::*;

use crate::color::Color;
use crate::edits::{concat_edits, edit_views, EditView, Disclosure, RowColors, UiEdit};
use crate::ids::ElementId;
use crate::keys::{KeyboardInput, NavKey};

verus! {

/// One projected tree row.
#[derive(Clone, Debug)]
pub struct TreeRowPresentation<K> {
    /// Stable row key.
    pub key: K,
    /// Visible row label.
    pub label: String,
    /// Tree depth for indentation.
    pub depth: usize,
    /// Whether the row has children.
    pub has_children: bool,
    /// Whether the row is currently expanded.
    pub is_expanded: bool,
    /// Whether the row is currently selected.
    pub selected: bool,
    /// Whether the row is currently focused for keyboard navigation.
    pub focused: bool,
}

impl<K> TreeRowPresentation<K> {
    /// Creates a new tree row presentation.
    pub fn new(
        key: K,
        label: &str,
        depth: usize,
        has_children: bool,
        is_expanded: bool,
        selected: bool,
        focused: bool,
    ) -> (row: Self)
        ensures
            row.key == key,
            row.label@ == label@,
            row.depth == depth,
            row.has_children == has_children,
            row.is_expanded == is_expanded,
            row.selected == selected,
            row.focused == focused,
    {
        TreeRowPresentation {
            key,
            label: label.to_owned(),
            depth,
            has_children,
            is_expanded,
            selected,
            focused,
        }
    }
}

/// Element ids for one realized tree row.
#[derive(Copy, Clone, Debug, PartialEq, Eq, Structural)]
pub struct TreeRowIds {
    /// Row background/container.
    pub row: ElementId,
    /// Pickable inner row content.
    pub content: ElementId,
    /// Indent spacer.
    pub indent: ElementId,
    /// Disclosure glyph.
    pub disclosure: ElementId,
    /// Label text.
    pub label: ElementId,
}

/// One realized tree row.
#[derive(Copy, Clone, Debug)]
pub struct TreeViewRealizedRow<K> {
    /// Row key in the underlying model.
    pub key: K,
    /// Tree depth for parent/child keyboard navigation.
    pub depth: usize,
    /// Whether this row currently has a disclosure affordance.
    pub can_toggle: bool,
    /// Whether this row is currently expanded.
    pub is_expanded: bool,
    /// Whether this row is currently focused.
    pub focused: bool,
    /// Realized element ids.
    pub ids: TreeRowIds,
}

/// Action produced by clicking one realized tree row.
#[derive(Copy, Clone, Debug, PartialEq, Eq)]
pub enum TreeRowAction<K> {
    /// Activate/select the row.
    Select(K),
    /// Toggle the row's disclosure state.
    Toggle(K),
}

/// Keyboard/navigation action derived from the current realized tree rows.
#[derive(Copy, Clone, Debug, PartialEq, Eq)]
pub enum TreeKeyboardAction<K> {
    /// Move focus to another row.
    Focus(K),
    /// Activate/select the focused row.
    Activate(K),
    /// Expand the focused row.
    Expand(K),
    /// Collapse the focused row.
    Collapse(K),
}

/// Reusable controller for hierarchical tree rows.
#[derive(Clone, Debug)]
pub struct TreeViewController<K> {
    scroll_view: ElementId,
    rows: Vec<TreeViewRealizedRow<K>>,
    shown: usize,
}

/// Index of the first focused row.
pub open spec fn focused_row<K>(rows: Seq<TreeViewRealizedRow<K>>) -> Option<nat>
    decreases rows.len(),
{
    if rows.len() == 0 {
        None
    } else if rows[0].focused {
        Some(0nat)
    } else {
        match focused_row(rows.drop_first()) {
            Some(p) => Some(p + 1),
            None => None,
        }
    }
}

/// Index of the last row before `before` whose depth is `depth`.
pub open spec fn last_at_depth<K>(rows: Seq<TreeViewRealizedRow<K>>, before: int, depth: int) -> Option<nat>
    decreases before,
{
    if before <= 0 {
        None
    } else if rows[before - 1].depth == depth {
        Some((before - 1) as nat)
    } else {
        last_at_depth(rows, before - 1, depth)
    }
}

/// Index of the parent of row `i`: the nearest earlier row one level up.
pub open spec fn parent_of<K>(rows: Seq<TreeViewRealizedRow<K>>, i: int) -> Option<nat> {
    if rows[i].depth == 0 {
        None
    } else {
        last_at_depth(rows, i, rows[i].depth - 1)
    }
}

/// Focus action toward row `i`.
pub open spec fn focus_row<K>(rows: Seq<TreeViewRealizedRow<K>>, i: int) -> Option<TreeKeyboardAction<K>> {
    Some(TreeKeyboardAction::Focus(rows[i].key))
}

/// The action a key press produces with row `f` focused.
pub open spec fn tree_key_action<K>(rows: Seq<TreeViewRealizedRow<K>>, f: int, key: NavKey) -> Option<TreeKeyboardAction<K>> {
    let focused = rows[f];
    match key {
        NavKey::ArrowUp => if f >= 1 {
            focus_row(rows, f - 1)
        } else {
            None
        },
        NavKey::ArrowDown => if f + 1 < rows.len() {
            focus_row(rows, f + 1)
        } else {
            None
        },
        NavKey::Home => focus_row(rows, 0),
        NavKey::End => focus_row(rows, rows.len() - 1),
        NavKey::ArrowRight => if focused.can_toggle && !focused.is_expanded {
            Some(TreeKeyboardAction::Expand(focused.key))
        } else if f + 1 < rows.len() && rows[f + 1].depth == focused.depth + 1 {
            focus_row(rows, f + 1)
        } else {
            None
        },
        NavKey::ArrowLeft => if focused.can_toggle && focused.is_expanded {
            Some(TreeKeyboardAction::Collapse(focused.key))
        } else {
            match parent_of(rows, f) {
                Some(p) => focus_row(rows, p as int),
                None => None,
            }
        },
        NavKey::Enter | NavKey::Space => Some(TreeKeyboardAction::Activate(focused.key)),
        _ => None,
    }
}

/// Whether a click on `target` lands on the row's content, label or glyph.
pub open spec fn is_tree_target(ids: TreeRowIds, target: ElementId) -> bool {
    target == ids.content || target == ids.label || target == ids.disclosure
}

/// Index of the first row a click on `target` lands on.
pub open spec fn clicked_tree_row<K>(rows: Seq<TreeViewRealizedRow<K>>, target: ElementId) -> Option<nat>
    decreases rows.len(),
{
    if rows.len() == 0 {
        None
    } else if is_tree_target(rows[0].ids, target) {
        Some(0nat)
    } else {
        match clicked_tree_row(rows.drop_first(), target) {
            Some(p) => Some(p + 1),
            None => None,
        }
    }
}

/// The action for a click on `target` landing on row `r`.
pub open spec fn click_action<K>(r: TreeViewRealizedRow<K>, target: ElementId) -> TreeRowAction<K> {
    if target == r.ids.disclosure && r.can_toggle {
        TreeRowAction::Toggle(r.key)
    } else {
        TreeRowAction::Select(r.key)
    }
}

/// Disclosure glyph of a projected row.
pub open spec fn disclosure_of<K>(row: TreeRowPresentation<K>) -> Disclosure {
    if row.has_children {
        if row.is_expanded {
            Disclosure::Expanded
        } else {
            Disclosure::Collapsed
        }
    } else {
        Disclosure::Leaf
    }
}

/// Background of a shown tree row.
pub open spec fn tree_row_background<K>(colors: RowColors, row: TreeRowPresentation<K>) -> Color {
    if row.selected {
        colors.selected_background
    } else if row.focused {
        colors.focused_background
    } else {
        colors.background
    }
}

/// Edits for realized row `i` after a sync.
pub open spec fn tree_row_edits<K>(
    realized: Seq<TreeViewRealizedRow<K>>,
    rows: Seq<TreeRowPresentation<K>>,
    colors: RowColors,
    i: int,
) -> Seq<EditView> {
    let ids = realized[i].ids;
    if i < rows.len() {
        seq![
            EditView::SetVisible(ids.row, true),
            EditView::SetBackground(ids.row, tree_row_background(colors, rows[i])),
            EditView::SetIndentDepth(ids.indent, rows[i].depth),
            EditView::SetDisclosure(ids.disclosure, disclosure_of(rows[i])),
            EditView::SetText(ids.label, rows[i].label@),
        ]
    } else {
        seq![
            EditView::SetVisible(ids.row, false),
            EditView::ClearText(ids.disclosure),
            EditView::ClearText(ids.label),
        ]
    }
}

/// The realized row `r` after a sync projected `rows` onto it at index `i`.
pub open spec fn synced_tree_row<K>(r: TreeViewRealizedRow<K>, rows: Seq<TreeRowPresentation<K>>, i: int) -> TreeViewRealizedRow<K> {
    if i < rows.len() {
        TreeViewRealizedRow {
            key: rows[i].key,
            depth: rows[i].depth,
            can_toggle: rows[i].has_children,
            is_expanded: rows[i].is_expanded,
            focused: rows[i].focused,
            ids: r.ids,
        }
    } else {
        r
    }
}

/// Edits showing `row` on a realized row: visibility, state background,
/// indentation, disclosure glyph and label.
pub fn apply_row<K>(colors: &RowColors, realized: &TreeViewRealizedRow<K>, row: &TreeRowPresentation<K>) -> (edits: Vec<UiEdit>)
    ensures
        edit_views(edits@) == seq![
            EditView::SetVisible(realized.ids.row, true),
            EditView::SetBackground(realized.ids.row, tree_row_background(*colors, *row)),
            EditView::SetIndentDepth(realized.ids.indent, row.depth),
            EditView::SetDisclosure(realized.ids.disclosure, disclosure_of(*row)),
            EditView::SetText(realized.ids.label, row.label@),
        ],
{
    let ids = realized.ids;
    let background = if row.selected {
        colors.selected_background
    } else if row.focused {
        colors.focused_background
    } else {
        colors.background
    };
    let disclosure = if row.has_children {
        if row.is_expanded {
            Disclosure::Expanded
        } else {
            Disclosure::Collapsed
        }
    } else {
        Disclosure::Leaf
    };
    let mut edits: Vec<UiEdit> = Vec::new();
    edits.push(UiEdit::SetVisible(ids.row, true));
    edits.push(UiEdit::SetBackground(ids.row, background));
    edits.push(UiEdit::SetIndentDepth(ids.indent, row.depth));
    edits.push(UiEdit::SetDisclosure(ids.disclosure, disclosure));
    edits.push(set_text_block_text(ids.label, row.label.as_str()));
    proof {
        assert(edit_views(edits@) =~= seq![
            EditView::SetVisible(realized.ids.row, true),
            EditView::SetBackground(realized.ids.row, tree_row_background(*colors, *row)),
            EditView::SetIndentDepth(realized.ids.indent, row.depth),
            EditView::SetDisclosure(realized.ids.disclosure, disclosure_of(*row)),
            EditView::SetText(realized.ids.label, row.label@),
        ]);
    }
    edits
}

/// Edits hiding a realized row: the row hidden, glyph and label cleared.
pub fn hide_row<K>(realized: &TreeViewRealizedRow<K>) -> (edits: Vec<UiEdit>)
    ensures
        edit_views(edits@) == seq![
            EditView::SetVisible(realized.ids.row, false),
            EditView::ClearText(realized.ids.disclosure),
            EditView::ClearText(realized.ids.label),
        ],
{
    let mut edits: Vec<UiEdit> = Vec::new();
    edits.push(UiEdit::SetVisible(realized.ids.row, false));
    edits.push(UiEdit::ClearText(realized.ids.disclosure));
    edits.push(UiEdit::ClearText(realized.ids.label));
    proof {
        assert(edit_views(edits@) =~= seq![
            EditView::SetVisible(realized.ids.row, false),
            EditView::ClearText(realized.ids.disclosure),
            EditView::ClearText(realized.ids.label),
        ]);
    }
    edits
}

/// Edit that sets a text block's text.
pub fn set_text_block_text(id: ElementId, text: &str) -> (e: UiEdit)
    ensures
        e@ == EditView::SetText(id, text@),
{
    UiEdit::SetText(id, text.to_owned())
}

/// `focused_row` finds the first focused row.
pub proof fn lemma_focused_row<K>(rows: Seq<TreeViewRealizedRow<K>>)
    ensures
        focused_row(rows) matches Some(p) ==> p < rows.len() && rows[p as int].focused
            && forall|j: int| 0 <= j < p ==> !rows[j].focused,
        focused_row(rows) is None ==> forall|j: int| 0 <= j < rows.len() ==> !rows[j].focused,
    decreases rows.len(),
{
    if rows.len() > 0 && !rows[0].focused {
        lemma_focused_row(rows.drop_first());
        assert forall|j: int| 1 <= j < rows.len() implies rows[j] == rows.drop_first()[j - 1] by {}
    }
}

/// `clicked_tree_row` finds the first row the click lands on.
pub proof fn lemma_clicked_tree_row<K>(rows: Seq<TreeViewRealizedRow<K>>, target: ElementId)
    ensures
        clicked_tree_row(rows, target) matches Some(p) ==> p < rows.len() && is_tree_target(
            rows[p as int].ids,
            target,
        ) && forall|j: int| 0 <= j < p ==> !is_tree_target(rows[j].ids, target),
        clicked_tree_row(rows, target) is None ==> forall|j: int|
            0 <= j < rows.len() ==> !is_tree_target(rows[j].ids, target),
    decreases rows.len(),
{
    if rows.len() > 0 && !is_tree_target(rows[0].ids, target) {
        lemma_clicked_tree_row(rows.drop_first(), target);
        assert forall|j: int| 1 <= j < rows.len() implies rows[j] == rows.drop_first()[j - 1] by {}
    }
}

/// `last_at_depth` finds the nearest earlier row at the depth.
pub proof fn lemma_last_at_depth<K>(rows: Seq<TreeViewRealizedRow<K>>, before: int, depth: int)
    requires
        before <= rows.len(),
    ensures
        last_at_depth(rows, before, depth) matches Some(p) ==> p < before && rows[p as int].depth
            == depth && forall|j: int| p < j < before ==> rows[j].depth != depth,
        last_at_depth(rows, before, depth) is None ==> forall|j: int|
            0 <= j < before ==> rows[j].depth != depth,
    decreases before,
{
    if before > 0 && rows[before - 1].depth != depth {
        lemma_last_at_depth(rows, before - 1, depth);
    }
}

/// The nearest earlier row at a depth is found among the rows before it, so
/// it is the same in any prefix that holds them.
pub proof fn lemma_last_at_depth_prefix<K>(rows: Seq<TreeViewRealizedRow<K>>, n: int, before: int, depth: int)
    requires
        before <= n <= rows.len(),
    ensures
        last_at_depth(rows.take(n), before, depth) == last_at_depth(rows, before, depth),
    decreases before,
{
    if before > 0 {
        assert(rows.take(n)[before - 1] == rows[before - 1]);
        lemma_last_at_depth_prefix(rows, n, before - 1, depth);
    }
}

/// The row right after a row, one level deeper, has that row as its parent:
/// moving right into a first child and then left returns to the parent.
pub proof fn lemma_first_child_parent<K>(rows: Seq<TreeViewRealizedRow<K>>, i: int)
    requires
        0 <= i,
        i + 1 < rows.len(),
        rows[i + 1].depth == rows[i].depth + 1,
    ensures
        parent_of(rows, i + 1) == Some(i as nat),
{
}

/// Left on a focused row that is not an expanded toggle moves focus to its
/// parent: the nearest earlier row exactly one level up, with no row at that
/// level between them. A top-level row, or a row with no earlier row one
/// level up, has no parent and the key does nothing.
pub proof fn lemma_left_focuses_parent<K>(rows: Seq<TreeViewRealizedRow<K>>, f: int)
    requires
        0 <= f < rows.len(),
        !(rows[f].can_toggle && rows[f].is_expanded),
    ensures
        tree_key_action(rows, f, NavKey::ArrowLeft) is None || tree_key_action(
            rows,
            f,
            NavKey::ArrowLeft,
        )->0 is Focus,
        tree_key_action(rows, f, NavKey::ArrowLeft) matches Some(TreeKeyboardAction::Focus(k)) ==> exists|p: int|
            #![trigger rows[p]]
            {
                &&& 0 <= p < f
                &&& rows[p].key == k
                &&& rows[p].depth + 1 == rows[f].depth
                &&& forall|j: int| p < j < f ==> rows[j].depth + 1 != rows[f].depth
            },
        tree_key_action(rows, f, NavKey::ArrowLeft) is None <==> (rows[f].depth == 0 || forall|j: int|
            0 <= j < f ==> rows[j].depth + 1 != rows[f].depth),
{
    if rows[f].depth > 0 {
        lemma_last_at_depth(rows, f, rows[f].depth - 1);
        if let Some(p) = parent_of(rows, f) {
            assert(rows[p as int].depth + 1 == rows[f].depth);
        }
    }
}

/// The disclosure glyph tells a row's children and expansion apart: rows
/// without children show no glyph, rows with children show the expanded
/// glyph when expanded and the collapsed glyph otherwise.
pub proof fn lemma_disclosure_glyph<K>(row: TreeRowPresentation<K>)
    ensures
        (disclosure_of(row) == Disclosure::Leaf) <==> !row.has_children,
        (disclosure_of(row) == Disclosure::Expanded) <==> (row.has_children && row.is_expanded),
        (disclosure_of(row) == Disclosure::Collapsed) <==> (row.has_children && !row.is_expanded),
{
}

impl<K: Copy> TreeViewController<K> {
    /// The realized rows.
    pub closed spec fn realized(&self) -> Seq<TreeViewRealizedRow<K>> {
        self.rows@
    }

    /// The scroll view the rows live in.
    pub closed spec fn scroll_view_id(&self) -> ElementId {
        self.scroll_view
    }

    /// Number of rows the last sync showed.
    pub closed spec fn shown_count(&self) -> nat {
        self.shown as nat
    }

    /// The visible rows: the realized rows that the last sync showed, in
    /// order. Rows realized since then, and rows the last sync hid, are not
    /// visible.
    pub open spec fn visible(&self) -> Seq<TreeViewRealizedRow<K>> {
        if self.shown_count() <= self.realized().len() {
            self.realized().take(self.shown_count() as int)
        } else {
            self.realized()
        }
    }

    /// Creates a controller bound to one `ScrollView`.
    pub fn new(scroll_view: ElementId) -> (c: Self)
        ensures
            c.scroll_view_id() == scroll_view,
            c.realized() == Seq::<TreeViewRealizedRow<K>>::empty(),
            c.shown_count() == 0,
    {
        TreeViewController { scroll_view, rows: Vec::new(), shown: 0 }
    }

    /// Number of visible rows.
    fn visible_len(&self) -> (n: usize)
        ensures
            n == self.visible().len(),
            n <= self.realized().len(),
    {
        if self.shown <= self.rows.len() {
            self.shown
        } else {
            self.rows.len()
        }
    }

    /// Returns the bound tree scroll view.
    pub fn scroll_view(&self) -> (id: ElementId)
        ensures
            id == self.scroll_view_id(),
    {
        self.scroll_view
    }

    /// Returns the currently realized rows.
    pub fn realized_rows(&self) -> (rows: &[TreeViewRealizedRow<K>])
        ensures
            rows@ == self.realized(),
    {
        self.rows.as_slice()
    }

    /// Number of rows the retained UI still has to realize, through
    /// `push_realized_row`, before a sync of `projected` rows can show them
    /// all: a sync only shows rows that are realized.
    pub fn missing_rows(&self, projected: usize) -> (n: usize)
        ensures
            n == (if self.realized().len() < projected {
                projected - self.realized().len()
            } else {
                0
            }),
    {
        if self.rows.len() < projected {
            projected - self.rows.len()
        } else {
            0
        }
    }

    /// Records a row whose elements the retained UI just created for `key`.
    pub fn push_realized_row(&mut self, key: K, ids: TreeRowIds)
        ensures
            final(self).realized() == old(self).realized().push(
                TreeViewRealizedRow {
                    key,
                    depth: 0,
                    can_toggle: false,
                    is_expanded: false,
                    focused: false,
                    ids,
                },
            ),
            final(self).shown_count() == old(self).shown_count(),
            final(self).scroll_view_id() == old(self).scroll_view_id(),
    {
        self.rows.push(
            TreeViewRealizedRow { key, depth: 0, can_toggle: false, is_expanded: false, focused: false, ids },
        );
    }

    /// Syncs projected tree rows onto the realized rows.
    ///
    /// Each realized row with a projected counterpart takes the projected key,
    /// depth, disclosure and focus and is shown; the rest are hidden. Returns
    /// the edits to apply, row by row.
    ///
    /// Every projected row must already be realized: the retained UI first
    /// realizes the `missing_rows` for the projection through
    /// `push_realized_row`, then syncs.
    pub fn sync(&mut self, rows: &[TreeRowPresentation<K>], colors: RowColors) -> (edits: Vec<UiEdit>)
        requires
            rows@.len() <= old(self).realized().len(),
        ensures
            final(self).scroll_view_id() == old(self).scroll_view_id(),
            final(self).realized().len() == old(self).realized().len(),
            final(self).shown_count() == (if rows@.len() <= old(self).realized().len() {
                rows@.len()
            } else {
                old(self).realized().len()
            }),
            forall|i: int|
                0 <= i < old(self).realized().len() ==> final(self).realized()[i] == synced_tree_row(
                    old(self).realized()[i],
                    rows@,
                    i,
                ),
            edit_views(edits@) == concat_edits(
                Seq::new(
                    old(self).realized().len(),
                    |i: int| tree_row_edits(old(self).realized(), rows@, colors, i),
                ),
            ),
    {
        let ghost old_rows = self.rows@;
        let ghost batches = Seq::new(
            old_rows.len(),
            |i: int| tree_row_edits(old_rows, rows@, colors, i),
        );
        let mut edits: Vec<UiEdit> = Vec::new();
        let mut index: usize = 0;
        while index < self.rows.len()
            invariant
                self.rows@.len() == old_rows.len(),
                self.scroll_view == old(self).scroll_view,
                index <= old_rows.len(),
                batches == Seq::new(
                    old_rows.len(),
                    |i: int| tree_row_edits(old_rows, rows@, colors, i),
                ),
                forall|i: int|
                    0 <= i < index ==> self.rows@[i] == synced_tree_row(old_rows[i], rows@, i),
                forall|i: int| index <= i < old_rows.len() ==> self.rows@[i] == old_rows[i],
                edit_views(edits@) == concat_edits(batches.take(index as int)),
            decreases old_rows.len() - index,
        {
            let realized = self.rows[index];
            let ids = realized.ids;
            let ghost before = edit_views(edits@);
            proof {
                assert(batches.take(index + 1).drop_last() =~= batches.take(index as int));
            }
            if index < rows.len() {
                let row = &rows[index];
                self.rows.set(
                    index,
                    TreeViewRealizedRow {
                        key: row.key,
                        depth: row.depth,
                        can_toggle: row.has_children,
                        is_expanded: row.is_expanded,
                        focused: row.focused,
                        ids,
                    },
                );
                let mut shown = apply_row(&colors, &realized, row);
                edits.append(&mut shown);
            } else {
                let mut hidden = hide_row(&realized);
                edits.append(&mut hidden);
            }
            proof {
                assert(edit_views(edits@) =~= before + batches[index as int]);
            }
            index = index + 1;
        }
        self.shown = if rows.len() <= self.rows.len() {
            rows.len()
        } else {
            self.rows.len()
        };
        proof {
            assert(batches.take(index as int) =~= batches);
        }
        edits
    }

    /// Maps a clicked element back into a tree row action: a click on the
    /// glyph of a row that can toggle toggles it, any other hit selects.
    pub fn handle_click(&self, target: ElementId) -> (action: Option<TreeRowAction<K>>)
        ensures
            action == (match clicked_tree_row(self.realized(), target) {
                Some(p) => Some(click_action(self.realized()[p as int], target)),
                None => None,
            }),
    {
        proof {
            lemma_clicked_tree_row(self.rows@, target);
        }
        let mut i: usize = 0;
        while i < self.rows.len()
            invariant
                i <= self.rows@.len(),
                forall|j: int| 0 <= j < i ==> !is_tree_target(self.rows@[j].ids, target),
                clicked_tree_row(self.rows@, target) matches Some(p) ==> i <= p,
                clicked_tree_row(self.rows@, target) matches Some(p) ==> p < self.rows@.len()
                    && is_tree_target(self.rows@[p as int].ids, target),
            decreases self.rows@.len() - i,
        {
            let row = self.rows[i];
            let ids = row.ids;
            if target == ids.content || target == ids.label || target == ids.disclosure {
                proof {
                    lemma_clicked_tree_row(self.rows@, target);
                }
                if target == ids.disclosure && row.can_toggle {
                    return Some(TreeRowAction::Toggle(row.key));
                } else {
                    return Some(TreeRowAction::Select(row.key));
                }
            }
            i = i + 1;
        }
        None
    }

    /// Index of the parent of row `focused_index`.
    fn parent_row(&self, focused_index: usize) -> (p: Option<usize>)
        requires
            focused_index < self.realized().len(),
        ensures
            p matches Some(i) ==> parent_of(self.realized(), focused_index as int) == Some(i as nat)
                && i < focused_index,
            p is None ==> parent_of(self.realized(), focused_index as int) is None,
    {
        let depth = self.rows[focused_index].depth;
        if depth == 0 {
            return None;
        }
        let parent_depth = depth - 1;
        let mut j: usize = focused_index;
        while j > 0
            invariant
                j <= focused_index < self.rows@.len(),
                parent_depth == self.rows@[focused_index as int].depth - 1,
                last_at_depth(self.rows@, focused_index as int, parent_depth as int) == last_at_depth(
                    self.rows@,
                    j as int,
                    parent_depth as int,
                ),
            decreases j,
        {
            if self.rows[j - 1].depth == parent_depth {
                proof {
                    lemma_last_at_depth(self.rows@, j as int, parent_depth as int);
                }
                return Some(j - 1);
            }
            j = j - 1;
        }
        None
    }

    /// Maps a keyboard event into a tree navigation action using the current
    /// focused row and visible row order.
    pub fn handle_keyboard_event(&self, event: &KeyboardInput) -> (action: Option<TreeKeyboardAction<K>>)
        ensures
            action == (if !event.is_down {
                None
            } else {
                match focused_row(self.visible()) {
                    Some(f) => tree_key_action(self.visible(), f as int, event.key),
                    None => None,
                }
            }),
    {
        if !event.is_down {
            return None;
        }
        let n = self.visible_len();
        let ghost vis = self.visible();
        proof {
            lemma_focused_row(vis);
        }
        let mut fi: usize = 0;
        while fi < n && !self.rows[fi].focused
            invariant
                n == vis.len(),
                n <= self.rows@.len(),
                vis == self.visible(),
                forall|j: int| 0 <= j < n ==> vis[j] == self.rows@[j],
                fi <= n,
                forall|j: int| 0 <= j < fi ==> !vis[j].focused,
                focused_row(vis) matches Some(p) ==> fi <= p,
                focused_row(vis) matches Some(p) ==> p < n && vis[p as int].focused,
                focused_row(vis) is None ==> forall|j: int| 0 <= j < n ==> !vis[j].focused,
            decreases n - fi,
        {
            fi = fi + 1;
        }
        if fi == n {
            return None;
        }
        proof {
            lemma_focused_row(vis);
            assert(vis[fi as int] == self.rows@[fi as int]);
        }
        assert(focused_row(vis) == Some(fi as nat));
        let focused = self.rows[fi];
        match event.key {
            NavKey::ArrowUp => if fi >= 1 {
                Some(TreeKeyboardAction::Focus(self.rows[fi - 1].key))
            } else {
                None
            },
            NavKey::ArrowDown => if fi + 1 < n {
                Some(TreeKeyboardAction::Focus(self.rows[fi + 1].key))
            } else {
                None
            },
            NavKey::Home => Some(TreeKeyboardAction::Focus(self.rows[0].key)),
            NavKey::End => Some(TreeKeyboardAction::Focus(self.rows[n - 1].key)),
            NavKey::ArrowRight => {
                if focused.can_toggle && !focused.is_expanded {
                    Some(TreeKeyboardAction::Expand(focused.key))
                } else if fi + 1 < n && self.rows[fi + 1].depth > 0 && self.rows[fi + 1].depth - 1
                    == focused.depth {
                    Some(TreeKeyboardAction::Focus(self.rows[fi + 1].key))
                } else {
                    None
                }
            },
            NavKey::ArrowLeft => {
                if focused.can_toggle && focused.is_expanded {
                    Some(TreeKeyboardAction::Collapse(focused.key))
                } else {
                    proof {
                        if focused.depth > 0 {
                            lemma_last_at_depth_prefix(self.rows@, n as int, fi as int, focused.depth - 1);
                            assert(vis =~= self.rows@.take(n as int));
                        }
                    }
                    match self.parent_row(fi) {
                        Some(p) => Some(TreeKeyboardAction::Focus(self.rows[p].key)),
                        None => None,
                    }
                }
            },
            NavKey::Enter | NavKey::Space => Some(TreeKeyboardAction::Activate(focused.key)),
            _ => None,
        }
    }
}
} // verus!
