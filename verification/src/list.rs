//! Linear list surface: row focus/selection state and composite navigation.
//!
//! The controller keeps the realized rows (their keys and element ids) and the
//! focused and selected keys. Element creation and property writes happen in
//! the retained UI: [`ListViewController::sync`] returns the edits to apply.

use vstd::prelude::*;
use vstd::laws_eq::obeys_concrete_eq;

use crate::color::Color;
use crate::edits::{concat_edits, edit_views, EditView, RowColors, UiEdit};
use crate::ids::ElementId;
use crate::keys::{holds_key, same_key, KeyboardInput, NavKey};

verus! {

/// One projected list row.
#[derive(Clone, Debug)]
pub struct ListRowPresentation<K> {
    /// Stable row key.
    pub key: K,
    /// Visible row label.
    pub label: String,
}

impl<K> ListRowPresentation<K> {
    /// Creates a new list row presentation.
    pub fn new(key: K, label: &str) -> (row: Self)
        ensures
            row.key == key,
            row.label@ == label@,
    {
        ListRowPresentation { key, label: label.to_owned() }
    }
}

/// Element ids for one realized list row.
#[derive(Copy, Clone, Debug, PartialEq, Eq, Structural)]
pub struct ListRowIds {
    /// Row background/container.
    pub row: ElementId,
    /// Label text.
    pub label: ElementId,
}

/// One realized list row.
#[derive(Copy, Clone, Debug)]
pub struct ListViewRealizedRow<K> {
    /// Row key in the underlying model.
    pub key: K,
    /// Whether this row is currently focused.
    pub focused: bool,
    /// Realized element ids.
    pub ids: ListRowIds,
}

/// Action produced by clicking one realized list row.
#[derive(Copy, Clone, Debug, PartialEq, Eq)]
pub enum ListRowAction<K> {
    /// Activate/select the row.
    Select(K),
}

/// Keyboard/navigation action derived from the current realized list rows.
#[derive(Copy, Clone, Debug, PartialEq, Eq)]
pub enum ListKeyboardAction<K> {
    /// Move focus to another row.
    Focus(K),
    /// Activate/select the focused row.
    Activate(K),
}

/// Reusable controller for linear list rows.
#[derive(Clone, Debug)]
pub struct ListViewController<K> {
    scroll_view: ElementId,
    rows: Vec<ListViewRealizedRow<K>>,
    shown: usize,
    selected_key: Option<K>,
    focused_key: Option<K>,
}

/// Position of the first row carrying `k`.
pub open spec fn key_position<K>(rows: Seq<ListViewRealizedRow<K>>, k: K) -> Option<nat>
    decreases rows.len(),
{
    if rows.len() == 0 {
        None
    } else if rows[0].key == k {
        Some(0nat)
    } else {
        match key_position(rows.drop_first(), k) {
            Some(p) => Some(p + 1),
            None => None,
        }
    }
}

/// Index of the focused row: the row carrying the focused key, else the first
/// row, or nothing when no row is realized.
pub open spec fn focused_index_of<K>(rows: Seq<ListViewRealizedRow<K>>, focused: Option<K>) -> Option<nat> {
    match focused {
        Some(k) => match key_position(rows, k) {
            Some(p) => Some(p),
            None => if rows.len() > 0 {
                Some(0nat)
            } else {
                None
            },
        },
        None => if rows.len() > 0 {
            Some(0nat)
        } else {
            None
        },
    }
}

/// Key of the row after the focused one, if there is one.
pub open spec fn next_focus<K>(rows: Seq<ListViewRealizedRow<K>>, focused: Option<K>) -> Option<K> {
    match focused_index_of(rows, focused) {
        Some(p) => if p + 1 < rows.len() {
            Some(rows[p + 1int].key)
        } else {
            None
        },
        None => None,
    }
}

/// Key of the row before the focused one, if there is one.
pub open spec fn prev_focus<K>(rows: Seq<ListViewRealizedRow<K>>, focused: Option<K>) -> Option<K> {
    match focused_index_of(rows, focused) {
        Some(p) => if p >= 1 {
            Some(rows[p - 1].key)
        } else {
            None
        },
        None => None,
    }
}

/// Whether some projected row carries `k`.
pub open spec fn is_visible_key<K>(rows: Seq<ListRowPresentation<K>>, k: K) -> bool {
    exists|i: int| 0 <= i < rows.len() && rows[i].key == k
}

/// Focus after a sync: kept while visible, else the first row; nothing when
/// there are no rows.
pub open spec fn synced_focus<K>(rows: Seq<ListRowPresentation<K>>, focused: Option<K>) -> Option<K> {
    if rows.len() == 0 {
        None
    } else {
        match focused {
            Some(k) => if is_visible_key(rows, k) {
                Some(k)
            } else {
                Some(rows[0].key)
            },
            None => Some(rows[0].key),
        }
    }
}

/// Selection after a sync: kept while visible, else cleared.
pub open spec fn synced_selection<K>(rows: Seq<ListRowPresentation<K>>, selected: Option<K>) -> Option<K> {
    match selected {
        Some(k) => if is_visible_key(rows, k) {
            Some(k)
        } else {
            None
        },
        None => None,
    }
}

/// Background of a shown row.
pub open spec fn row_background<K>(colors: RowColors, key: K, selected: Option<K>, focused: Option<K>) -> Color {
    if selected == Some(key) {
        colors.selected_background
    } else if focused == Some(key) {
        colors.focused_background
    } else {
        colors.background
    }
}

/// Edits that show a row with its projected label and state background.
pub open spec fn shown_row_edits<K>(
    ids: ListRowIds,
    row: ListRowPresentation<K>,
    selected: Option<K>,
    focused: Option<K>,
    colors: RowColors,
) -> Seq<EditView> {
    seq![
        EditView::SetVisible(ids.row, true),
        EditView::SetBackground(ids.row, row_background(colors, row.key, selected, focused)),
        EditView::SetText(ids.label, row.label@),
    ]
}

/// Edits that hide a realized row no projected row uses.
pub open spec fn hidden_row_edits(ids: ListRowIds) -> Seq<EditView> {
    seq![EditView::SetVisible(ids.row, false), EditView::ClearText(ids.label)]
}

/// Edits for realized row `i` after a sync.
pub open spec fn list_row_edits<K>(
    realized: Seq<ListViewRealizedRow<K>>,
    rows: Seq<ListRowPresentation<K>>,
    selected: Option<K>,
    focused: Option<K>,
    colors: RowColors,
    i: int,
) -> Seq<EditView> {
    if i < rows.len() {
        shown_row_edits(realized[i].ids, rows[i], selected, focused, colors)
    } else {
        hidden_row_edits(realized[i].ids)
    }
}

/// The realized row `r` after a sync projected `rows` onto it at index `i`.
pub open spec fn synced_realized<K>(
    r: ListViewRealizedRow<K>,
    rows: Seq<ListRowPresentation<K>>,
    focused: Option<K>,
    i: int,
) -> ListViewRealizedRow<K> {
    if i < rows.len() {
        ListViewRealizedRow { key: rows[i].key, focused: focused == Some(rows[i].key), ids: r.ids }
    } else {
        r
    }
}

/// Whether a click on `target` hits the row container or its label.
pub open spec fn is_row_target(ids: ListRowIds, target: ElementId) -> bool {
    ids.row == target || ids.label == target
}

/// Index of the first row that a click on `target` hits.
pub open spec fn clicked_row<K>(rows: Seq<ListViewRealizedRow<K>>, target: ElementId) -> Option<nat>
    decreases rows.len(),
{
    if rows.len() == 0 {
        None
    } else if is_row_target(rows[0].ids, target) {
        Some(0nat)
    } else {
        match clicked_row(rows.drop_first(), target) {
            Some(p) => Some(p + 1),
            None => None,
        }
    }
}

/// `clicked_row` finds the first row hit by the click.
pub proof fn lemma_clicked_row<K>(rows: Seq<ListViewRealizedRow<K>>, target: ElementId)
    ensures
        clicked_row(rows, target) matches Some(p) ==> p < rows.len() && is_row_target(
            rows[p as int].ids,
            target,
        ) && forall|j: int| 0 <= j < p ==> !is_row_target(rows[j].ids, target),
        clicked_row(rows, target) is None ==> forall|j: int|
            0 <= j < rows.len() ==> !is_row_target(rows[j].ids, target),
    decreases rows.len(),
{
    if rows.len() > 0 && !is_row_target(rows[0].ids, target) {
        lemma_clicked_row(rows.drop_first(), target);
        assert forall|j: int| 1 <= j < rows.len() implies rows[j] == rows.drop_first()[j - 1] by {}
    }
}

/// Edits showing `row` on a realized row, with the background of its state.
pub fn apply_row<K>(
    colors: &RowColors,
    realized: &ListViewRealizedRow<K>,
    row: &ListRowPresentation<K>,
    selected: bool,
    focused: bool,
) -> (edits: Vec<UiEdit>)
    ensures
        edit_views(edits@) == seq![
            EditView::SetVisible(realized.ids.row, true),
            EditView::SetBackground(
                realized.ids.row,
                if selected {
                    colors.selected_background
                } else if focused {
                    colors.focused_background
                } else {
                    colors.background
                },
            ),
            EditView::SetText(realized.ids.label, row.label@),
        ],
{
    let background = if selected {
        colors.selected_background
    } else if focused {
        colors.focused_background
    } else {
        colors.background
    };
    let mut edits: Vec<UiEdit> = Vec::new();
    edits.push(UiEdit::SetVisible(realized.ids.row, true));
    edits.push(UiEdit::SetBackground(realized.ids.row, background));
    edits.push(set_text_block_text(realized.ids.label, row.label.as_str()));
    proof {
        assert(edit_views(edits@) =~= seq![
            EditView::SetVisible(realized.ids.row, true),
            EditView::SetBackground(realized.ids.row, background),
            EditView::SetText(realized.ids.label, row.label@),
        ]);
    }
    edits
}

/// Edits hiding a realized row: the row hidden and its label cleared.
pub fn hide_row<K>(realized: &ListViewRealizedRow<K>) -> (edits: Vec<UiEdit>)
    ensures
        edit_views(edits@) == hidden_row_edits(realized.ids),
{
    let mut edits: Vec<UiEdit> = Vec::new();
    edits.push(UiEdit::SetVisible(realized.ids.row, false));
    edits.push(UiEdit::ClearText(realized.ids.label));
    proof {
        assert(edit_views(edits@) =~= hidden_row_edits(realized.ids));
    }
    edits
}

/// Edit that sets a text block's text.
pub fn set_text_block_text(id: ElementId, text: &str) -> (e: UiEdit)
    ensures
        e@ == EditView::SetText(id, text@),
{
    UiEdit::SetText(id, text.to_owned())
}

/// `key_position` finds the first row carrying the key.
pub proof fn lemma_key_position<K>(rows: Seq<ListViewRealizedRow<K>>, k: K)
    ensures
        key_position(rows, k) matches Some(p) ==> p < rows.len() && rows[p as int].key == k
            && forall|j: int| 0 <= j < p ==> rows[j].key != k,
        key_position(rows, k) is None ==> forall|j: int| 0 <= j < rows.len() ==> rows[j].key != k,
    decreases rows.len(),
{
    if rows.len() > 0 && rows[0].key != k {
        lemma_key_position(rows.drop_first(), k);
        assert forall|j: int| 1 <= j < rows.len() implies rows[j] == rows.drop_first()[j - 1] by {}
    }
}

/// With distinct keys, moving focus to the next row and then back to the
/// previous row returns focus to the row that was focused.
pub proof fn lemma_next_then_prev_restores_focus<K>(rows: Seq<ListViewRealizedRow<K>>, focused: Option<K>, p: nat)
    requires
        forall|i: int, j: int| 0 <= i < j < rows.len() ==> rows[i].key != rows[j].key,
        focused_index_of(rows, focused) == Some(p),
        p + 1 < rows.len(),
    ensures
        next_focus(rows, focused) == Some(rows[p + 1int].key),
        prev_focus(rows, next_focus(rows, focused)) == Some(rows[p as int].key),
{
    let k = rows[p + 1int].key;
    lemma_key_position(rows, k);
    assert(key_position(rows, k) == Some((p + 1) as nat));
}

impl<K: Copy + PartialEq> ListViewController<K> {
    /// The realized rows.
    pub closed spec fn realized(&self) -> Seq<ListViewRealizedRow<K>> {
        self.rows@
    }

    /// The selected key.
    pub closed spec fn selected(&self) -> Option<K> {
        self.selected_key
    }

    /// The focused key.
    pub closed spec fn focused(&self) -> Option<K> {
        self.focused_key
    }

    /// The scroll view the rows live in.
    pub closed spec fn scroll_view_id(&self) -> ElementId {
        self.scroll_view
    }

    /// Number of rows the last sync showed.
    pub closed spec fn shown_count(&self) -> nat {
        self.shown as nat
    }

    /// The visible rows: the realized rows that the last sync showed, in
    /// order. Rows realized since then, and rows the last sync hid, are not
    /// visible.
    pub open spec fn visible(&self) -> Seq<ListViewRealizedRow<K>> {
        if self.shown_count() <= self.realized().len() {
            self.realized().take(self.shown_count() as int)
        } else {
            self.realized()
        }
    }

    /// Creates a controller bound to one `ScrollView`.
    pub fn new(scroll_view: ElementId) -> (c: Self)
        ensures
            c.scroll_view_id() == scroll_view,
            c.realized() == Seq::<ListViewRealizedRow<K>>::empty(),
            c.selected() is None,
            c.focused() is None,
            c.shown_count() == 0,
    {
        ListViewController { scroll_view, rows: Vec::new(), shown: 0, selected_key: None, focused_key: None }
    }

    /// Returns the bound list scroll view.
    pub fn scroll_view(&self) -> (id: ElementId)
        ensures
            id == self.scroll_view_id(),
    {
        self.scroll_view
    }

    /// Returns the currently realized rows.
    pub fn realized_rows(&self) -> (rows: &[ListViewRealizedRow<K>])
        ensures
            rows@ == self.realized(),
    {
        self.rows.as_slice()
    }

    /// Returns the currently selected row key, if any.
    pub fn selected_key(&self) -> (k: Option<&K>)
        ensures
            k matches Some(x) ==> self.selected() == Some(*x),
            k is None ==> self.selected() is None,
    {
        match &self.selected_key {
            Some(k) => Some(k),
            None => None,
        }
    }

    /// Returns the currently focused row key, if any.
    pub fn focused_key(&self) -> (k: Option<&K>)
        ensures
            k matches Some(x) ==> self.focused() == Some(*x),
            k is None ==> self.focused() is None,
    {
        match &self.focused_key {
            Some(k) => Some(k),
            None => None,
        }
    }

    /// Replaces the currently selected row key.
    pub fn set_selected_key(&mut self, key: Option<K>)
        ensures
            final(self).selected() == key,
            final(self).focused() == old(self).focused(),
            final(self).realized() == old(self).realized(),
            final(self).shown_count() == old(self).shown_count(),
            final(self).scroll_view_id() == old(self).scroll_view_id(),
    {
        self.selected_key = key;
    }

    /// Replaces the currently focused row key.
    pub fn set_focused_key(&mut self, key: Option<K>)
        ensures
            final(self).focused() == key,
            final(self).selected() == old(self).selected(),
            final(self).realized() == old(self).realized(),
            final(self).shown_count() == old(self).shown_count(),
            final(self).scroll_view_id() == old(self).scroll_view_id(),
    {
        self.focused_key = key;
    }

    /// Number of rows the retained UI still has to realize, through
    /// `push_realized_row`, before a sync of `projected` rows can show them
    /// all: a sync only shows rows that are realized.
    pub fn missing_rows(&self, projected: usize) -> (n: usize)
        ensures
            n == (if self.realized().len() < projected {
                projected - self.realized().len()
            } else {
                0
            }),
    {
        if self.rows.len() < projected {
            projected - self.rows.len()
        } else {
            0
        }
    }

    /// Records a row whose elements the retained UI just created for `key`.
    pub fn push_realized_row(&mut self, key: K, ids: ListRowIds)
        ensures
            final(self).realized() == old(self).realized().push(
                ListViewRealizedRow { key, focused: false, ids },
            ),
            final(self).shown_count() == old(self).shown_count(),
            final(self).selected() == old(self).selected(),
            final(self).focused() == old(self).focused(),
            final(self).scroll_view_id() == old(self).scroll_view_id(),
    {
        self.rows.push(ListViewRealizedRow { key, focused: false, ids });
    }

    /// Number of visible rows.
    fn visible_len(&self) -> (n: usize)
        ensures
            n == self.visible().len(),
            n <= self.realized().len(),
    {
        if self.shown <= self.rows.len() {
            self.shown
        } else {
            self.rows.len()
        }
    }

    /// Focuses the first visible row and returns its key.
    pub fn focus_first_visible(&mut self) -> (k: Option<K>)
        ensures
            old(self).visible().len() == 0 ==> k is None && final(self).focused() == old(self).focused(),
            old(self).visible().len() > 0 ==> k == Some(old(self).visible()[0].key) && final(self).focused() == k,
            final(self).selected() == old(self).selected(),
            final(self).realized() == old(self).realized(),
            final(self).shown_count() == old(self).shown_count(),
            final(self).scroll_view_id() == old(self).scroll_view_id(),
    {
        let n = self.visible_len();
        if n == 0 {
            return None;
        }
        let key = self.rows[0].key;
        self.focused_key = Some(key);
        Some(key)
    }

    /// Focuses the last visible row and returns its key.
    pub fn focus_last_visible(&mut self) -> (k: Option<K>)
        ensures
            old(self).visible().len() == 0 ==> k is None && final(self).focused() == old(self).focused(),
            old(self).visible().len() > 0 ==> k == Some(old(self).visible().last().key) && final(self).focused() == k,
            final(self).selected() == old(self).selected(),
            final(self).realized() == old(self).realized(),
            final(self).shown_count() == old(self).shown_count(),
            final(self).scroll_view_id() == old(self).scroll_view_id(),
    {
        let n = self.visible_len();
        if n == 0 {
            return None;
        }
        let key = self.rows[n - 1].key;
        self.focused_key = Some(key);
        Some(key)
    }

    /// Index of the focused row among the visible rows, or of the first
    /// visible row when the focused key is not visible.
    fn focused_index(&self) -> (p: Option<usize>)
        requires
            obeys_concrete_eq::<K>(),
        ensures
            p matches Some(i) ==> focused_index_of(self.visible(), self.focused()) == Some(i as nat)
                && i < self.visible().len(),
            p is None ==> focused_index_of(self.visible(), self.focused()) is None,
    {
        let n = self.visible_len();
        let ghost vis = self.visible();
        if let Some(key) = &self.focused_key {
            let mut i: usize = 0;
            while i < n
                invariant
                    i <= n,
                    n == vis.len(),
                    vis == self.visible(),
                    n <= self.rows@.len(),
                    self.focused_key == Some(*key),
                    forall|j: int| 0 <= j < i ==> vis[j].key != *key,
                    obeys_concrete_eq::<K>(),
                decreases n - i,
            {
                assert(vis[i as int] == self.rows@[i as int]);
                if same_key(&self.rows[i].key, key) {
                    proof {
                        lemma_key_position(vis, *key);
                        if key_position(vis, *key) != Some(i as nat) {
                            let q = key_position(vis, *key)->0;
                            assert(q < i || q > i);
                        }
                    }
                    return Some(i);
                }
                i = i + 1;
            }
            proof {
                lemma_key_position(vis, *key);
            }
        }
        if n > 0 {
            Some(0)
        } else {
            None
        }
    }

    /// Focuses the previous visible row and returns its key.
    pub fn focus_prev_visible(&mut self) -> (k: Option<K>)
        requires
            obeys_concrete_eq::<K>(),
        ensures
            k == prev_focus(old(self).visible(), old(self).focused()),
            final(self).focused() == (if k is Some {
                k
            } else {
                old(self).focused()
            }),
            final(self).selected() == old(self).selected(),
            final(self).realized() == old(self).realized(),
            final(self).shown_count() == old(self).shown_count(),
            final(self).scroll_view_id() == old(self).scroll_view_id(),
    {
        let index = match self.focused_index() {
            Some(i) => i,
            None => return None,
        };
        if index == 0 {
            return None;
        }
        let key = self.rows[index - 1].key;
        self.focused_key = Some(key);
        Some(key)
    }

    /// Focuses the next visible row and returns its key.
    pub fn focus_next_visible(&mut self) -> (k: Option<K>)
        requires
            obeys_concrete_eq::<K>(),
        ensures
            k == next_focus(old(self).visible(), old(self).focused()),
            final(self).focused() == (if k is Some {
                k
            } else {
                old(self).focused()
            }),
            final(self).selected() == old(self).selected(),
            final(self).realized() == old(self).realized(),
            final(self).shown_count() == old(self).shown_count(),
            final(self).scroll_view_id() == old(self).scroll_view_id(),
    {
        let index = match self.focused_index() {
            Some(i) => i,
            None => return None,
        };
        let n = self.visible_len();
        if index + 1 >= n {
            return None;
        }
        let key = self.rows[index + 1].key;
        self.focused_key = Some(key);
        Some(key)
    }

    /// Selects the focused row and returns its key.
    pub fn select_focused(&mut self) -> (k: Option<K>)
        ensures
            k == old(self).focused(),
            final(self).selected() == (if k is Some {
                k
            } else {
                old(self).selected()
            }),
            final(self).focused() == old(self).focused(),
            final(self).realized() == old(self).realized(),
            final(self).shown_count() == old(self).shown_count(),
            final(self).scroll_view_id() == old(self).scroll_view_id(),
    {
        match self.focused_key {
            Some(key) => {
                self.selected_key = Some(key);
                Some(key)
            },
            None => None,
        }
    }

    /// Returns the focused row key and also marks it selected.
    pub fn activate_focused(&mut self) -> (k: Option<K>)
        ensures
            k == old(self).focused(),
            final(self).selected() == (if k is Some {
                k
            } else {
                old(self).selected()
            }),
            final(self).focused() == old(self).focused(),
            final(self).realized() == old(self).realized(),
            final(self).shown_count() == old(self).shown_count(),
            final(self).scroll_view_id() == old(self).scroll_view_id(),
    {
        self.select_focused()
    }

    /// Whether some projected row carries `key`.
    fn is_visible(rows: &[ListRowPresentation<K>], key: &K) -> (b: bool)
        requires
            obeys_concrete_eq::<K>(),
        ensures
            b == is_visible_key(rows@, *key),
    {
        let mut i: usize = 0;
        while i < rows.len()
            invariant
                i <= rows@.len(),
                forall|j: int| 0 <= j < i ==> rows@[j].key != *key,
                obeys_concrete_eq::<K>(),
            decreases rows@.len() - i,
        {
            if same_key(&rows[i].key, key) {
                return true;
            }
            i = i + 1;
        }
        false
    }

    /// Syncs projected list rows onto the realized rows.
    ///
    /// Focus stays on a visible key or moves to the first row; a selection
    /// whose key is no longer visible is cleared. Each realized row with a
    /// projected counterpart takes its key and is shown with its label; the
    /// rest are hidden. Returns the edits to apply, row by row.
    ///
    /// Every projected row must already be realized: the retained UI first
    /// realizes the `missing_rows` for the projection through
    /// `push_realized_row`, then syncs.
    pub fn sync(&mut self, rows: &[ListRowPresentation<K>], colors: RowColors) -> (edits: Vec<UiEdit>)
        requires
            obeys_concrete_eq::<K>(),
            rows@.len() <= old(self).realized().len(),
        ensures
            final(self).focused() == synced_focus(rows@, old(self).focused()),
            final(self).selected() == synced_selection(rows@, old(self).selected()),
            final(self).scroll_view_id() == old(self).scroll_view_id(),
            final(self).realized().len() == old(self).realized().len(),
            final(self).shown_count() == (if rows@.len() <= old(self).realized().len() {
                rows@.len()
            } else {
                old(self).realized().len()
            }),
            forall|i: int|
                0 <= i < old(self).realized().len() ==> final(self).realized()[i] == synced_realized(
                    old(self).realized()[i],
                    rows@,
                    final(self).focused(),
                    i,
                ),
            edit_views(edits@) == concat_edits(
                Seq::new(
                    old(self).realized().len(),
                    |i: int|
                        list_row_edits(
                            old(self).realized(),
                            rows@,
                            final(self).selected(),
                            final(self).focused(),
                            colors,
                            i,
                        ),
                ),
            ),
    {
        if rows.len() > 0 {
            let keep_focus = match &self.focused_key {
                Some(k) => Self::is_visible(rows, k),
                None => false,
            };
            if !keep_focus {
                self.focused_key = Some(rows[0].key);
            }
            let drop_selection = match &self.selected_key {
                Some(k) => !Self::is_visible(rows, k),
                None => false,
            };
            if drop_selection {
                self.selected_key = None;
            }
        } else {
            self.focused_key = None;
            self.selected_key = None;
        }

        let ghost old_rows = self.rows@;
        let ghost synced_focused = self.focused_key;
        let ghost synced_selected = self.selected_key;
        let ghost batches = Seq::new(
            old_rows.len(),
            |i: int| list_row_edits(old_rows, rows@, self.selected_key, self.focused_key, colors, i),
        );
        let mut edits: Vec<UiEdit> = Vec::new();
        let mut index: usize = 0;
        while index < self.rows.len()
            invariant
                obeys_concrete_eq::<K>(),
                self.rows@.len() == old_rows.len(),
                self.focused_key == synced_focused,
                self.selected_key == synced_selected,
                self.scroll_view == old(self).scroll_view,
                index <= old_rows.len(),
                batches == Seq::new(
                    old_rows.len(),
                    |i: int|
                        list_row_edits(old_rows, rows@, self.selected_key, self.focused_key, colors, i),
                ),
                forall|i: int|
                    0 <= i < index ==> self.rows@[i] == synced_realized(
                        old_rows[i],
                        rows@,
                        self.focused_key,
                        i,
                    ),
                forall|i: int| index <= i < old_rows.len() ==> self.rows@[i] == old_rows[i],
                edit_views(edits@) == concat_edits(batches.take(index as int)),
            decreases old_rows.len() - index,
        {
            let realized = self.rows[index];
            let ghost before = edit_views(edits@);
            proof {
                assert(batches.take(index + 1).drop_last() =~= batches.take(index as int));
            }
            if index < rows.len() {
                let key = rows[index].key;
                let focused = holds_key(&self.focused_key, &key);
                let selected = holds_key(&self.selected_key, &key);
                self.rows.set(index, ListViewRealizedRow { key, focused, ids: realized.ids });
                let mut shown = apply_row(&colors, &realized, &rows[index], selected, focused);
                edits.append(&mut shown);
            } else {
                let mut hidden = hide_row(&realized);
                edits.append(&mut hidden);
            }
            proof {
                assert(edit_views(edits@) =~= before + batches[index as int]);
            }
            index = index + 1;
        }
        self.shown = if rows.len() <= self.rows.len() {
            rows.len()
        } else {
            self.rows.len()
        };
        proof {
            assert(batches.take(index as int) =~= batches);
        }
        edits
    }

    /// Maps a clicked element back into a list row action, focusing and
    /// selecting the first row whose container or label was clicked.
    pub fn handle_click(&mut self, target: ElementId) -> (action: Option<ListRowAction<K>>)
        ensures
            final(self).realized() == old(self).realized(),
            final(self).shown_count() == old(self).shown_count(),
            final(self).scroll_view_id() == old(self).scroll_view_id(),
            match clicked_row(old(self).realized(), target) {
                Some(p) => {
                    let k = old(self).realized()[p as int].key;
                    &&& action == Some(ListRowAction::Select(k))
                    &&& final(self).focused() == Some(k)
                    &&& final(self).selected() == Some(k)
                },
                None => {
                    &&& action is None
                    &&& final(self).focused() == old(self).focused()
                    &&& final(self).selected() == old(self).selected()
                },
            },
    {
        proof {
            lemma_clicked_row(self.rows@, target);
        }
        let mut i: usize = 0;
        while i < self.rows.len()
            invariant
                i <= self.rows@.len(),
                self.rows@ == old(self).rows@,
                self.shown == old(self).shown,
                self.scroll_view == old(self).scroll_view,
                self.focused_key == old(self).focused_key,
                self.selected_key == old(self).selected_key,
                forall|j: int| 0 <= j < i ==> !is_row_target(self.rows@[j].ids, target),
                clicked_row(self.rows@, target) matches Some(p) ==> i <= p,
                clicked_row(self.rows@, target) matches Some(p) ==> p < self.rows@.len()
                    && is_row_target(self.rows@[p as int].ids, target),
                clicked_row(self.rows@, target) is None ==> forall|j: int|
                    0 <= j < self.rows@.len() ==> !is_row_target(self.rows@[j].ids, target),
            decreases self.rows@.len() - i,
        {
            let ids = self.rows[i].ids;
            if ids.row == target || ids.label == target {
                let key = self.rows[i].key;
                self.focused_key = Some(key);
                self.selected_key = Some(key);
                proof {
                    lemma_clicked_row(self.rows@, target);
                }
                return Some(ListRowAction::Select(key));
            }
            i = i + 1;
        }
        None
    }

    /// Maps a keyboard event into a list navigation action using the current
    /// focused row and visible row order.
    pub fn handle_keyboard_event(&mut self, event: &KeyboardInput) -> (action: Option<ListKeyboardAction<K>>)
        requires
            obeys_concrete_eq::<K>(),
        ensures
            final(self).realized() == old(self).realized(),
            final(self).shown_count() == old(self).shown_count(),
            final(self).scroll_view_id() == old(self).scroll_view_id(),
            !event.is_down || focused_index_of(old(self).visible(), old(self).focused()) is None
                ==> action is None && final(self).focused() == old(self).focused() && final(self).selected() == old(self).selected(),
            event.is_down && focused_index_of(old(self).visible(), old(self).focused()) is Some
                ==> match event.key {
                NavKey::ArrowUp => {
                    let k = prev_focus(old(self).visible(), old(self).focused());
                    &&& action == (match k {
                        Some(x) => Some(ListKeyboardAction::Focus(x)),
                        None => None,
                    })
                    &&& final(self).focused() == (if k is Some {
                        k
                    } else {
                        old(self).focused()
                    })
                    &&& final(self).selected() == old(self).selected()
                },
                NavKey::ArrowDown => {
                    let k = next_focus(old(self).visible(), old(self).focused());
                    &&& action == (match k {
                        Some(x) => Some(ListKeyboardAction::Focus(x)),
                        None => None,
                    })
                    &&& final(self).focused() == (if k is Some {
                        k
                    } else {
                        old(self).focused()
                    })
                    &&& final(self).selected() == old(self).selected()
                },
                NavKey::Home => {
                    let k = old(self).visible()[0].key;
                    &&& action == Some(ListKeyboardAction::Focus(k))
                    &&& final(self).focused() == Some(k)
                    &&& final(self).selected() == old(self).selected()
                },
                NavKey::End => {
                    let k = old(self).visible().last().key;
                    &&& action == Some(ListKeyboardAction::Focus(k))
                    &&& final(self).focused() == Some(k)
                    &&& final(self).selected() == old(self).selected()
                },
                NavKey::Enter | NavKey::Space => {
                    &&& action == (match old(self).focused() {
                        Some(x) => Some(ListKeyboardAction::Activate(x)),
                        None => None,
                    })
                    &&& final(self).focused() == old(self).focused()
                    &&& final(self).selected() == (match old(self).focused() {
                        Some(x) => Some(x),
                        None => old(self).selected(),
                    })
                },
                _ => {
                    &&& action is None
                    &&& final(self).focused() == old(self).focused()
                    &&& final(self).selected() == old(self).selected()
                },
            },
    {
        if !event.is_down {
            return None;
        }
        if self.focused_index().is_none() {
            return None;
        }
        match event.key {
            NavKey::ArrowUp => match self.focus_prev_visible() {
                Some(k) => Some(ListKeyboardAction::Focus(k)),
                None => None,
            },
            NavKey::ArrowDown => match self.focus_next_visible() {
                Some(k) => Some(ListKeyboardAction::Focus(k)),
                None => None,
            },
            NavKey::Home => match self.focus_first_visible() {
                Some(k) => Some(ListKeyboardAction::Focus(k)),
                None => None,
            },
            NavKey::End => match self.focus_last_visible() {
                Some(k) => Some(ListKeyboardAction::Focus(k)),
                None => None,
            },
            NavKey::Enter | NavKey::Space => match self.activate_focused() {
                Some(k) => Some(ListKeyboardAction::Activate(k)),
                None => None,
            },
            _ => None,
        }
    }
}

/// After a sync onto non-empty rows the focused key belongs to a visible row,
/// and a remaining selection does too.
pub proof fn lemma_sync_focus_is_visible<K>(rows: Seq<ListRowPresentation<K>>, focused: Option<K>, selected: Option<K>)
    requires
        rows.len() > 0,
    ensures
        synced_focus(rows, focused) matches Some(k) && is_visible_key(rows, k),
        synced_selection(rows, selected) matches Some(k) ==> is_visible_key(rows, k),
{
    assert(rows[0].key == rows[0].key);
}

} // verus!
