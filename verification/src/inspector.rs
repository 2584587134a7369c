//! Inspector tree surface: realized row records, click outcomes, model
//! parent lookup, row label composition, and the controller that projects the
//! inspector's visible rows onto retained text-block rows.

use vstd::prelude::*;
use vstd::laws_eq::obeys_concrete_eq;

use crate::edits::{concat_edits, edit_views, EditView, UiEdit};
use crate::ids::ElementId;
use crate::keys::holds_key;

verus! {

/// One realized inspector tree row.
#[derive(Copy, Clone, Debug, PartialEq, Eq)]
pub struct InspectorTreeRealizedRow<K> {
    /// Row key in the underlying inspector model.
    pub key: K,
    /// Realized text block element.
    pub element: ElementId,
}

/// Outcome of clicking one realized tree row.
#[derive(Copy, Clone, Debug, PartialEq, Eq)]
pub struct InspectorTreeClick<K> {
    /// Clicked model key.
    pub key: K,
    /// Whether the click also toggled expansion.
    pub toggled: bool,
}

/// Hierarchical model requirements for an inspector: parent lookup, so the
/// inspector can move focus to the nearest remaining ancestor when a visible
/// descendant disappears after a collapse or a model change.
pub trait InspectorModel {
    /// Row key type.
    type Key;

    /// The parent-like fallback of `key` in this model, if any.
    spec fn parent_of_key(&self, key: Self::Key) -> Option<Self::Key>;

    /// Returns the parent-like fallback for `key`, if any.
    fn parent_key(&self, key: &Self::Key) -> (parent: Option<Self::Key>)
        ensures
            parent == self.parent_of_key(*key),
    ;
}

impl<'a, M: InspectorModel> InspectorModel for &'a M {
    type Key = M::Key;

    /// A shared reference has the parents of the model it refers to.
    open spec fn parent_of_key(&self, key: Self::Key) -> Option<Self::Key> {
        (**self).parent_of_key(key)
    }

    fn parent_key(&self, key: &Self::Key) -> Option<Self::Key> {
        (**self).parent_key(key)
    }
}

impl<'a, M: InspectorModel> InspectorModel for &'a mut M {
    type Key = M::Key;

    /// A mutable reference has the parents of the model it refers to.
    open spec fn parent_of_key(&self, key: Self::Key) -> Option<Self::Key> {
        (**self).parent_of_key(key)
    }

    fn parent_key(&self, key: &Self::Key) -> Option<Self::Key> {
        (**self).parent_key(key)
    }
}

/// Text pieces that make up an inspector row label.
#[derive(Clone, Debug)]
pub struct InspectorTreeLabels {
    /// String used per tree depth for indentation.
    pub indent_unit: String,
    /// Prefix for expanded parents.
    pub expanded_prefix: String,
    /// Prefix for collapsed parents.
    pub collapsed_prefix: String,
    /// Prefix for leaf rows.
    pub leaf_prefix: String,
    /// Prefix applied to selected rows.
    pub selected_prefix: String,
    /// Prefix applied to unselected rows.
    pub unselected_prefix: String,
}

/// `unit` repeated `n` times.
pub open spec fn repeated(unit: Seq<char>, n: nat) -> Seq<char>
    decreases n,
{
    if n == 0 {
        Seq::empty()
    } else {
        repeated(unit, (n - 1) as nat) + unit
    }
}

/// The label of a row: indentation, disclosure prefix, selection marker and
/// the formatted item.
pub open spec fn row_label(
    labels: InspectorTreeLabels,
    depth: nat,
    has_children: bool,
    is_expanded: bool,
    selected: bool,
    item: Seq<char>,
) -> Seq<char> {
    let disclosure = if has_children {
        if is_expanded {
            labels.expanded_prefix@
        } else {
            labels.collapsed_prefix@
        }
    } else {
        labels.leaf_prefix@
    };
    let marker = if selected {
        labels.selected_prefix@
    } else {
        labels.unselected_prefix@
    };
    repeated(labels.indent_unit@, depth) + disclosure + marker + item
}

/// Composes the label of one inspector row.
pub fn inspector_row_label(
    labels: &InspectorTreeLabels,
    depth: usize,
    has_children: bool,
    is_expanded: bool,
    selected: bool,
    item: &str,
) -> (s: String)
    ensures
        s@ == row_label(*labels, depth as nat, has_children, is_expanded, selected, item@),
{
    let mut s = String::new();
    let mut i: usize = 0;
    while i < depth
        invariant
            i <= depth,
            s@ == repeated(labels.indent_unit@, i as nat),
        decreases depth - i,
    {
        s.append(labels.indent_unit.as_str());
        i = i + 1;
    }
    let disclosure = if has_children {
        if is_expanded {
            labels.expanded_prefix.as_str()
        } else {
            labels.collapsed_prefix.as_str()
        }
    } else {
        labels.leaf_prefix.as_str()
    };
    s.append(disclosure);
    let marker = if selected {
        labels.selected_prefix.as_str()
    } else {
        labels.unselected_prefix.as_str()
    };
    s.append(marker);
    s.append(item);
    s
}


impl Default for InspectorTreeLabels {
    /// Two-space indentation, triangle disclosure prefixes, and a dot marking
    /// the selected row.
    fn default() -> (labels: Self)
        ensures
            labels.indent_unit@ == "  "@,
            labels.expanded_prefix@ == "▾ "@,
            labels.collapsed_prefix@ == "▸ "@,
            labels.leaf_prefix@ == "  "@,
            labels.selected_prefix@ == "● "@,
            labels.unselected_prefix@ == ""@,
    {
        InspectorTreeLabels {
            indent_unit: String::from_str("  "),
            expanded_prefix: String::from_str("▾ "),
            collapsed_prefix: String::from_str("▸ "),
            leaf_prefix: String::from_str("  "),
            selected_prefix: String::from_str("● "),
            unselected_prefix: String::from_str(""),
        }
    }
}

/// One row of the inspector's visible projection.
#[derive(Copy, Clone, Debug, PartialEq, Eq)]
pub struct InspectorVisibleRow<K> {
    /// Row key in the inspector model.
    pub key: K,
    /// Depth in the tree, roots at zero.
    pub depth: usize,
    /// Whether the row has children.
    pub has_children: bool,
    /// Whether the row is expanded.
    pub is_expanded: bool,
}

/// Edits for realized row `i` after a sync: a row with a visible
/// counterpart shows its label, the rest are emptied and hidden.
pub open spec fn inspector_row_edits<K>(
    labels: InspectorTreeLabels,
    realized: Seq<InspectorTreeRealizedRow<K>>,
    visible: Seq<InspectorVisibleRow<K>>,
    items: Seq<String>,
    selected: Option<K>,
    i: int,
) -> Seq<EditView> {
    let element = realized[i].element;
    if i < visible.len() {
        let row = visible[i];
        seq![
            EditView::SetText(
                element,
                row_label(labels, row.depth as nat, row.has_children, row.is_expanded, selected == Some(row.key), items[i]@),
            ),
            EditView::SetVisible(element, true),
        ]
    } else {
        seq![EditView::ClearText(element), EditView::SetVisible(element, false)]
    }
}

/// Realized row `i` after a sync: it takes the key of its visible
/// counterpart, if any, and keeps its element.
pub open spec fn synced_inspector_row<K>(
    r: InspectorTreeRealizedRow<K>,
    visible: Seq<InspectorVisibleRow<K>>,
    i: int,
) -> InspectorTreeRealizedRow<K> {
    if i < visible.len() {
        InspectorTreeRealizedRow { key: visible[i].key, element: r.element }
    } else {
        r
    }
}

/// Position of the first realized row whose element is `target`.
pub open spec fn row_of_element<K>(rows: Seq<InspectorTreeRealizedRow<K>>, target: ElementId) -> Option<nat>
    decreases rows.len(),
{
    if rows.len() == 0 {
        None
    } else if rows[0].element == target {
        Some(0)
    } else {
        match row_of_element(rows.drop_first(), target) {
            Some(p) => Some(p + 1),
            None => None,
        }
    }
}

/// `row_of_element` finds the first row with the element.
pub proof fn lemma_row_of_element<K>(rows: Seq<InspectorTreeRealizedRow<K>>, target: ElementId)
    ensures
        row_of_element(rows, target) matches Some(p) ==> p < rows.len() && rows[p as int].element == target
            && forall|j: int| 0 <= j < p ==> rows[j].element != target,
        row_of_element(rows, target) is None ==> forall|j: int|
            0 <= j < rows.len() ==> rows[j].element != target,
    decreases rows.len(),
{
    if rows.len() > 0 && rows[0].element != target {
        lemma_row_of_element(rows.drop_first(), target);
        assert forall|j: int| 1 <= j < rows.len() implies rows[j] == rows.drop_first()[j - 1] by {}
    }
}

/// Controller that projects an inspector's visible rows onto text-block rows
/// under one scroll view.
///
/// The retained UI creates the text blocks the controller asks for
/// ([`InspectorTreeController::missing_rows`]) and reports each one
/// ([`InspectorTreeController::push_realized_row`]); a sync then yields the
/// label and visibility edits for every realized row.
#[derive(Clone, Debug)]
pub struct InspectorTreeController<K> {
    scroll_view: ElementId,
    labels: InspectorTreeLabels,
    rows: Vec<InspectorTreeRealizedRow<K>>,
}

impl<K: Copy + PartialEq> InspectorTreeController<K> {
    /// The bound scroll view.
    pub closed spec fn scroll_view_id(&self) -> ElementId {
        self.scroll_view
    }

    /// The label pieces.
    pub closed spec fn label_pieces(&self) -> InspectorTreeLabels {
        self.labels
    }

    /// The realized rows, in order.
    pub closed spec fn realized(&self) -> Seq<InspectorTreeRealizedRow<K>> {
        self.rows@
    }

    /// Creates a controller bound to one scroll view, with the default
    /// labels and no realized rows.
    pub fn new(scroll_view: ElementId) -> (c: Self)
        ensures
            c.scroll_view_id() == scroll_view,
            c.realized() == Seq::<InspectorTreeRealizedRow<K>>::empty(),
            c.label_pieces().indent_unit@ == "  "@,
            c.label_pieces().expanded_prefix@ == "▾ "@,
            c.label_pieces().collapsed_prefix@ == "▸ "@,
            c.label_pieces().leaf_prefix@ == "  "@,
            c.label_pieces().selected_prefix@ == "● "@,
            c.label_pieces().unselected_prefix@ == ""@,
    {
        InspectorTreeController { scroll_view, labels: InspectorTreeLabels::default(), rows: Vec::new() }
    }

    /// Returns the bound scroll view.
    pub fn scroll_view(&self) -> (id: ElementId)
        ensures
            id == self.scroll_view_id(),
    {
        self.scroll_view
    }

    /// Returns the label pieces.
    pub fn labels(&self) -> (labels: &InspectorTreeLabels)
        ensures
            *labels == self.label_pieces(),
    {
        &self.labels
    }

    /// Replaces the label pieces.
    pub fn set_labels(&mut self, labels: InspectorTreeLabels)
        ensures
            final(self).label_pieces() == labels,
            final(self).realized() == old(self).realized(),
            final(self).scroll_view_id() == old(self).scroll_view_id(),
    {
        self.labels = labels;
    }

    /// Returns the realized rows.
    pub fn realized_rows(&self) -> (rows: &[InspectorTreeRealizedRow<K>])
        ensures
            rows@ == self.realized(),
    {
        self.rows.as_slice()
    }

    /// Number of text blocks the retained UI still has to create so that
    /// every visible row has one.
    pub fn missing_rows(&self, visible_rows: usize) -> (n: usize)
        ensures
            n == (if self.realized().len() < visible_rows {
                visible_rows - self.realized().len()
            } else {
                0
            }),
    {
        if self.rows.len() < visible_rows {
            visible_rows - self.rows.len()
        } else {
            0
        }
    }

    /// Records a text block the retained UI just created, for the first
    /// visible row that has none.
    pub fn push_realized_row(&mut self, visible: &[InspectorVisibleRow<K>], element: ElementId)
        requires
            old(self).realized().len() < visible@.len(),
        ensures
            final(self).realized() == old(self).realized().push(
                InspectorTreeRealizedRow { key: visible@[old(self).realized().len() as int].key, element },
            ),
            final(self).scroll_view_id() == old(self).scroll_view_id(),
            final(self).label_pieces() == old(self).label_pieces(),
    {
        let key = visible[self.rows.len()].key;
        self.rows.push(InspectorTreeRealizedRow { key, element });
    }

    /// Projects the visible rows onto the realized rows. `items[i]` is the
    /// formatted item of `visible[i]`. Each realized row with a visible
    /// counterpart takes its key and shows its label; the rest are emptied
    /// and hidden. Returns the edits to apply, row by row.
    pub fn sync(&mut self, visible: &[InspectorVisibleRow<K>], items: &[String], selected: Option<K>) -> (edits: Vec<UiEdit>)
        requires
            obeys_concrete_eq::<K>(),
            items@.len() == visible@.len(),
            visible@.len() <= old(self).realized().len(),
        ensures
            final(self).scroll_view_id() == old(self).scroll_view_id(),
            final(self).label_pieces() == old(self).label_pieces(),
            final(self).realized().len() == old(self).realized().len(),
            forall|i: int|
                0 <= i < old(self).realized().len() ==> final(self).realized()[i] == synced_inspector_row(
                    old(self).realized()[i],
                    visible@,
                    i,
                ),
            edit_views(edits@) == concat_edits(
                Seq::new(
                    old(self).realized().len(),
                    |i: int|
                        inspector_row_edits(
                            old(self).label_pieces(),
                            old(self).realized(),
                            visible@,
                            items@,
                            selected,
                            i,
                        ),
                ),
            ),
    {
        let ghost old_rows = self.rows@;
        let ghost batches = Seq::new(
            old_rows.len(),
            |i: int| inspector_row_edits(self.labels, old_rows, visible@, items@, selected, i),
        );
        let mut edits: Vec<UiEdit> = Vec::new();
        let mut index: usize = 0;
        while index < self.rows.len()
            invariant
                obeys_concrete_eq::<K>(),
                items@.len() == visible@.len(),
                self.rows@.len() == old_rows.len(),
                self.labels == old(self).labels,
                self.scroll_view == old(self).scroll_view,
                index <= old_rows.len(),
                batches == Seq::new(
                    old_rows.len(),
                    |i: int| inspector_row_edits(self.labels, old_rows, visible@, items@, selected, i),
                ),
                forall|i: int| 0 <= i < index ==> self.rows@[i] == synced_inspector_row(old_rows[i], visible@, i),
                forall|i: int| index <= i < old_rows.len() ==> self.rows@[i] == old_rows[i],
                edit_views(edits@) == concat_edits(batches.take(index as int)),
            decreases old_rows.len() - index,
        {
            let element = self.rows[index].element;
            let ghost before = edit_views(edits@);
            proof {
                assert(batches.take(index + 1).drop_last() =~= batches.take(index as int));
            }
            if index < visible.len() {
                let row = visible[index];
                self.rows.set(index, InspectorTreeRealizedRow { key: row.key, element });
                let is_selected = holds_key(&selected, &row.key);
                let label = inspector_row_label(
                    &self.labels,
                    row.depth,
                    row.has_children,
                    row.is_expanded,
                    is_selected,
                    items[index].as_str(),
                );
                edits.push(UiEdit::SetText(element, label));
                edits.push(UiEdit::SetVisible(element, true));
            } else {
                edits.push(UiEdit::ClearText(element));
                edits.push(UiEdit::SetVisible(element, false));
            }
            proof {
                assert(edit_views(edits@) =~= before + batches[index as int]);
            }
            index = index + 1;
        }
        proof {
            assert(batches.take(index as int) =~= batches);
        }
        edits
    }

    /// Maps a click on `target` to the first realized row with that element
    /// and its visible counterpart: the click carries the row's key and
    /// whether it toggles expansion (rows with children toggle). `None` when
    /// no realized row has the element or the row has no visible counterpart.
    pub fn handle_row_click(&self, target: ElementId, visible: &[InspectorVisibleRow<K>]) -> (click: Option<InspectorTreeClick<K>>)
        ensures
            match row_of_element(self.realized(), target) {
                Some(p) => if p < visible@.len() {
                    click == Some(InspectorTreeClick { key: visible@[p as int].key, toggled: visible@[p as int].has_children })
                } else {
                    click is None
                },
                None => click is None,
            },
    {
        proof {
            lemma_row_of_element(self.rows@, target);
        }
        let mut i: usize = 0;
        while i < self.rows.len()
            invariant
                i <= self.rows@.len(),
                forall|j: int| 0 <= j < i ==> self.rows@[j].element != target,
                row_of_element(self.rows@, target) matches Some(p) ==> p < self.rows@.len() && self.rows@[p as int].element == target
                    && forall|j: int| 0 <= j < p ==> self.rows@[j].element != target,
                row_of_element(self.rows@, target) is None ==> forall|j: int|
                    0 <= j < self.rows@.len() ==> self.rows@[j].element != target,
            decreases self.rows@.len() - i,
        {
            if self.rows[i].element == target {
                if i < visible.len() {
                    let row = visible[i];
                    return Some(InspectorTreeClick { key: row.key, toggled: row.has_children });
                }
                return None;
            }
            i = i + 1;
        }
        None
    }
}

} // verus!
