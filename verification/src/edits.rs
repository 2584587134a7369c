//! Property edits that surface controllers hand to the retained UI.

use vstd::prelude::*;

use crate::color::Color;
use crate::ids::ElementId;

verus! {

/// One change to apply to a retained element.
#[derive(Clone, Debug)]
pub enum UiEdit {
    /// Show or hide the element.
    SetVisible(ElementId, bool),
    /// Set the element's background color.
    SetBackground(ElementId, Color),
    /// Set the element's foreground color.
    SetForeground(ElementId, Color),
    /// Replace the text of a text block.
    SetText(ElementId, String),
    /// Empty the text of a text block.
    ClearText(ElementId),
    /// Set an indent spacer's width to `depth` indentation steps.
    SetIndentDepth(ElementId, usize),
    /// Set a badge chip's width to fit its label.
    FitBadgeWidth(ElementId, String),
    /// Show a tree row's disclosure glyph.
    SetDisclosure(ElementId, Disclosure),
}

/// Disclosure glyph of a tree row.
#[derive(Copy, Clone, Debug, PartialEq, Eq, Structural)]
pub enum Disclosure {
    /// An expanded parent.
    Expanded,
    /// A collapsed parent.
    Collapsed,
    /// A leaf: no glyph.
    Leaf,
}

/// Row backgrounds of a list or tree surface.
#[derive(Copy, Clone, Debug, PartialEq, Eq, Structural)]
pub struct RowColors {
    /// Background for unselected rows.
    pub background: Color,
    /// Background for selected rows.
    pub selected_background: Color,
    /// Background for focused rows.
    pub focused_background: Color,
}

/// What an edit does, with texts as character sequences.
pub enum EditView {
    /// Show or hide the element.
    SetVisible(ElementId, bool),
    /// Set the element's background color.
    SetBackground(ElementId, Color),
    /// Set the element's foreground color.
    SetForeground(ElementId, Color),
    /// Replace the text of a text block.
    SetText(ElementId, Seq<char>),
    /// Empty the text of a text block.
    ClearText(ElementId),
    /// Set an indent spacer's width to `depth` indentation steps.
    SetIndentDepth(ElementId, usize),
    /// Set a badge chip's width to fit its label.
    FitBadgeWidth(ElementId, Seq<char>),
    /// Show a tree row's disclosure glyph.
    SetDisclosure(ElementId, Disclosure),
}

impl View for UiEdit {
    type V = EditView;

    open spec fn view(&self) -> EditView {
        match self {
            UiEdit::SetVisible(id, v) => EditView::SetVisible(*id, *v),
            UiEdit::SetBackground(id, c) => EditView::SetBackground(*id, *c),
            UiEdit::SetForeground(id, c) => EditView::SetForeground(*id, *c),
            UiEdit::SetText(id, t) => EditView::SetText(*id, t@),
            UiEdit::ClearText(id) => EditView::ClearText(*id),
            UiEdit::SetIndentDepth(id, d) => EditView::SetIndentDepth(*id, *d),
            UiEdit::FitBadgeWidth(id, t) => EditView::FitBadgeWidth(*id, t@),
            UiEdit::SetDisclosure(id, d) => EditView::SetDisclosure(*id, *d),
        }
    }
}

/// The views of a sequence of edits.
pub open spec fn edit_views(edits: Seq<UiEdit>) -> Seq<EditView> {
    edits.map_values(|e: UiEdit| e@)
}

/// Concatenation of a sequence of edit batches, in order.
pub open spec fn concat_edits(batches: Seq<Seq<EditView>>) -> Seq<EditView>
    decreases batches.len(),
{
    if batches.len() == 0 {
        Seq::empty()
    } else {
        concat_edits(batches.drop_last()) + batches.last()
    }
}

/// Appending an edit appends its view.
pub proof fn lemma_edit_views_push(edits: Seq<UiEdit>, e: UiEdit)
    ensures
        edit_views(edits.push(e)) == edit_views(edits).push(e@),
{
    assert(edit_views(edits.push(e)) =~= edit_views(edits).push(e@));
}

} // verus!
