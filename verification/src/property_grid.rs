//! Property grid surface: structured name/value rows with text, color swatch
//! and badge-chip values.

use vstd::prelude::*;

use crate::color::{alpha_of, blue_of, green_of, red_of, Color};
use crate::edits::{concat_edits, edit_views, EditView, UiEdit};
use crate::ids::ElementId;

verus! {

/// One badge shown inside a property-grid row.
#[derive(Clone, Debug)]
pub struct PropertyBadge {
    /// Badge label.
    pub label: String,
    /// Badge background color.
    pub background: Color,
    /// Badge foreground color.
    pub foreground: Color,
}

impl PropertyBadge {
    /// Creates a new badge.
    pub fn new(label: &str, background: Color, foreground: Color) -> (b: Self)
        ensures
            b.label@ == label@,
            b.background == background,
            b.foreground == foreground,
    {
        PropertyBadge { label: label.to_owned(), background, foreground }
    }

    /// Creates a bright "active" badge using white foreground text.
    pub fn active(label: &str, background: Color) -> (b: Self)
        ensures
            b.label@ == label@,
            b.background == background,
            b.foreground@ == crate::color::pack(255, 255, 255, 255),
    {
        Self::new(label, background, Color::white())
    }
}

/// Value payload for one property row.
#[derive(Clone, Debug)]
pub enum PropertyValue {
    /// Plain text value.
    Text(String),
    /// Color value with a visible swatch.
    Color(Color),
    /// Badge/chip values.
    Badges(Vec<PropertyBadge>),
}

/// One property-grid row.
#[derive(Clone, Debug)]
pub struct PropertyGridRow {
    /// Property name.
    pub name: String,
    /// Property value payload.
    pub value: PropertyValue,
}

impl PropertyGridRow {
    /// Creates a new property row.
    pub fn new(name: &str, value: PropertyValue) -> (r: Self)
        ensures
            r.name@ == name@,
            r.value == value,
    {
        PropertyGridRow { name: name.to_owned(), value }
    }
}

/// Element ids for one realized property-grid row.
#[derive(Copy, Clone, Debug, PartialEq, Eq, Structural)]
pub struct PropertyGridRowIds {
    /// Row container.
    pub row: ElementId,
    /// Name label.
    pub name: ElementId,
    /// Detail row.
    pub detail: ElementId,
    /// Color swatch.
    pub swatch: ElementId,
    /// Plain-text value label.
    pub value: ElementId,
}

/// One realized property-grid row.
#[derive(Clone, Debug)]
pub struct PropertyGridRealizedRow {
    /// Property name.
    pub name: String,
    /// Realized element ids.
    pub ids: PropertyGridRowIds,
    /// Badge chip elements owned by this row.
    pub chips: Vec<ElementId>,
}

/// Lowercase hexadecimal digit of `n` (below 16).
pub open spec fn hex_char(n: int) -> char {
    if n == 0 {
        '0'
    } else if n == 1 {
        '1'
    } else if n == 2 {
        '2'
    } else if n == 3 {
        '3'
    } else if n == 4 {
        '4'
    } else if n == 5 {
        '5'
    } else if n == 6 {
        '6'
    } else if n == 7 {
        '7'
    } else if n == 8 {
        '8'
    } else if n == 9 {
        '9'
    } else if n == 10 {
        'a'
    } else if n == 11 {
        'b'
    } else if n == 12 {
        'c'
    } else if n == 13 {
        'd'
    } else if n == 14 {
        'e'
    } else {
        'f'
    }
}

/// Two lowercase hexadecimal digits of a byte, high nibble first.
pub open spec fn hex_byte(b: u8) -> Seq<char> {
    seq![hex_char(b as int / 16), hex_char(b as int % 16)]
}

/// `#rrggbbaa` in lowercase hexadecimal.
pub open spec fn color_hex(c: Color) -> Seq<char> {
    seq!['#'] + hex_byte(red_of(c@)) + hex_byte(green_of(c@)) + hex_byte(blue_of(c@)) + hex_byte(
        alpha_of(c@),
    )
}

/// The one-character string of hexadecimal digit `n`.
fn hex_digit(n: u8) -> (s: &'static str)
    requires
        n < 16,
    ensures
        s@ == seq![hex_char(n as int)],
{
    proof {
        reveal_strlit("0");
        reveal_strlit("1");
        reveal_strlit("2");
        reveal_strlit("3");
        reveal_strlit("4");
        reveal_strlit("5");
        reveal_strlit("6");
        reveal_strlit("7");
        reveal_strlit("8");
        reveal_strlit("9");
        reveal_strlit("a");
        reveal_strlit("b");
        reveal_strlit("c");
        reveal_strlit("d");
        reveal_strlit("e");
        reveal_strlit("f");
    }
    if n == 0 {
        "0"
    } else if n == 1 {
        "1"
    } else if n == 2 {
        "2"
    } else if n == 3 {
        "3"
    } else if n == 4 {
        "4"
    } else if n == 5 {
        "5"
    } else if n == 6 {
        "6"
    } else if n == 7 {
        "7"
    } else if n == 8 {
        "8"
    } else if n == 9 {
        "9"
    } else if n == 10 {
        "a"
    } else if n == 11 {
        "b"
    } else if n == 12 {
        "c"
    } else if n == 13 {
        "d"
    } else if n == 14 {
        "e"
    } else {
        "f"
    }
}

/// Appends the two hexadecimal digits of `b`.
fn push_hex_byte(s: &mut String, b: u8)
    ensures
        final(s)@ == old(s)@ + hex_byte(b),
{
    s.append(hex_digit(b / 16));
    s.append(hex_digit(b % 16));
    proof {
        assert(final(s)@ =~= old(s)@ + hex_byte(b));
    }
}

/// Formats a color as `#rrggbbaa` in lowercase hexadecimal.
pub fn format_color(color: Color) -> (s: String)
    ensures
        s@ == color_hex(color),
{
    proof {
        reveal_strlit("#");
    }
    let mut s = String::from_str("#");
    push_hex_byte(&mut s, color.r());
    push_hex_byte(&mut s, color.g());
    push_hex_byte(&mut s, color.b());
    push_hex_byte(&mut s, color.a());
    proof {
        assert(s@ =~= color_hex(color));
    }
    s
}

/// Edit that sets a text block's text.
pub fn set_text_block_text(id: ElementId, text: &str) -> (e: UiEdit)
    ensures
        e@ == EditView::SetText(id, text@),
{
    UiEdit::SetText(id, text.to_owned())
}

/// Edits hiding every chip from index `keep` on.
pub open spec fn chip_hiding(chips: Seq<ElementId>, keep: int) -> Seq<EditView> {
    if keep >= chips.len() {
        Seq::empty()
    } else {
        chips.skip(keep).map_values(|c: ElementId| EditView::SetVisible(c, false))
    }
}

/// Edits hiding the badge chips of `realized` beyond the first `keep`.
pub fn hide_extra_chips(realized: &PropertyGridRealizedRow, keep: usize) -> (edits: Vec<UiEdit>)
    ensures
        edit_views(edits@) == chip_hiding(realized.chips@, keep as int),
{
    let mut edits: Vec<UiEdit> = Vec::new();
    let n = realized.chips.len();
    if keep >= n {
        proof {
            assert(edit_views(edits@) =~= Seq::<EditView>::empty());
        }
        return edits;
    }
    let mut i: usize = keep;
    while i < n
        invariant
            n == realized.chips@.len(),
            keep <= i <= n,
            edit_views(edits@) == realized.chips@.subrange(keep as int, i as int).map_values(
                |c: ElementId| EditView::SetVisible(c, false),
            ),
        decreases n - i,
    {
        proof {
            crate::edits::lemma_edit_views_push(edits@, UiEdit::SetVisible(realized.chips@[i as int], false));
        }
        edits.push(UiEdit::SetVisible(realized.chips[i], false));
        proof {
            assert(realized.chips@.subrange(keep as int, i + 1).map_values(
                |c: ElementId| EditView::SetVisible(c, false),
            ) =~= realized.chips@.subrange(keep as int, i as int).map_values(
                |c: ElementId| EditView::SetVisible(c, false),
            ).push(EditView::SetVisible(realized.chips@[i as int], false)));
        }
        i = i + 1;
    }
    proof {
        assert(realized.chips@.subrange(keep as int, n as int) =~= realized.chips@.skip(keep as int));
    }
    edits
}

/// A copy of a list of element ids.
fn copy_ids(v: &Vec<ElementId>) -> (r: Vec<ElementId>)
    ensures
        r@ == v@,
{
    let mut r: Vec<ElementId> = Vec::new();
    let mut i: usize = 0;
    while i < v.len()
        invariant
            i <= v@.len(),
            r@ == v@.take(i as int),
        decreases v@.len() - i,
    {
        r.push(v[i]);
        proof {
            assert(r@ =~= v@.take(i + 1));
        }
        i = i + 1;
    }
    proof {
        assert(r@ =~= v@);
    }
    r
}

/// Edits hiding every chip of a row.
pub open spec fn all_chips_hidden(chips: Seq<ElementId>) -> Seq<EditView> {
    chips.map_values(|c: ElementId| EditView::SetVisible(c, false))
}

/// Edits hiding a realized row no projected row uses.
pub open spec fn hidden_grid_row(realized: PropertyGridRealizedRow) -> Seq<EditView> {
    let ids = realized.ids;
    seq![
        EditView::ClearText(ids.name),
        EditView::ClearText(ids.value),
        EditView::SetVisible(ids.swatch, false),
        EditView::SetVisible(ids.value, false),
    ] + all_chips_hidden(realized.chips@) + seq![EditView::SetVisible(ids.row, false)]
}

/// Edits hiding a realized row: its texts cleared and every element hidden.
pub fn hide_row(realized: &PropertyGridRealizedRow) -> (edits: Vec<UiEdit>)
    ensures
        edit_views(edits@) == hidden_grid_row(*realized),
{
    let ids = realized.ids;
    let mut edits: Vec<UiEdit> = Vec::new();
    edits.push(UiEdit::ClearText(ids.name));
    edits.push(UiEdit::ClearText(ids.value));
    edits.push(UiEdit::SetVisible(ids.swatch, false));
    edits.push(UiEdit::SetVisible(ids.value, false));
    let mut chip_edits = hide_extra_chips(realized, 0);
    proof {
        assert(realized.chips@.skip(0) =~= realized.chips@);
    }
    edits.append(&mut chip_edits);
    edits.push(UiEdit::SetVisible(ids.row, false));
    proof {
        assert(edit_views(edits@) =~= hidden_grid_row(*realized));
    }
    edits
}

/// Edits showing badge `i` of `badges` on chip `chip`.
pub open spec fn badge_edits(chip: ElementId, badge: PropertyBadge) -> Seq<EditView> {
    seq![
        EditView::SetText(chip, badge.label@),
        EditView::FitBadgeWidth(chip, badge.label@),
        EditView::SetBackground(chip, badge.background),
        EditView::SetForeground(chip, badge.foreground),
        EditView::SetVisible(chip, true),
    ]
}

/// Edits for the chips paired with badges, in order.
pub open spec fn paired_badge_edits(chips: Seq<ElementId>, badges: Seq<PropertyBadge>) -> Seq<EditView>
    decreases badges.len(),
{
    if badges.len() == 0 || chips.len() == 0 {
        Seq::empty()
    } else {
        let n = if chips.len() < badges.len() {
            chips.len()
        } else {
            badges.len()
        };
        paired_badge_edits(chips.take(n - 1), badges.take(n - 1)) + badge_edits(
            chips[n - 1],
            badges[n - 1],
        )
    }
}

/// Edits showing a projected row on a realized row.
pub open spec fn shown_grid_row(realized: PropertyGridRealizedRow, row: PropertyGridRow) -> Seq<EditView> {
    let ids = realized.ids;
    let head = seq![EditView::SetText(ids.name, row.name@), EditView::SetVisible(ids.row, true)];
    match row.value {
        PropertyValue::Text(v) => head + seq![
            EditView::SetText(ids.value, v@),
            EditView::SetVisible(ids.swatch, false),
            EditView::SetVisible(ids.value, true),
        ] + chip_hiding(realized.chips@, 0),
        PropertyValue::Color(c) => head + seq![
            EditView::SetText(ids.value, color_hex(c)),
            EditView::SetVisible(ids.swatch, true),
            EditView::SetBackground(ids.swatch, c),
            EditView::SetVisible(ids.value, true),
        ] + chip_hiding(realized.chips@, 0),
        PropertyValue::Badges(badges) => head + seq![
            EditView::SetVisible(ids.swatch, false),
            EditView::SetVisible(ids.value, false),
        ] + paired_badge_edits(realized.chips@, badges@) + chip_hiding(
            realized.chips@,
            badges@.len() as int,
        ),
    }
}

/// Overstory-facing controller for structured property-grid rows.
#[derive(Clone, Debug)]
pub struct PropertyGridController {
    scroll_view: ElementId,
    rows: Vec<PropertyGridRealizedRow>,
}

/// Edits for realized row `i` after a sync.
pub open spec fn grid_row_edits(realized: Seq<PropertyGridRealizedRow>, rows: Seq<PropertyGridRow>, i: int) -> Seq<EditView> {
    if i < rows.len() {
        shown_grid_row(realized[i], rows[i])
    } else {
        hidden_grid_row(realized[i])
    }
}

/// Edits for the badges of a row, chip by chip.
fn badge_chip_edits(chips: &Vec<ElementId>, badges: &Vec<PropertyBadge>) -> (edits: Vec<UiEdit>)
    ensures
        edit_views(edits@) == paired_badge_edits(chips@, badges@),
{
    let n = if chips.len() < badges.len() {
        chips.len()
    } else {
        badges.len()
    };
    let mut edits: Vec<UiEdit> = Vec::new();
    let mut i: usize = 0;
    while i < n
        invariant
            i <= n,
            n <= chips@.len(),
            n <= badges@.len(),
            n == chips@.len() || n == badges@.len(),
            edit_views(edits@) == paired_badge_edits(chips@.take(i as int), badges@.take(i as int)),
        decreases n - i,
    {
        let chip = chips[i];
        let badge = &badges[i];
        let ghost before = edit_views(edits@);
        edits.push(UiEdit::SetText(chip, badge.label.clone()));
        edits.push(UiEdit::FitBadgeWidth(chip, badge.label.clone()));
        edits.push(UiEdit::SetBackground(chip, badge.background));
        edits.push(UiEdit::SetForeground(chip, badge.foreground));
        edits.push(UiEdit::SetVisible(chip, true));
        proof {
            let ct = chips@.take(i + 1);
            let bt = badges@.take(i + 1);
            assert(ct.take(i as int) =~= chips@.take(i as int));
            assert(bt.take(i as int) =~= badges@.take(i as int));
            assert(edit_views(edits@) =~= before + badge_edits(chip, *badge));
        }
        i = i + 1;
    }
    proof {
        if n == chips@.len() && n == badges@.len() {
            assert(chips@.take(n as int) =~= chips@);
            assert(badges@.take(n as int) =~= badges@);
        }
        lemma_paired_prefix(chips@, badges@, n as int);
    }
    edits
}

/// Pairing chips with badges only ever reaches the shorter of the two.
proof fn lemma_paired_prefix(chips: Seq<ElementId>, badges: Seq<PropertyBadge>, n: int)
    requires
        n == (if chips.len() < badges.len() {
            chips.len()
        } else {
            badges.len()
        }),
    ensures
        paired_badge_edits(chips.take(n), badges.take(n)) == paired_badge_edits(chips, badges),
{
    if n > 0 {
        assert(chips.take(n).take(n - 1) =~= chips.take(n - 1));
        assert(badges.take(n).take(n - 1) =~= badges.take(n - 1));
    } else {
        assert(paired_badge_edits(chips.take(n), badges.take(n)) =~= Seq::<EditView>::empty());
    }
}

impl PropertyGridController {
    /// The realized rows.
    pub closed spec fn realized(&self) -> Seq<PropertyGridRealizedRow> {
        self.rows@
    }

    /// The scroll view the rows live in.
    pub closed spec fn scroll_view_id(&self) -> ElementId {
        self.scroll_view
    }

    /// Creates a controller bound to one `ScrollView`.
    pub fn new(scroll_view: ElementId) -> (c: Self)
        ensures
            c.scroll_view_id() == scroll_view,
            c.realized() == Seq::<PropertyGridRealizedRow>::empty(),
    {
        PropertyGridController { scroll_view, rows: Vec::new() }
    }

    /// Returns the bound scroll view.
    pub fn scroll_view(&self) -> (id: ElementId)
        ensures
            id == self.scroll_view_id(),
    {
        self.scroll_view
    }

    /// Returns the currently realized rows.
    pub fn realized_rows(&self) -> (rows: &[PropertyGridRealizedRow])
        ensures
            rows@ == self.realized(),
    {
        self.rows.as_slice()
    }

    /// Number of rows the retained UI still has to realize, through
    /// `push_realized_row`, before a sync of `projected` rows can show them
    /// all: a sync only shows rows that are realized.
    pub fn missing_rows(&self, projected: usize) -> (n: usize)
        ensures
            n == (if self.realized().len() < projected {
                projected - self.realized().len()
            } else {
                0
            }),
    {
        if self.rows.len() < projected {
            projected - self.rows.len()
        } else {
            0
        }
    }

    /// Records a row whose elements the retained UI just created.
    pub fn push_realized_row(&mut self, ids: PropertyGridRowIds)
        ensures
            final(self).realized().len() == old(self).realized().len() + 1,
            forall|i: int|
                0 <= i < old(self).realized().len() ==> final(self).realized()[i] == old(self).realized()[i],
            final(self).realized().last().ids == ids,
            final(self).realized().last().name@ == Seq::<char>::empty(),
            final(self).realized().last().chips@ == Seq::<ElementId>::empty(),
            final(self).scroll_view_id() == old(self).scroll_view_id(),
    {
        self.rows.push(PropertyGridRealizedRow { name: String::new(), ids, chips: Vec::new() });
    }

    /// Records a badge chip the retained UI just created inside row `row`.
    pub fn push_chip(&mut self, row: usize, chip: ElementId)
        requires
            row < old(self).realized().len(),
        ensures
            final(self).realized().len() == old(self).realized().len(),
            forall|i: int|
                0 <= i < old(self).realized().len() && i != row ==> final(self).realized()[i] == old(self).realized()[i],
            final(self).realized()[row as int].name == old(self).realized()[row as int].name,
            final(self).realized()[row as int].ids == old(self).realized()[row as int].ids,
            final(self).realized()[row as int].chips@ == old(self).realized()[row as int].chips@.push(chip),
            final(self).scroll_view_id() == old(self).scroll_view_id(),
    {
        let current = &self.rows[row];
        let mut chips = copy_ids(&current.chips);
        chips.push(chip);
        let r = PropertyGridRealizedRow { name: current.name.clone(), ids: current.ids, chips };
        self.rows.set(row, r);
    }

    /// Syncs structured rows onto the realized rows and returns the edits to
    /// apply, row by row.
    ///
    /// Each realized row with a projected counterpart takes its name and shows
    /// its value: text, a color swatch with the color's hex code, or one chip
    /// per badge. Chips beyond what a row needs, and rows beyond the projected
    /// ones, are hidden.
    ///
    /// Every projected row must already be realized: the retained UI first
    /// realizes the `missing_rows` for the projection through
    /// `push_realized_row`, then syncs.
    pub fn sync(&mut self, rows: &[PropertyGridRow]) -> (edits: Vec<UiEdit>)
        requires
            rows@.len() <= old(self).realized().len(),
        ensures
            final(self).scroll_view_id() == old(self).scroll_view_id(),
            final(self).realized().len() == old(self).realized().len(),
            forall|i: int|
                0 <= i < old(self).realized().len() ==> final(self).realized()[i].ids == old(self).realized()[i].ids && final(self).realized()[i].chips@ == old(self).realized()[i].chips@,
            forall|i: int|
                0 <= i < old(self).realized().len() && i < rows@.len() ==> final(self).realized()[i].name@ == rows@[i].name@,
            forall|i: int|
                0 <= i < old(self).realized().len() && i >= rows@.len() ==> final(self).realized()[i].name == old(self).realized()[i].name,
            edit_views(edits@) == concat_edits(
                Seq::new(
                    old(self).realized().len(),
                    |i: int| grid_row_edits(old(self).realized(), rows@, i),
                ),
            ),
    {
        let ghost old_rows = self.rows@;
        let ghost batches = Seq::new(old_rows.len(), |i: int| grid_row_edits(old_rows, rows@, i));
        let mut edits: Vec<UiEdit> = Vec::new();
        let mut index: usize = 0;
        while index < self.rows.len()
            invariant
                self.rows@.len() == old_rows.len(),
                self.scroll_view == old(self).scroll_view,
                index <= old_rows.len(),
                batches == Seq::new(old_rows.len(), |i: int| grid_row_edits(old_rows, rows@, i)),
                forall|i: int|
                    0 <= i < old_rows.len() ==> self.rows@[i].ids == old_rows[i].ids
                        && self.rows@[i].chips@ == old_rows[i].chips@,
                forall|i: int| 0 <= i < index && i < rows@.len() ==> self.rows@[i].name@ == rows@[i].name@,
                forall|i: int|
                    0 <= i < old_rows.len() && (i >= index || i >= rows@.len()) ==> self.rows@[i].name
                        == old_rows[i].name,
                edit_views(edits@) == concat_edits(batches.take(index as int)),
            decreases old_rows.len() - index,
        {
            proof {
                assert(batches.take(index + 1).drop_last() =~= batches.take(index as int));
            }
            let ghost before = edit_views(edits@);
            if index < rows.len() {
                let row = &rows[index];
                let current = &self.rows[index];
                let realized = PropertyGridRealizedRow {
                    name: row.name.clone(),
                    ids: current.ids,
                    chips: copy_ids(&current.chips),
                };
                let ids = realized.ids;
                edits.push(set_text_block_text(ids.name, row.name.as_str()));
                edits.push(UiEdit::SetVisible(ids.row, true));
                match &row.value {
                    PropertyValue::Text(v) => {
                        edits.push(UiEdit::SetText(ids.value, v.clone()));
                        edits.push(UiEdit::SetVisible(ids.swatch, false));
                        edits.push(UiEdit::SetVisible(ids.value, true));
                        let mut hidden = hide_extra_chips(&realized, 0);
                        edits.append(&mut hidden);
                    },
                    PropertyValue::Color(c) => {
                        edits.push(UiEdit::SetText(ids.value, format_color(*c)));
                        edits.push(UiEdit::SetVisible(ids.swatch, true));
                        edits.push(UiEdit::SetBackground(ids.swatch, *c));
                        edits.push(UiEdit::SetVisible(ids.value, true));
                        let mut hidden = hide_extra_chips(&realized, 0);
                        edits.append(&mut hidden);
                    },
                    PropertyValue::Badges(badges) => {
                        edits.push(UiEdit::SetVisible(ids.swatch, false));
                        edits.push(UiEdit::SetVisible(ids.value, false));
                        let mut shown = badge_chip_edits(&realized.chips, badges);
                        edits.append(&mut shown);
                        let mut hidden = hide_extra_chips(&realized, badges.len());
                        edits.append(&mut hidden);
                    },
                }
                self.rows.set(index, realized);
                proof {
                    assert(edit_views(edits@) =~= before + shown_grid_row(old_rows[index as int], rows@[index as int]));
                }
            } else {
                let mut hidden = hide_row(&self.rows[index]);
                edits.append(&mut hidden);
                proof {
                    assert(edit_views(edits@) =~= before + hidden_grid_row(old_rows[index as int]));
                }
            }
            index = index + 1;
        }
        proof {
            assert(batches.take(index as int) =~= batches);
        }
        edits
    }
}

} // verus!
