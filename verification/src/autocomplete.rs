//! Type-ahead autocomplete: debounced query refresh, option list navigation
//! and acceptance.
//!
//! The controller owns the option list and the debounce state. Everything the
//! retained UI must do in response (row edits, opening or closing the popup,
//! writing the accepted text into the input) comes back as
//! [`AutocompleteEffects`].

use vstd::prelude::*;
use vstd::laws_eq::obeys_concrete_eq;

use crate::edits::{concat_edits, edit_views, EditView, RowColors, UiEdit};
use crate::ids::ElementId;
use crate::keys::{same_key, KeyboardInput, NavKey};
use crate::list::{
    focused_index_of, hidden_row_edits, list_row_edits, next_focus, prev_focus, synced_focus, synced_selection, ListKeyboardAction,
    ListRowAction, ListRowIds, ListRowPresentation, ListViewController,
};
use crate::runtime::Interaction;

verus! {

/// Stable element ids for one mounted autocomplete field.
#[derive(Copy, Clone, Debug, PartialEq, Eq, Structural)]
pub struct AutocompleteIds {
    /// Text input element.
    pub input: ElementId,
    /// Promoted dropdown surface root.
    pub dropdown: ElementId,
    /// Scroll view inside the dropdown.
    pub scroll_view: ElementId,
}

/// One visible autocomplete option.
#[derive(Clone, Debug)]
pub struct AutocompleteOption<K> {
    /// Stable option key.
    pub key: K,
    /// Visible option label.
    pub label: String,
    /// Text committed into the input on acceptance.
    pub commit_text: String,
}

impl<K> AutocompleteOption<K> {
    /// Creates one autocomplete option whose committed text matches its label.
    pub fn new(key: K, label: &str) -> (o: Self)
        ensures
            o.key == key,
            o.label@ == label@,
            o.commit_text@ == label@,
    {
        AutocompleteOption { key, label: label.to_owned(), commit_text: label.to_owned() }
    }

    /// Replaces the committed input text.
    pub fn commit_text(self, commit_text: &str) -> (o: Self)
        ensures
            o.key == self.key,
            o.label == self.label,
            o.commit_text@ == commit_text@,
    {
        AutocompleteOption { key: self.key, label: self.label, commit_text: commit_text.to_owned() }
    }
}

/// High-level action emitted by the autocomplete controller.
#[derive(Clone, Debug)]
pub enum AutocompleteAction<K> {
    /// The debounced query is ready for refresh.
    RefreshQuery(String),
    /// One option was accepted.
    Accepted(K),
    /// The popup was dismissed without acceptance.
    Dismissed,
}

/// Result of routing one keyboard event through autocomplete first.
#[derive(Clone, Debug)]
pub struct AutocompleteOutcome<K> {
    /// Whether the controller consumed the keyboard event.
    pub consumed: bool,
    /// Optional higher-level action produced by that handling.
    pub action: Option<AutocompleteAction<K>>,
}

/// What the retained UI must do after the controller changed state.
#[derive(Clone, Debug)]
pub struct AutocompleteEffects {
    /// Edits for the option rows, when the popup was re-synced.
    pub row_edits: Option<Vec<UiEdit>>,
    /// Whether the popup is open after the re-sync (the host positions it
    /// under the input when open).
    pub open: bool,
    /// Text to write into the input before focusing it, when an option was
    /// accepted.
    pub input_text: Option<String>,
    /// Whether the focused row should be scrolled into view.
    pub scroll_focused_into_view: bool,
}

/// Reusable autocomplete field controller.
#[derive(Clone, Debug)]
pub struct AutocompleteController<K> {
    ids: AutocompleteIds,
    debounce_nanos: u64,
    row_colors: RowColors,
    list: ListViewController<K>,
    options: Vec<AutocompleteOption<K>>,
    last_query: String,
    pending_due_at: Option<u64>,
}

/// The list rows that show `options`.
pub open spec fn option_rows<K>(options: Seq<AutocompleteOption<K>>) -> Seq<ListRowPresentation<K>> {
    options.map_values(|o: AutocompleteOption<K>| ListRowPresentation { key: o.key, label: o.label })
}

/// Position of the first option carrying `k`.
pub open spec fn option_position<K>(options: Seq<AutocompleteOption<K>>, k: K) -> Option<nat>
    decreases options.len(),
{
    if options.len() == 0 {
        None
    } else if options[0].key == k {
        Some(0nat)
    } else {
        match option_position(options.drop_first(), k) {
            Some(p) => Some(p + 1),
            None => None,
        }
    }
}

/// `option_position` finds the first option carrying the key.
pub proof fn lemma_option_position<K>(options: Seq<AutocompleteOption<K>>, k: K)
    ensures
        option_position(options, k) matches Some(p) ==> p < options.len() && options[p as int].key
            == k && forall|j: int| 0 <= j < p ==> options[j].key != k,
        option_position(options, k) is None ==> forall|j: int|
            0 <= j < options.len() ==> options[j].key != k,
    decreases options.len(),
{
    if options.len() > 0 && options[0].key != k {
        lemma_option_position(options.drop_first(), k);
        assert forall|j: int| 1 <= j < options.len() implies options[j] == options.drop_first()[j
            - 1] by {}
    }
}

/// Edits that empty and hide every realized option row, row by row.
pub open spec fn all_rows_hidden<K>(realized: Seq<crate::list::ListViewRealizedRow<K>>) -> Seq<EditView> {
    concat_edits(Seq::new(realized.len(), |i: int| hidden_row_edits(realized[i].ids)))
}

/// The effects close the popup: every realized option row is emptied and
/// hidden, and the input text is left alone.
pub open spec fn closes_popup<K>(effects: Option<AutocompleteEffects>, realized: Seq<crate::list::ListViewRealizedRow<K>>) -> bool {
    match effects {
        Some(e) => {
            &&& !e.open
            &&& (e.row_edits matches Some(r) && edit_views(r@) == all_rows_hidden(realized))
            &&& e.input_text is None
            &&& !e.scroll_focused_into_view
        },
        None => false,
    }
}

/// The action asks to refresh options for `query`.
pub open spec fn refreshes<K>(action: Option<AutocompleteAction<K>>, query: Seq<char>) -> bool {
    match action {
        Some(AutocompleteAction::RefreshQuery(q)) => q@ == query,
        _ => false,
    }
}

/// The result accepts the option keyed `k`, writes `text` into the input and
/// closes the popup.
pub open spec fn accepts<K>(
    r: Option<(AutocompleteAction<K>, AutocompleteEffects)>,
    k: K,
    text: Seq<char>,
    realized: Seq<crate::list::ListViewRealizedRow<K>>,
) -> bool {
    match r {
        Some((AutocompleteAction::Accepted(a), e)) => {
            &&& a == k
            &&& !e.open
            &&& (e.row_edits matches Some(x) && edit_views(x@) == all_rows_hidden(realized))
            &&& (e.input_text matches Some(t) && t@ == text)
            &&& !e.scroll_focused_into_view
        },
        _ => false,
    }
}

/// The interaction neither hits an option row nor moves the pointer or focus
/// away from the input.
pub open spec fn leaves_popup_alone<K>(
    input: ElementId,
    rows: Seq<crate::list::ListViewRealizedRow<K>>,
    it: Interaction,
) -> bool {
    match it {
        Interaction::Clicked(t) => t == input && crate::list::clicked_row(rows, t) is None,
        Interaction::FocusChanged(t) => t == input,
        _ => true,
    }
}

/// Position of the first interaction that does not leave the popup alone.
pub open spec fn first_acting<K>(
    input: ElementId,
    rows: Seq<crate::list::ListViewRealizedRow<K>>,
    its: Seq<Interaction>,
) -> Option<nat>
    decreases its.len(),
{
    if its.len() == 0 {
        None
    } else if !leaves_popup_alone(input, rows, its[0]) {
        Some(0)
    } else {
        match first_acting(input, rows, its.drop_first()) {
            Some(p) => Some(p + 1),
            None => None,
        }
    }
}

/// `first_acting` finds the first interaction that acts on the popup.
pub proof fn lemma_first_acting<K>(
    input: ElementId,
    rows: Seq<crate::list::ListViewRealizedRow<K>>,
    its: Seq<Interaction>,
)
    ensures
        first_acting(input, rows, its) matches Some(p) ==> p < its.len() && !leaves_popup_alone(
            input,
            rows,
            its[p as int],
        ) && forall|j: int| 0 <= j < p ==> #[trigger] leaves_popup_alone(input, rows, its[j]),
        first_acting(input, rows, its) is None ==> forall|j: int|
            0 <= j < its.len() ==> #[trigger] leaves_popup_alone(input, rows, its[j]),
    decreases its.len(),
{
    if its.len() > 0 && leaves_popup_alone(input, rows, its[0]) {
        lemma_first_acting(input, rows, its.drop_first());
        assert forall|j: int| 1 <= j < its.len() implies its[j] == its.drop_first()[j - 1] by {}
    }
}

/// A click that lands neither on the input nor on an option row acts on the
/// popup: as the first interaction, it is the one that decides.
pub proof fn lemma_outside_click_acts<K>(
    input: ElementId,
    rows: Seq<crate::list::ListViewRealizedRow<K>>,
    its: Seq<Interaction>,
    t: ElementId,
)
    requires
        its.len() > 0,
        its[0] == Interaction::Clicked(t),
        t != input,
        crate::list::clicked_row(rows, t) is None,
    ensures
        first_acting(input, rows, its) == Some(0nat),
{
}

/// The result dismisses the popup.
pub open spec fn dismisses<K>(
    r: Option<(AutocompleteAction<K>, AutocompleteEffects)>,
    realized: Seq<crate::list::ListViewRealizedRow<K>>,
) -> bool {
    match r {
        Some((AutocompleteAction::Dismissed, e)) => closes_popup(Some(e), realized),
        _ => false,
    }
}

/// Two controllers in the same observable state.
pub open spec fn unchanged_from<K: Copy + PartialEq>(a: AutocompleteController<K>, b: AutocompleteController<K>) -> bool {
    &&& a.view_ids() == b.view_ids()
    &&& a.debounce() == b.debounce()
    &&& a.colors() == b.colors()
    &&& a.view_options() == b.view_options()
    &&& a.query() == b.query()
    &&& a.due_at() == b.due_at()
    &&& a.option_list().realized() == b.option_list().realized()
    &&& a.option_list().shown_count() == b.option_list().shown_count()
    &&& a.option_list().focused() == b.option_list().focused()
    &&& a.option_list().selected() == b.option_list().selected()
    &&& a.option_list().scroll_view_id() == b.option_list().scroll_view_id()
}

/// The navigation action a key press maps to on the option list: arrows
/// move focus to the neighbouring row, Home and End to the first and last
/// row, Enter and Space activate the focused option; nothing when no row can
/// take focus or the key is not a navigation key.
pub open spec fn nav_action<K>(
    rows: Seq<crate::list::ListViewRealizedRow<K>>,
    focused: Option<K>,
    key: NavKey,
) -> Option<ListKeyboardAction<K>> {
    if focused_index_of(rows, focused) is None {
        None
    } else {
        match key {
            NavKey::ArrowUp => match prev_focus(rows, focused) {
                Some(k) => Some(ListKeyboardAction::Focus(k)),
                None => None,
            },
            NavKey::ArrowDown => match next_focus(rows, focused) {
                Some(k) => Some(ListKeyboardAction::Focus(k)),
                None => None,
            },
            NavKey::Home => Some(ListKeyboardAction::Focus(rows[0].key)),
            NavKey::End => Some(ListKeyboardAction::Focus(rows.last().key)),
            NavKey::Enter | NavKey::Space => match focused {
                Some(k) => Some(ListKeyboardAction::Activate(k)),
                None => None,
            },
            _ => None,
        }
    }
}

/// An outcome and its effects, paired when both are present.
pub open spec fn paired<K>(action: Option<AutocompleteAction<K>>, effects: Option<AutocompleteEffects>) -> Option<(AutocompleteAction<K>, AutocompleteEffects)> {
    match (action, effects) {
        (Some(a), Some(e)) => Some((a, e)),
        _ => None,
    }
}

/// The row edits of re-syncing `before` onto `options`: row by row, each
/// realized row shows its option or is hidden, with the reconciled focus and
/// selection.
pub open spec fn option_row_edits<K: Copy + PartialEq>(
    before: ListViewController<K>,
    after: ListViewController<K>,
    options: Seq<AutocompleteOption<K>>,
    colors: RowColors,
) -> Seq<EditView> {
    concat_edits(
        Seq::new(
            before.realized().len(),
            |i: int| list_row_edits(before.realized(), option_rows(options), after.selected(), after.focused(), colors, i),
        ),
    )
}

/// `after` is `before` re-synced onto `rows`: focus and selection reconciled,
/// and nothing else about the list changed but the realized rows.
pub open spec fn list_resynced<K: Copy + PartialEq>(
    before: ListViewController<K>,
    after: ListViewController<K>,
    rows: Seq<ListRowPresentation<K>>,
) -> bool {
    &&& after.focused() == synced_focus(rows, before.focused())
    &&& after.selected() == synced_selection(rows, before.selected())
    &&& after.realized().len() == before.realized().len()
    &&& forall|i: int|
        0 <= i < before.realized().len() ==> #[trigger] after.realized()[i] == crate::list::synced_realized(
            before.realized()[i],
            rows,
            after.focused(),
            i,
        )
    &&& after.shown_count() == (if rows.len() <= before.realized().len() {
        rows.len()
    } else {
        before.realized().len()
    })
    &&& after.scroll_view_id() == before.scroll_view_id()
}

impl<K: Copy + PartialEq> AutocompleteController<K> {
    /// Element ids of the field.
    pub closed spec fn view_ids(&self) -> AutocompleteIds {
        self.ids
    }

    /// Debounce interval in nanoseconds.
    pub closed spec fn debounce(&self) -> u64 {
        self.debounce_nanos
    }

    /// The visible options.
    pub closed spec fn view_options(&self) -> Seq<AutocompleteOption<K>> {
        self.options@
    }

    /// The query last read from the input.
    pub closed spec fn query(&self) -> Seq<char> {
        self.last_query@
    }

    /// When the debounced query becomes due.
    pub closed spec fn due_at(&self) -> Option<u64> {
        self.pending_due_at
    }

    /// The option list controller.
    pub closed spec fn option_list(&self) -> ListViewController<K> {
        self.list
    }

    /// Row backgrounds used for the options.
    pub closed spec fn colors(&self) -> RowColors {
        self.row_colors
    }

    /// Creates a controller for a field whose input, dropdown and scroll view
    /// the retained UI already created.
    pub fn new(ids: AutocompleteIds, debounce_nanos: u64, row_colors: RowColors) -> (c: Self)
        ensures
            c.view_ids() == ids,
            c.debounce() == debounce_nanos,
            c.colors() == row_colors,
            c.view_options().len() == 0,
            c.query().len() == 0,
            c.due_at() is None,
            c.option_list().realized().len() == 0,
            c.option_list().focused() is None,
            c.option_list().selected() is None,
            c.option_list().scroll_view_id() == ids.scroll_view,
    {
        AutocompleteController {
            ids,
            debounce_nanos,
            row_colors,
            list: ListViewController::new(ids.scroll_view),
            options: Vec::new(),
            last_query: String::new(),
            pending_due_at: None,
        }
    }

    /// Returns the realized element ids for this field.
    pub fn ids(&self) -> (ids: AutocompleteIds)
        ensures
            ids == self.view_ids(),
    {
        self.ids
    }

    /// Returns the debounce interval in nanoseconds.
    pub fn debounce_nanos(&self) -> (d: u64)
        ensures
            d == self.debounce(),
    {
        self.debounce_nanos
    }

    /// Returns the next debounce deadline in host monotonic nanoseconds.
    pub fn next_deadline(&self) -> (d: Option<u64>)
        ensures
            d == self.due_at(),
    {
        self.pending_due_at
    }

    /// Returns whether the dropdown is currently open.
    pub fn is_open(&self) -> (b: bool)
        ensures
            b == (self.view_options().len() > 0),
    {
        self.options.len() > 0
    }

    /// Returns the currently focused option key, if any.
    pub fn focused_key(&self) -> (k: Option<&K>)
        ensures
            k matches Some(x) ==> self.option_list().focused() == Some(*x),
            k is None ==> self.option_list().focused() is None,
    {
        self.list.focused_key()
    }

    /// Returns the number of visible options.
    pub fn option_count(&self) -> (n: usize)
        ensures
            n == self.view_options().len(),
    {
        self.options.len()
    }

    /// Returns the option rows realized so far.
    pub fn realized_rows(&self) -> (rows: &[crate::list::ListViewRealizedRow<K>])
        ensures
            rows@ == self.option_list().realized(),
    {
        self.list.realized_rows()
    }

    /// Number of option rows the retained UI still has to create.
    pub fn missing_rows(&self) -> (n: usize)
        ensures
            n == (if self.option_list().realized().len() < self.view_options().len() {
                self.view_options().len() - self.option_list().realized().len()
            } else {
                0
            }),
    {
        let realized = self.list.realized_rows().len();
        if realized < self.options.len() {
            self.options.len() - realized
        } else {
            0
        }
    }

    /// Records an option row the retained UI just created, for the next
    /// option that has none.
    pub fn push_option_row(&mut self, ids: ListRowIds)
        requires
            old(self).option_list().realized().len() < old(self).view_options().len(),
        ensures
            final(self).option_list().realized() == old(self).option_list().realized().push(
                crate::list::ListViewRealizedRow {
                    key: old(self).view_options()[old(self).option_list().realized().len() as int].key,
                    focused: false,
                    ids,
                },
            ),
            final(self).option_list().focused() == old(self).option_list().focused(),
            final(self).option_list().selected() == old(self).option_list().selected(),
            final(self).option_list().shown_count() == old(self).option_list().shown_count(),
            final(self).option_list().scroll_view_id() == old(self).option_list().scroll_view_id(),
            final(self).view_options() == old(self).view_options(),
            final(self).query() == old(self).query(),
            final(self).due_at() == old(self).due_at(),
            final(self).view_ids() == old(self).view_ids(),
            final(self).debounce() == old(self).debounce(),
            final(self).colors() == old(self).colors(),
    {
        let n = self.list.realized_rows().len();
        let key = self.options[n].key;
        self.list.push_realized_row(key, ids);
    }

    /// Re-syncs the option rows onto the list and reports whether the popup
    /// is open. Every option must already have its row realized (see
    /// `missing_rows` and `push_option_row`).
    pub fn sync_view(&mut self) -> (effects: AutocompleteEffects)
        requires
            obeys_concrete_eq::<K>(),
            old(self).view_options().len() <= old(self).option_list().realized().len(),
        ensures
            list_resynced(old(self).option_list(), final(self).option_list(), option_rows(old(self).view_options())),
            effects.row_edits matches Some(e) && edit_views(e@) == option_row_edits(
                old(self).option_list(),
                final(self).option_list(),
                old(self).view_options(),
                old(self).colors(),
            ),
            effects.open == (old(self).view_options().len() > 0),
            effects.input_text is None,
            !effects.scroll_focused_into_view,
            final(self).view_options() == old(self).view_options(),
            final(self).query() == old(self).query(),
            final(self).due_at() == old(self).due_at(),
            final(self).view_ids() == old(self).view_ids(),
            final(self).debounce() == old(self).debounce(),
            final(self).colors() == old(self).colors(),
    {
        let mut rows: Vec<ListRowPresentation<K>> = Vec::new();
        let mut i: usize = 0;
        while i < self.options.len()
            invariant
                i <= self.options@.len(),
                rows@ == option_rows(self.options@.take(i as int)),
            decreases self.options@.len() - i,
        {
            let option = &self.options[i];
            rows.push(ListRowPresentation { key: option.key, label: option.label.clone() });
            proof {
                assert(rows@ =~= option_rows(self.options@.take(i + 1)));
            }
            i = i + 1;
        }
        proof {
            assert(self.options@.take(i as int) =~= self.options@);
        }
        let edits = self.list.sync(rows.as_slice(), self.row_colors);
        AutocompleteEffects {
            row_edits: Some(edits),
            open: rows.len() > 0,
            input_text: None,
            scroll_focused_into_view: false,
        }
    }

    /// Dismisses the popup and clears any visible options.
    pub fn dismiss(&mut self) -> (effects: AutocompleteEffects)
        requires
            obeys_concrete_eq::<K>(),
        ensures
            final(self).view_options().len() == 0,
            final(self).option_list().focused() is None,
            final(self).option_list().selected() is None,
            final(self).option_list().realized().len() == old(self).option_list().realized().len(),
            final(self).option_list().scroll_view_id() == old(self).option_list().scroll_view_id(),
            closes_popup(Some(effects), old(self).option_list().realized()),
            final(self).query() == old(self).query(),
            final(self).due_at() == old(self).due_at(),
            final(self).view_ids() == old(self).view_ids(),
            final(self).debounce() == old(self).debounce(),
            final(self).colors() == old(self).colors(),
    {
        self.options = Vec::new();
        self.list.set_focused_key(None);
        self.list.set_selected_key(None);
        let ghost mid = self.list;
        let effects = self.sync_view();
        proof {
            let rows = option_rows(Seq::<AutocompleteOption<K>>::empty());
            assert(rows.len() == 0);
            assert(Seq::new(
                mid.realized().len(),
                |i: int| list_row_edits(mid.realized(), rows, self.list.selected(), self.list.focused(), self.row_colors, i),
            ) =~= Seq::new(
                old(self).option_list().realized().len(),
                |i: int| hidden_row_edits(old(self).option_list().realized()[i].ids),
            ));
            assert(edit_views(effects.row_edits->0@) == all_rows_hidden(old(self).option_list().realized()));
        }
        effects
    }

    /// Replaces the visible options. The retained UI then creates the rows
    /// that are missing and calls [`AutocompleteController::sync_view`].
    pub fn set_options(&mut self, options: &[AutocompleteOption<K>])
        ensures
            final(self).view_options() == options@,
            final(self).option_list() == old(self).option_list(),
            final(self).query() == old(self).query(),
            final(self).due_at() == old(self).due_at(),
            final(self).view_ids() == old(self).view_ids(),
            final(self).debounce() == old(self).debounce(),
            final(self).colors() == old(self).colors(),
    {
        let mut copied: Vec<AutocompleteOption<K>> = Vec::new();
        let mut i: usize = 0;
        while i < options.len()
            invariant
                i <= options@.len(),
                copied@ == options@.take(i as int),
            decreases options@.len() - i,
        {
            let o = &options[i];
            copied.push(
                AutocompleteOption { key: o.key, label: o.label.clone(), commit_text: o.commit_text.clone() },
            );
            proof {
                assert(copied@ =~= options@.take(i + 1));
            }
            i = i + 1;
        }
        proof {
            assert(copied@ =~= options@);
        }
        self.options = copied;
    }

    /// Synchronizes the current input text and schedules a debounced refresh
    /// when it changed.
    ///
    /// When the input has lost focus, or its text became empty, the pending
    /// refresh is dropped and the popup dismissed (the returned effects say
    /// how); otherwise nothing needs to change in the retained UI.
    pub fn sync_query_from_input(&mut self, input_focused: bool, query: &str, now: u64) -> (effects: Option<AutocompleteEffects>)
        requires
            obeys_concrete_eq::<K>(),
        ensures
            final(self).view_ids() == old(self).view_ids(),
            final(self).debounce() == old(self).debounce(),
            final(self).colors() == old(self).colors(),
            !input_focused ==> final(self).due_at() is None && final(self).query() == old(self).query()
                && final(self).view_options().len() == 0 && closes_popup(effects, old(self).option_list().realized()),
            input_focused && query@ == old(self).query() ==> effects is None && final(self).due_at()
                == old(self).due_at() && final(self).query() == old(self).query()
                && final(self).view_options() == old(self).view_options() && final(self).option_list()
                == old(self).option_list(),
            input_focused && query@ != old(self).query() && query@.len() == 0 ==> final(self).query()
                == query@ && final(self).due_at() is None && final(self).view_options().len() == 0
                && closes_popup(effects, old(self).option_list().realized()),
            input_focused && query@ != old(self).query() && query@.len() > 0 ==> final(self).query()
                == query@ && final(self).due_at() == Some(crate::timer::saturating_sum(now, old(self).debounce()))
                && effects is None && final(self).view_options() == old(self).view_options()
                && final(self).option_list() == old(self).option_list(),
    {
        if !input_focused {
            self.pending_due_at = None;
            return Some(self.dismiss());
        }
        let q = query.to_owned();
        let unchanged = self.last_query == q;
        if unchanged {
            return None;
        }
        self.last_query = q;
        if query.is_empty() {
            self.pending_due_at = None;
            return Some(self.dismiss());
        }
        self.pending_due_at = Some(now.saturating_add(self.debounce_nanos));
        None
    }

    /// Returns a debounced query refresh request when due.
    pub fn take_due_query(&mut self, now: u64) -> (action: Option<AutocompleteAction<K>>)
        ensures
            final(self).view_ids() == old(self).view_ids(),
            final(self).debounce() == old(self).debounce(),
            final(self).colors() == old(self).colors(),
            final(self).view_options() == old(self).view_options(),
            final(self).query() == old(self).query(),
            final(self).option_list() == old(self).option_list(),
            (old(self).due_at() matches Some(d) && d <= now) ==> (final(self).due_at() is None
                && refreshes(action, old(self).query())),
            !(old(self).due_at() matches Some(d) && d <= now) ==> (final(self).due_at() == old(
                self,
            ).due_at() && action is None),
    {
        match self.pending_due_at {
            Some(deadline) => {
                if deadline <= now {
                    self.pending_due_at = None;
                    Some(AutocompleteAction::RefreshQuery(self.last_query.clone()))
                } else {
                    None
                }
            },
            None => None,
        }
    }

    /// Accepts the first option carrying `key`: its committed text goes into
    /// the input, the query becomes that text, and the popup closes.
    fn accept_key(&mut self, key: &K) -> (r: Option<(AutocompleteAction<K>, AutocompleteEffects)>)
        requires
            obeys_concrete_eq::<K>(),
        ensures
            final(self).view_ids() == old(self).view_ids(),
            final(self).debounce() == old(self).debounce(),
            final(self).colors() == old(self).colors(),
            option_position(old(self).view_options(), *key) is None ==> r is None && *final(self)
                == *old(self),
            option_position(old(self).view_options(), *key) matches Some(p) ==> ({
                let o = old(self).view_options()[p as int];
                &&& accepts(r, o.key, o.commit_text@, old(self).option_list().realized())
                &&& final(self).query() == o.commit_text@
                &&& final(self).due_at() is None
                &&& final(self).view_options().len() == 0
                &&& final(self).option_list().focused() is None
                &&& final(self).option_list().selected() is None
            }),
    {
        proof {
            lemma_option_position(self.options@, *key);
        }
        let mut i: usize = 0;
        while i < self.options.len()
            invariant
                i <= self.options@.len(),
                obeys_concrete_eq::<K>(),
                *self == *old(self),
                forall|j: int| 0 <= j < i ==> self.options@[j].key != *key,
                option_position(self.options@, *key) matches Some(p) ==> i <= p,
                option_position(self.options@, *key) matches Some(p) ==> p < self.options@.len()
                    && self.options@[p as int].key == *key,
            decreases self.options@.len() - i,
        {
            if same_key(&self.options[i].key, key) {
                proof {
                    lemma_option_position(self.options@, *key);
                }
                let accepted_key = self.options[i].key;
                let commit = self.options[i].commit_text.clone();
                self.last_query = commit.clone();
                self.pending_due_at = None;
                let mut effects = self.dismiss();
                effects.input_text = Some(commit);
                return Some((AutocompleteAction::Accepted(accepted_key), effects));
            }
            i = i + 1;
        }
        None
    }

    /// Handles autocomplete keyboard routing while the input retains focus.
    ///
    /// With the input unfocused, no option shown, or a key release, the event
    /// is not consumed. Escape dismisses the popup. Arrow, Home and End keys
    /// move the focused option; Enter and Space accept it. Every option must
    /// already have its row realized.
    pub fn handle_keyboard_event(&mut self, input_focused: bool, event: &KeyboardInput) -> (r: (AutocompleteOutcome<K>, Option<AutocompleteEffects>))
        requires
            obeys_concrete_eq::<K>(),
            old(self).view_options().len() <= old(self).option_list().realized().len(),
        ensures
            final(self).view_ids() == old(self).view_ids(),
            final(self).debounce() == old(self).debounce(),
            final(self).colors() == old(self).colors(),
            !input_focused || old(self).view_options().len() == 0 || !event.is_down ==> !r.0.consumed
                && r.0.action is None && r.1 is None && unchanged_from(*final(self), *old(self)),
            input_focused && old(self).view_options().len() > 0 && event.is_down && event.key
                == NavKey::Escape ==> r.0.consumed && (r.0.action matches Some(AutocompleteAction::Dismissed))
                && final(self).view_options().len() == 0 && closes_popup(r.1, old(self).option_list().realized()),
            input_focused && old(self).view_options().len() > 0 && event.is_down && event.key != NavKey::Escape
                ==> match nav_action(old(self).option_list().visible(), old(self).option_list().focused(), event.key) {
                None => {
                    &&& !r.0.consumed
                    &&& r.0.action is None
                    &&& r.1 is None
                    &&& unchanged_from(*final(self), *old(self))
                },
                Some(ListKeyboardAction::Focus(k)) => {
                    &&& r.0.consumed
                    &&& r.0.action is None
                    &&& (r.1 matches Some(e) && e.scroll_focused_into_view && e.open && e.input_text is None
                        && (e.row_edits matches Some(x) && edit_views(x@) == option_row_edits(
                        old(self).option_list(),
                        final(self).option_list(),
                        old(self).view_options(),
                        old(self).colors(),
                    )))
                    &&& final(self).option_list().realized().len() == old(self).option_list().realized().len()
                    &&& (forall|i: int|
                        0 <= i < old(self).option_list().realized().len() ==> #[trigger] final(self).option_list().realized()[i]
                            == crate::list::synced_realized(
                            old(self).option_list().realized()[i],
                            option_rows(old(self).view_options()),
                            final(self).option_list().focused(),
                            i,
                        ))
                    &&& final(self).option_list().shown_count() == (if old(self).view_options().len()
                        <= old(self).option_list().realized().len() {
                        old(self).view_options().len()
                    } else {
                        old(self).option_list().realized().len()
                    })
                    &&& final(self).option_list().focused() == synced_focus(option_rows(old(self).view_options()), Some(k))
                    &&& final(self).option_list().selected() == synced_selection(
                        option_rows(old(self).view_options()),
                        old(self).option_list().selected(),
                    )
                    &&& final(self).view_options() == old(self).view_options()
                    &&& final(self).query() == old(self).query()
                    &&& final(self).due_at() == old(self).due_at()
                },
                Some(ListKeyboardAction::Activate(k)) => {
                    &&& r.0.consumed
                    &&& match option_position(old(self).view_options(), k) {
                        Some(p) => {
                            let o = old(self).view_options()[p as int];
                            &&& accepts(paired(r.0.action, r.1), o.key, o.commit_text@, old(self).option_list().realized())
                            &&& final(self).query() == o.commit_text@
                            &&& final(self).due_at() is None
                            &&& final(self).view_options().len() == 0
                        },
                        None => {
                            &&& r.0.action is None
                            &&& r.1 is None
                            &&& final(self).option_list().selected() == Some(k)
                            &&& final(self).option_list().focused() == old(self).option_list().focused()
                            &&& final(self).option_list().realized() == old(self).option_list().realized()
                            &&& final(self).option_list().shown_count() == old(self).option_list().shown_count()
                            &&& final(self).view_options() == old(self).view_options()
                        },
                    }
                },
            },
    {
        if !input_focused || self.options.len() == 0 || !event.is_down {
            return (AutocompleteOutcome { consumed: false, action: None }, None);
        }
        if event.key == NavKey::Escape {
            let effects = self.dismiss();
            return (
                AutocompleteOutcome { consumed: true, action: Some(AutocompleteAction::Dismissed) },
                Some(effects),
            );
        }
        match self.list.handle_keyboard_event(event) {
            Some(ListKeyboardAction::Focus(_)) => {
                let mut effects = self.sync_view();
                effects.scroll_focused_into_view = true;
                (AutocompleteOutcome { consumed: true, action: None }, Some(effects))
            },
            Some(ListKeyboardAction::Activate(key)) => match self.accept_key(&key) {
                Some((action, effects)) => (
                    AutocompleteOutcome { consumed: true, action: Some(action) },
                    Some(effects),
                ),
                None => (AutocompleteOutcome { consumed: true, action: None }, None),
            },
            None => (AutocompleteOutcome { consumed: false, action: None }, None),
        }
    }

    /// Handles click/focus interactions after the retained UI processed
    /// pointer input: a click on an option row accepts it; a click elsewhere
    /// than the input, or focus moving away from the input, dismisses.
    pub fn handle_interactions(&mut self, interactions: &[Interaction]) -> (r: Option<(AutocompleteAction<K>, AutocompleteEffects)>)
        requires
            obeys_concrete_eq::<K>(),
        ensures
            final(self).view_ids() == old(self).view_ids(),
            final(self).debounce() == old(self).debounce(),
            final(self).colors() == old(self).colors(),
            match first_acting(old(self).view_ids().input, old(self).option_list().realized(), interactions@) {
                None => r is None && unchanged_from(*final(self), *old(self)),
                Some(i) => match interactions@[i as int] {
                    Interaction::Clicked(t) => match crate::list::clicked_row(old(self).option_list().realized(), t) {
                        Some(q) => {
                            let k = old(self).option_list().realized()[q as int].key;
                            match option_position(old(self).view_options(), k) {
                                Some(p) => {
                                    let o = old(self).view_options()[p as int];
                                    &&& accepts(r, o.key, o.commit_text@, old(self).option_list().realized())
                                    &&& final(self).query() == o.commit_text@
                                    &&& final(self).due_at() is None
                                    &&& final(self).view_options().len() == 0
                                },
                                None => {
                                    &&& r is None
                                    &&& final(self).option_list().focused() == Some(k)
                                    &&& final(self).option_list().selected() == Some(k)
                                    &&& final(self).view_options() == old(self).view_options()
                                },
                            }
                        },
                        None => dismisses(r, old(self).option_list().realized()) && final(self).view_options().len() == 0,
                    },
                    _ => dismisses(r, old(self).option_list().realized()) && final(self).view_options().len() == 0,
                },
            },
            interactions@.len() > 0 && (interactions@[0] matches Interaction::Clicked(t) && t != old(
                self,
            ).view_ids().input && crate::list::clicked_row(old(self).option_list().realized(), t) is None)
                ==> dismisses(r, old(self).option_list().realized()) && final(self).view_options().len() == 0,
    {
        proof {
            lemma_first_acting(self.ids.input, self.list.realized(), interactions@);
            if interactions@.len() > 0 {
                if let Interaction::Clicked(t) = interactions@[0] {
                    if t != self.ids.input && crate::list::clicked_row(self.list.realized(), t) is None {
                        lemma_outside_click_acts(self.ids.input, self.list.realized(), interactions@, t);
                    }
                }
            }
        }
        let mut i: usize = 0;
        while i < interactions.len()
            invariant
                i <= interactions@.len(),
                obeys_concrete_eq::<K>(),
                unchanged_from(*self, *old(self)),
                first_acting(old(self).view_ids().input, old(self).option_list().realized(), interactions@) matches Some(p) ==> i <= p && p < interactions@.len() && !leaves_popup_alone(
                    old(self).view_ids().input,
                    old(self).option_list().realized(),
                    interactions@[p as int],
                ) && forall|j: int| 0 <= j < p ==> #[trigger] leaves_popup_alone(old(self).view_ids().input, old(self).option_list().realized(), interactions@[j]),
                first_acting(old(self).view_ids().input, old(self).option_list().realized(), interactions@) is None ==> forall|j: int|
                    0 <= j < interactions@.len() ==> #[trigger] leaves_popup_alone(old(self).view_ids().input, old(self).option_list().realized(), interactions@[j]),
                forall|j: int|
                    0 <= j < i ==> #[trigger] leaves_popup_alone(
                        self.ids.input,
                        self.list.realized(),
                        interactions@[j],
                    ),
            decreases interactions@.len() - i,
        {
            let ghost pre = *self;
            match interactions[i] {
                Interaction::Clicked(target) => {
                    if let Some(ListRowAction::Select(key)) = self.list.handle_click(target) {
                        proof {
                            assert(!leaves_popup_alone(old(self).view_ids().input, old(self).option_list().realized(), interactions@[i as int]));
                        }
                        if let Some(accepted) = self.accept_key(&key) {
                            return Some(accepted);
                        }
                        return None;
                    }
                    if target != self.ids.input {
                        proof {
                            assert(!leaves_popup_alone(old(self).view_ids().input, old(self).option_list().realized(), interactions@[i as int]));
                        }
                        let effects = self.dismiss();
                        return Some((AutocompleteAction::Dismissed, effects));
                    }
                },
                Interaction::FocusChanged(target) => {
                    if target != self.ids.input {
                        proof {
                            assert(!leaves_popup_alone(old(self).view_ids().input, old(self).option_list().realized(), interactions@[i as int]));
                        }
                        let effects = self.dismiss();
                        return Some((AutocompleteAction::Dismissed, effects));
                    }
                },
                _ => {},
            }
            i = i + 1;
        }
        None
    }
}

} // verus!
