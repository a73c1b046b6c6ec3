//! The menu bar: one row at the top, shared by all screens.

use crate::backend::Backend;
use crate::event::{Callback, Event, EventResult, Key, MouseEvent};
use crate::geometry::{capped_sum, least, Vec2};
use crate::printer::Printer;
use crate::theme::Effect;
use crate::widget::Direction;
use vstd::prelude::*;
use vstd::string::StrSliceExecFns;

verus! {

/// What the menu bar is doing.
#[derive(Clone, Copy, Debug, PartialEq, Eq, Structural, Hash)]
pub enum MenubarState {
    /// Nothing: input goes to the screen.
    Inactive,
    /// The bar itself is selected and takes all input.
    Selected,
    /// A submenu is open above the screen.
    Submenu,
}

/// One entry of the menu bar.
pub struct MenuItem<C> {
    /// The text shown in the bar.
    pub label: String,
    /// The work to do on the root when the entry is chosen.
    pub action: Callback<C>,
    /// Whether that work opens a submenu, so that the bar stays visible.
    pub opens_submenu: bool,
}

/// The model of a [`Menubar`].
pub struct MenubarModel<C> {
    /// Whether the bar hides while it is not in use.
    pub autohide: bool,
    /// What the bar is doing.
    pub state: MenubarState,
    /// The index of the highlighted entry.
    pub focus: usize,
    /// The entries, left to right.
    pub items: Seq<MenuItem<C>>,
}

/// The menu bar.
pub struct Menubar<C> {
    /// Whether the bar hides while it is not in use. When it does not, it
    /// keeps the top row of the terminal for itself.
    pub autohide: bool,
    state: MenubarState,
    focus: usize,
    items: Vec<MenuItem<C>>,
}

impl<C> MenubarModel<C> {
    /// Whether the bar is drawn: always when it does not hide, else while
    /// it is in use.
    pub open spec fn visible(self) -> bool {
        !self.autohide || self.state != MenubarState::Inactive
    }

    /// Whether the bar takes the input in place of the screen.
    pub open spec fn receive_events(self) -> bool {
        self.state == MenubarState::Selected
    }

    /// Whether a submenu is open.
    pub open spec fn has_submenu(self) -> bool {
        self.state == MenubarState::Submenu
    }

    /// The same bar in another state.
    pub open spec fn with_state(self, state: MenubarState) -> MenubarModel<C> {
        MenubarModel { autohide: self.autohide, state, focus: self.focus, items: self.items }
    }

    /// The same bar with another entry highlighted.
    pub open spec fn with_focus(self, focus: usize) -> MenubarModel<C> {
        MenubarModel { autohide: self.autohide, state: self.state, focus, items: self.items }
    }

    /// The same bar with another choice of hiding.
    pub open spec fn with_autohide(self, autohide: bool) -> MenubarModel<C> {
        MenubarModel { autohide, state: self.state, focus: self.focus, items: self.items }
    }

    /// The entry left of the highlighted one, going round from the first
    /// to the last.
    pub open spec fn left_of_focus(self) -> usize {
        if self.items.len() == 0 {
            self.focus
        } else if 0 < self.focus < self.items.len() {
            (self.focus - 1) as usize
        } else {
            (self.items.len() - 1) as usize
        }
    }

    /// The entry right of the highlighted one, going round from the last
    /// to the first.
    pub open spec fn right_of_focus(self) -> usize {
        if self.items.len() == 0 {
            self.focus
        } else if self.focus + 1 < self.items.len() {
            (self.focus + 1) as usize
        } else {
            0
        }
    }

    /// The column where entry `i` starts in the row of the bar. The row
    /// starts with one blank; every entry takes its label and a blank on
    /// either side.
    pub open spec fn entry_start(self, i: int) -> int
        decreases i,
    {
        if i <= 0 {
            1
        } else {
            self.entry_start(i - 1) + self.items[i - 1].label@.len() + 2
        }
    }

    /// The cell of the bar where the label of entry `i` starts: one column
    /// after the start of the entry, on the first row. Columns stop at the
    /// largest `usize`.
    pub open spec fn label_cell(self, i: int) -> Vec2 {
        Vec2 {
            x: capped_sum(least(self.entry_start(i), usize::MAX as int), 1) as usize,
            y: 0,
        }
    }

    /// Whether entry `i` is drawn reversed when the bar is drawn as
    /// `focused`: the highlighted entry is, while the bar is in use and
    /// focused.
    pub open spec fn is_highlighted(self, i: int, focused: bool) -> bool {
        i == self.focus && self.state != MenubarState::Inactive && focused
    }

    /// What `draw` does to the backend for a highlighted entry `i`, with
    /// the steps named: the reverse effect is switched on, which gives
    /// `lit`; the label is printed at its cell, which gives `shown`; the
    /// effect is switched off.
    pub open spec fn highlighted_drawn_via<B: Backend>(
        self,
        printer: Printer,
        i: int,
        before: B,
        after: B,
        lit: B,
        shown: B,
    ) -> bool {
        &&& before.effect_set(Effect::Reverse, true, &lit)
        &&& printer.shows(lit, self.label_cell(i), self.items[i].label@, shown)
        &&& shown.effect_set(Effect::Reverse, false, &after)
    }

    /// What `draw` does to the backend for entry `i` through `printer`:
    /// the label is printed at its cell, as far as it is visible there; for
    /// the highlighted entry the reverse effect is switched on before and off
    /// after, and for no other.
    pub open spec fn entry_drawn<B: Backend>(self, printer: Printer, i: int, before: B, after: B) -> bool {
        if self.is_highlighted(i, printer.focused) {
            exists|lit: B, shown: B| #[trigger]
                self.highlighted_drawn_via(printer, i, before, after, lit, shown)
        } else {
            printer.shows(before, self.label_cell(i), self.items[i].label@, after)
        }
    }

    /// Whether `states` are the states of the backend that `draw` goes
    /// through: one before each entry and one after the last. The entries
    /// are drawn left to right.
    pub open spec fn drawn_via<B: Backend>(self, printer: Printer, states: Seq<B>) -> bool {
        &&& states.len() == self.items.len() + 1
        &&& forall|i: int|
            0 <= i < self.items.len() ==> #[trigger] self.entry_drawn_at(printer, states, i)
    }

    /// Whether entry `i` is drawn between the states `i` and `i + 1` of
    /// `states`.
    pub open spec fn entry_drawn_at<B: Backend>(self, printer: Printer, states: Seq<B>, i: int) -> bool {
        self.entry_drawn(printer, i, states[i], states[i + 1])
    }

    /// What `draw` does to the backend through `printer`: every entry is
    /// drawn once, left to right, and nothing else is done.
    pub open spec fn drawn<B: Backend>(self, printer: Printer, before: B, after: B) -> bool {
        exists|states: Seq<B>|
            #[trigger] self.drawn_via(printer, states) && states.first() == before && states.last()
                == after
    }

    /// Whether entry `i` covers column `x` of the row of the bar: the
    /// entry reaches from its start up to the start of the next.
    pub open spec fn covers(self, i: int, x: int) -> bool {
        0 <= i < self.items.len() && self.entry_start(i) <= x < self.entry_start(i + 1)
    }

    /// The entry that covers column `x`, if one does.
    pub open spec fn entry_at(self, x: usize) -> Option<usize> {
        if exists|i: int| self.covers(i, x as int) {
            Some((choose|i: int| self.covers(i, x as int)) as usize)
        } else {
            None
        }
    }

    /// The entry that a press of the mouse at `position` chooses: the one
    /// that covers the column, for a press on the first row.
    pub open spec fn entry_under(self, position: Vec2) -> Option<usize> {
        if position.y == 0 {
            self.entry_at(position.x)
        } else {
            None
        }
    }

    /// The bar after the highlighted entry was chosen: it goes to
    /// `Submenu` if the entry opens one, else to `Inactive`. Without a
    /// highlighted entry the bar stays as it is.
    pub open spec fn chosen(self) -> MenubarModel<C> {
        if self.focus < self.items.len() {
            self.with_state(
                if self.items[self.focus as int].opens_submenu {
                    MenubarState::Submenu
                } else {
                    MenubarState::Inactive
                },
            )
        } else {
            self
        }
    }

    /// The answer of the bar when the highlighted entry is chosen: the
    /// event is consumed, and the work of the entry is asked for.
    pub open spec fn choice(self) -> EventResult<C> {
        if self.focus < self.items.len() {
            EventResult::Consumed(Some(self.items[self.focus as int].action))
        } else {
            EventResult::Consumed(None)
        }
    }

    /// The bar after `event`.
    ///
    /// Esc deselects the bar. Left and Right move the highlight and go
    /// round at the ends. Enter and Down choose the highlighted entry. A
    /// press of the mouse on an entry highlights and chooses it; a press
    /// anywhere else deselects the bar. Every other event leaves the bar as
    /// it is.
    pub open spec fn after_event(self, event: Event) -> MenubarModel<C> {
        match event {
            Event::Key(Key::Esc) => self.with_state(MenubarState::Inactive),
            Event::Key(Key::Left) => self.with_focus(self.left_of_focus()),
            Event::Key(Key::Right) => self.with_focus(self.right_of_focus()),
            Event::Key(Key::Enter) | Event::Key(Key::Down) => self.chosen(),
            Event::Mouse { event: MouseEvent::Press(_), position, .. } => match self.entry_under(
                position,
            ) {
                Some(i) => self.with_focus(i).chosen(),
                None => self.with_state(MenubarState::Inactive),
            },
            _ => self,
        }
    }

    /// The answer of the bar to `event`: the keys and the presses named
    /// under [`MenubarModel::after_event`] are consumed, and choosing an
    /// entry asks for the entry's work; every other event is ignored.
    pub open spec fn answer(self, event: Event) -> EventResult<C> {
        match event {
            Event::Key(Key::Esc) | Event::Key(Key::Left) | Event::Key(Key::Right) => {
                EventResult::Consumed(None)
            },
            Event::Key(Key::Enter) | Event::Key(Key::Down) => self.choice(),
            Event::Mouse { event: MouseEvent::Press(_), position, .. } => match self.entry_under(
                position,
            ) {
                Some(i) => self.with_focus(i).choice(),
                None => EventResult::Consumed(None),
            },
            _ => EventResult::Ignored,
        }
    }

    /// Every entry starts after the blank at the head of the row.
    pub proof fn lemma_entry_start_positive(self, i: int)
        ensures
            self.entry_start(i) >= 1,
        decreases i,
    {
        if i > 0 {
            self.lemma_entry_start_positive(i - 1);
        }
    }

    /// A later entry starts further right.
    pub proof fn lemma_entry_start_increases(self, i: int, j: int)
        requires
            0 <= i <= j,
        ensures
            self.entry_start(i) <= self.entry_start(j),
        decreases j,
    {
        if i < j {
            self.lemma_entry_start_increases(i, j - 1);
        }
    }

    /// No column is covered by two entries.
    pub proof fn lemma_one_entry_per_column(self, i: int, j: int, x: int)
        requires
            self.covers(i, x),
            self.covers(j, x),
        ensures
            i == j,
    {
        if i < j {
            self.lemma_entry_start_increases(i + 1, j);
        }
        if j < i {
            self.lemma_entry_start_increases(j + 1, i);
        }
    }
}

impl<C> View for Menubar<C> {
    type V = MenubarModel<C>;

    closed spec fn view(&self) -> MenubarModel<C> {
        MenubarModel {
            autohide: self.autohide,
            state: self.state,
            focus: self.focus,
            items: self.items@,
        }
    }
}

impl<C> Menubar<C> {
    /// A bar without entries, which hides while it is not in use.
    pub fn new() -> (bar: Menubar<C>)
        ensures
            bar@ == (MenubarModel::<C> {
                autohide: true,
                state: MenubarState::Inactive,
                focus: 0,
                items: Seq::empty(),
            }),
    {
        Menubar { autohide: true, state: MenubarState::Inactive, focus: 0, items: Vec::new() }
    }

    /// Whether the bar hides while it is not in use.
    pub fn autohide(&self) -> (b: bool)
        ensures
            b == self@.autohide,
    {
        self.autohide
    }

    /// Chooses whether the bar hides while it is not in use.
    pub fn set_autohide(&mut self, autohide: bool)
        ensures
            final(self)@ == old(self)@.with_autohide(autohide),
    {
        self.autohide = autohide;
    }

    /// Whether the bar is drawn.
    pub fn visible(&self) -> (b: bool)
        ensures
            b == self@.visible(),
    {
        !self.autohide || self.state != MenubarState::Inactive
    }

    /// Whether the bar takes the input in place of the screen.
    pub fn receive_events(&self) -> (b: bool)
        ensures
            b == self@.receive_events(),
    {
        self.state == MenubarState::Selected
    }

    /// Whether a submenu is open.
    pub fn has_submenu(&self) -> (b: bool)
        ensures
            b == self@.has_submenu(),
    {
        self.state == MenubarState::Submenu
    }

    /// The number of entries.
    pub fn len(&self) -> (n: usize)
        ensures
            n == self@.items.len(),
    {
        self.items.len()
    }

    /// Adds an entry at the right that does `work` when chosen.
    pub fn add_leaf(&mut self, label: String, work: C)
        ensures
            final(self)@.autohide == old(self)@.autohide,
            final(self)@.state == old(self)@.state,
            final(self)@.focus == old(self)@.focus,
            final(self)@.items.len() == old(self)@.items.len() + 1,
            final(self)@.items.drop_last() == old(self)@.items,
            final(self)@.items.last().label == label,
            final(self)@.items.last().action@ == work,
            !final(self)@.items.last().opens_submenu,
    {
        self.items.push(
            MenuItem { label, action: Callback::from_fn(work), opens_submenu: false },
        );
        assert(self.items@.drop_last() =~= old(self).items@);
    }

    /// Adds an entry at the right whose `work` opens a submenu.
    pub fn add_subtree(&mut self, label: String, work: C)
        ensures
            final(self)@.autohide == old(self)@.autohide,
            final(self)@.state == old(self)@.state,
            final(self)@.focus == old(self)@.focus,
            final(self)@.items.len() == old(self)@.items.len() + 1,
            final(self)@.items.drop_last() == old(self)@.items,
            final(self)@.items.last().label == label,
            final(self)@.items.last().action@ == work,
            final(self)@.items.last().opens_submenu,
    {
        self.items.push(MenuItem { label, action: Callback::from_fn(work), opens_submenu: true });
        assert(self.items@.drop_last() =~= old(self).items@);
    }

    /// Deselects the bar and closes its submenu.
    pub fn deselect(&mut self)
        ensures
            final(self)@ == old(self)@.with_state(MenubarState::Inactive),
    {
        self.state = MenubarState::Inactive;
    }

    /// Selects the bar. The bar always accepts.
    pub fn take_focus(&mut self, source: Direction) -> (accepted: bool)
        ensures
            accepted,
            final(self)@ == old(self)@.with_state(MenubarState::Selected),
    {
        self.state = MenubarState::Selected;
        true
    }

    /// Hands the bar an event; see [`MenubarModel::after_event`] and
    /// [`MenubarModel::answer`].
    pub fn on_event(&mut self, event: Event) -> (result: EventResult<C>)
        ensures
            final(self)@ == old(self)@.after_event(event),
            result == old(self)@.answer(event),
    {
        let n: usize = self.items.len();
        match event {
            Event::Key(Key::Esc) => {
                self.state = MenubarState::Inactive;
                EventResult::Consumed(None)
            },
            Event::Key(Key::Left) => {
                if n > 0 {
                    self.focus = if 0 < self.focus && self.focus < n {
                        self.focus - 1
                    } else {
                        n - 1
                    };
                }
                EventResult::Consumed(None)
            },
            Event::Key(Key::Right) => {
                if n > 0 {
                    self.focus = if self.focus < n - 1 {
                        self.focus + 1
                    } else {
                        0
                    };
                }
                EventResult::Consumed(None)
            },
            Event::Key(Key::Enter) | Event::Key(Key::Down) => self.choose_focused(),
            Event::Mouse { event: MouseEvent::Press(_), position, .. } => {
                let under = if position.y == 0 {
                    self.entry_at(position.x)
                } else {
                    None
                };
                match under {
                    Some(i) => {
                        self.focus = i;
                        self.choose_focused()
                    },
                    None => {
                        self.state = MenubarState::Inactive;
                        EventResult::Consumed(None)
                    },
                }
            },
            _ => EventResult::Ignored,
        }
    }

    /// Chooses the highlighted entry; see [`MenubarModel::chosen`] and
    /// [`MenubarModel::choice`].
    pub fn choose_focused(&mut self) -> (result: EventResult<C>)
        ensures
            final(self)@ == old(self)@.chosen(),
            result == old(self)@.choice(),
    {
        if self.focus < self.items.len() {
            let action = self.items[self.focus].action.clone();
            self.state = if self.items[self.focus].opens_submenu {
                MenubarState::Submenu
            } else {
                MenubarState::Inactive
            };
            EventResult::Consumed(Some(action))
        } else {
            EventResult::Consumed(None)
        }
    }

    /// Finds the entry that covers column `x` of the row of the bar.
    pub fn entry_at(&self, x: usize) -> (at: Option<usize>)
        ensures
            at == self@.entry_at(x),
    {
        let n: usize = self.items.len();
        let mut start: usize = 1;
        let mut i: usize = 0;
        while i < n
            invariant
                n == self.items@.len(),
                i <= n,
                start == self@.entry_start(i as int),
                forall|j: int| 0 <= j < i ==> !self@.covers(j, x as int),
            decreases n - i,
        {
            let width: usize = self.items[i].label.as_str().unicode_len();
            assert(self@.entry_start(i + 1) == self@.entry_start(i as int)
                + self@.items[i as int].label@.len() + 2);
            let next: Option<usize> = match start.checked_add(width) {
                Some(end) => end.checked_add(2),
                None => None,
            };
            match next {
                Some(next_start) => {
                    if start <= x && x < next_start {
                        proof {
                            self@.lemma_found_entry(i as int, x);
                        }
                        return Some(i);
                    }
                    start = next_start;
                },
                None => {
                    if start <= x {
                        proof {
                            self@.lemma_found_entry(i as int, x);
                        }
                        return Some(i);
                    }
                    proof {
                        assert forall|j: int| !self@.covers(j, x as int) by {
                            if i < j {
                                self@.lemma_entry_start_increases(i as int, j);
                            }
                        }
                    }
                    return None;
                },
            }
            i += 1;
        }
        None
    }

    /// Draws the labels on `backend` in one row; see
    /// [`MenubarModel::drawn_via`]. Returns the column after the last entry,
    /// or the largest `usize` if the row is longer than that.
    pub fn draw<B: Backend>(&self, printer: &Printer, backend: &mut B) -> (end: usize)
        ensures
            end == least(self@.entry_start(self@.items.len() as int), usize::MAX as int),
            self@.drawn(*printer, *old(backend), *final(backend)),
    {
        let ghost mut states = seq![*backend];
        let n: usize = self.items.len();
        let mut x: usize = 1;
        let mut i: usize = 0;
        while i < n
            invariant
                n == self.items@.len(),
                i <= n,
                x == least(self@.entry_start(i as int), usize::MAX as int),
                states.len() == i + 1,
                states.first() == *old(backend),
                states.last() == *backend,
                forall|j: int| 0 <= j < i ==> #[trigger] self@.entry_drawn_at(*printer, states, j),
            decreases n - i,
        {
            let ghost before = *backend;
            let label = self.items[i].label.as_str();
            let highlighted = i == self.focus && self.state != MenubarState::Inactive
                && printer.focused;
            if highlighted {
                backend.set_effect(Effect::Reverse);
            }
            let ghost lit = *backend;
            let cell = Vec2::new(x.saturating_add(1), 0);
            let _printed: usize = printer.print(backend, cell, label);
            let ghost shown = *backend;
            if highlighted {
                backend.unset_effect(Effect::Reverse);
            }
            proof {
                assert(cell == self@.label_cell(i as int));
                assert(label@ == self@.items[i as int].label@);
                assert(highlighted == self@.is_highlighted(i as int, printer.focused));
                if highlighted {
                    assert(self@.highlighted_drawn_via(
                        *printer,
                        i as int,
                        before,
                        *backend,
                        lit,
                        shown,
                    ));
                }
                assert(self@.entry_drawn(*printer, i as int, before, *backend));
                assert(self@.entry_start(i + 1) == self@.entry_start(i as int)
                    + self@.items[i as int].label@.len() + 2);
                self@.lemma_entry_start_positive(i as int);
                let longer = states.push(*backend);
                assert forall|j: int| 0 <= j < i + 1 implies #[trigger] self@.entry_drawn_at(
                    *printer,
                    longer,
                    j,
                ) by {
                    if j < i {
                        assert(self@.entry_drawn_at(*printer, states, j));
                        assert(longer[j] == states[j]);
                        assert(longer[j + 1] == states[j + 1]);
                    }
                }
                assert(longer.first() == states.first());
                states = longer;
            }
            x = x.saturating_add(label.unicode_len()).saturating_add(2);
            i += 1;
        }
        assert(self@.drawn_via(*printer, states));
        x
    }
}

impl<C> MenubarModel<C> {
    /// An entry that covers column `x` is the entry at `x`.
    proof fn lemma_found_entry(self, i: int, x: usize)
        requires
            self.covers(i, x as int),
            i <= usize::MAX,
        ensures
            self.entry_at(x) == Some(i as usize),
    {
        let j = choose|j: int| self.covers(j, x as int);
        self.lemma_one_entry_per_column(i, j, x as int);
    }
}

} // verus!
