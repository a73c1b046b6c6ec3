//! The root of the application: screens, menu bar, global callbacks and
//! the event loop.

use crate::backend::{Backend, MAX_REFRESH_RATE};
use crate::callback::{bound_to, works, CallbackController};
use crate::event::{Callback, Event, EventResult};
use crate::geometry::Vec2;
use crate::menubar::{Menubar, MenubarModel, MenubarState};
use crate::printer::Printer;
use crate::stack_view::{
    drawn_bg, Layer, LayerPosition, Placement, Position, StackModel, StackView,
};
use crate::theme::{default_theme, load_default, Color, Error, PaletteColor, Theme};
use crate::widget::{Direction, Selector, Widget};
use vstd::prelude::*;

verus! {

/// Identifies a screen of the root. Screens are numbered from zero in the
/// order in which they were added, and keep their number.
pub type ScreenId = usize;

/// The model of a [`Cursive`] root.
#[verifier::ext_equal]
pub struct CursiveModel<V, B, C> {
    /// The theme in use.
    pub theme: Theme,
    /// The screens, by their identifier.
    pub screens: Seq<StackModel<V>>,
    /// The global callbacks.
    pub global_callbacks: Map<Event, Seq<C>>,
    /// The menu bar.
    pub menubar: MenubarModel<C>,
    /// The layer sizes of the active screen when it was last drawn.
    pub last_sizes: Seq<Vec2>,
    /// Whether the next draw clears the terminal whatever the sizes are.
    pub needs_clear: bool,
    /// The identifier of the active screen.
    pub active_screen: ScreenId,
    /// Whether the event loop goes on.
    pub running: bool,
    /// The terminal.
    pub backend: B,
    /// The callbacks that wait for the next tick, first come first.
    pub pending: Seq<C>,
}

/// The root of the application.
///
/// It holds a list of screens, one of them active, one menu bar for all
/// of them, the global callbacks, and the backend.
pub struct Cursive<V, B, C> {
    theme: Theme,
    screens: Vec<StackView<V>>,
    global_callbacks: CallbackController<C>,
    menubar: Menubar<C>,
    last_sizes: Vec<Vec2>,
    needs_clear: bool,
    active_screen: ScreenId,
    running: bool,
    backend: B,
    pending: Vec<C>,
}

impl<V, B, C> CursiveModel<V, B, C> {
    /// Whether there is a screen and the active screen is one of them.
    pub open spec fn wf(self) -> bool {
        &&& self.screens.len() > 0
        &&& self.active_screen < self.screens.len()
    }

    /// The active screen.
    pub open spec fn screen(self) -> StackModel<V> {
        self.screens[self.active_screen as int]
    }

    /// The same root with `screen` in place of the active screen.
    pub open spec fn with_screen(self, screen: StackModel<V>) -> CursiveModel<V, B, C> {
        CursiveModel { screens: self.screens.update(self.active_screen as int, screen), ..self }
    }

    /// The number of rows that the menu bar keeps for itself: one when it
    /// does not hide, else none.
    pub open spec fn menubar_rows(self) -> usize {
        if self.menubar.autohide {
            0
        } else {
            1
        }
    }

    /// What is left for the active screen on a terminal of size `terminal`.
    pub open spec fn usable_size(self, terminal: Vec2) -> Vec2 {
        terminal.saturating_sub(Vec2 { x: 0, y: self.menubar_rows() })
    }

    /// What asking for the screen `screen_id` gives: the root with that
    /// screen active if there is such a screen; else the identifier as the
    /// error, whatever it is, and no root.
    pub open spec fn screen_set(self, screen_id: ScreenId) -> Result<CursiveModel<V, B, C>, ScreenId> {
        if screen_id < self.screens.len() {
            Ok(CursiveModel { active_screen: screen_id, ..self })
        } else {
            Err(screen_id)
        }
    }

    /// Whether the next draw clears the terminal: after a resize, or when
    /// the layer sizes of the active screen are not those drawn last.
    pub open spec fn must_clear(self) -> bool {
        self.needs_clear || self.last_sizes != self.screen().layer_sizes()
    }

    /// The printer for the whole terminal of size `terminal`.
    pub open spec fn printer<'a>(&'a self, terminal: Vec2) -> Printer<'a> {
        Printer { offset: Vec2::zero(), size: terminal, focused: true, theme: &self.theme }
    }

    /// The printer that the active screen is drawn through on a terminal
    /// of size `terminal`: it starts below the rows that the menu bar keeps,
    /// and is focused unless the menu bar takes the input.
    pub open spec fn screen_printer<'a>(&'a self, terminal: Vec2) -> Printer<'a> {
        self.printer(terminal).sub_printer(
            Vec2 { x: 0, y: self.menubar_rows() },
            terminal,
            !self.menubar.receive_events(),
        )
    }

    /// The printer that the menu bar is drawn through on a terminal of
    /// size `terminal`: the whole terminal, focused while the bar takes the
    /// input.
    pub open spec fn menubar_printer<'a>(&'a self, terminal: Vec2) -> Printer<'a> {
        self.printer(terminal).sub_printer(
            Vec2::zero(),
            terminal,
            self.menubar.receive_events(),
        )
    }

    /// The background color of the theme in use.
    pub open spec fn background(self) -> Color {
        self.theme.palette.color(PaletteColor::Background)
    }

    /// What a draw on a terminal of size `terminal` does, with the states
    /// of the backend in between named.
    ///
    /// If a clear is due, the terminal is cleared with the background
    /// color, once, which gives `cleared`; if none is due, the backend is
    /// left as it is. Then the background of the active screen is drawn
    /// below the rows of the menu bar, which gives `filled`. Then the bar is
    /// drawn if it is visible, and only then, which gives `barred`. Then the
    /// layers of the active screen are drawn. Nothing else is done to the
    /// backend, and the root is otherwise as [`CursiveModel::drawn`] says.
    pub open spec fn frame_drawn_via(
        self,
        terminal: Vec2,
        after: CursiveModel<V, B, C>,
        cleared: B,
        filled: B,
        barred: B,
    ) -> bool where V: Widget<C>, B: Backend {
        &&& after == (CursiveModel { backend: after.backend, ..self.drawn() })
        &&& if self.must_clear() {
            self.backend.cleared(self.background(), &cleared)
        } else {
            cleared == self.backend
        }
        &&& drawn_bg(self.screen_printer(terminal), cleared, filled)
        &&& if self.menubar.visible() {
            self.menubar.drawn(self.menubar_printer(terminal), filled, barred)
        } else {
            barred == filled
        }
        &&& self.screen().drawn_fg::<C, B>(self.screen_printer(terminal), barred, after.backend)
    }

    /// What a draw on a terminal of size `terminal` does; see
    /// [`CursiveModel::frame_drawn_via`].
    pub open spec fn frame_drawn(self, terminal: Vec2, after: CursiveModel<V, B, C>) -> bool where
        V: Widget<C>,
        B: Backend,
     {
        exists|cleared: B, filled: B, barred: B| #[trigger]
            self.frame_drawn_via(terminal, after, cleared, filled, barred)
    }

    /// The root after a draw: the layer sizes of the active screen are
    /// remembered, and a clear that was asked for is done.
    pub open spec fn drawn(self) -> CursiveModel<V, B, C> {
        CursiveModel { last_sizes: self.screen().layer_sizes(), needs_clear: false, ..self }
    }

    /// A new root on `backend`: one empty screen, which is active, the
    /// built-in theme, a hidden menu bar without entries, no callbacks, and
    /// the event loop ready to run.
    pub open spec fn initial(backend: B) -> CursiveModel<V, B, C> {
        CursiveModel {
            theme: default_theme(),
            screens: seq![StackModel { layers: Seq::empty(), last_size: Vec2::zero() }],
            global_callbacks: Map::empty(),
            menubar: MenubarModel {
                autohide: true,
                state: MenubarState::Inactive,
                focus: 0,
                items: Seq::empty(),
            },
            last_sizes: Seq::empty(),
            needs_clear: false,
            active_screen: 0,
            running: true,
            backend,
            pending: Seq::empty(),
        }
    }

    /// Whether `event` selects the menu bar before it is dispatched: a
    /// press of the mouse on the top row, while the bar does not hide and
    /// has no submenu open.
    pub open spec fn grabs_menubar(self, event: Event) -> bool {
        event matches Event::Mouse { event: mouse, position, .. } && mouse.grabs_focus()
            && !self.menubar.autohide && !self.menubar.has_submenu() && position.y == 0
    }

    /// The root as it is when `event` is dispatched: an exit request has
    /// stopped the loop, a resize has asked for a clear at the next draw, and
    /// a press on the top row has selected the menu bar where
    /// [`CursiveModel::grabs_menubar`] holds.
    pub open spec fn prepared(self, event: Event) -> CursiveModel<V, B, C> {
        CursiveModel {
            running: self.running && event != Event::Exit,
            needs_clear: self.needs_clear || event == Event::WindowResize,
            menubar: if self.grabs_menubar(event) {
                self.menubar.with_state(MenubarState::Selected)
            } else {
                self.menubar
            },
            ..self
        }
    }

    /// What `layout` does on a terminal of size `terminal`: the active
    /// screen is laid out in what the menu bar leaves of it, and nothing else
    /// changes.
    pub open spec fn laid_out(self, terminal: Vec2, after: CursiveModel<V, B, C>) -> bool where
        V: Widget<C>,
     {
        &&& after == self.with_screen(after.screen())
        &&& self.screen().laid_out::<C>(self.usable_size(terminal), after.screen())
    }

    /// What processing the answer of a view does: the work that the view
    /// asked for, if any, runs on the root.
    pub open spec fn processed(self, result: EventResult<C>, after: CursiveModel<V, B, C>) -> bool where
        C: CbFunc<V, B>,
     {
        match result.deferred() {
            Some(work) => work.runs(self, after),
            None => after == self,
        }
    }

    /// What follows the answer `result` of the active screen to `event`:
    /// for an ignored event every callback bound to it runs, in the order in
    /// which they were bound; for a consumed event the work that the view
    /// asked for runs, if any.
    pub open spec fn answered(
        self,
        event: Event,
        result: EventResult<C>,
        after: CursiveModel<V, B, C>,
    ) -> bool where C: CbFunc<V, B> {
        match result {
            EventResult::Ignored => ran_all(bound_to(self.global_callbacks, event), self, after),
            EventResult::Consumed(_) => self.processed(result, after),
        }
    }

    /// What dispatching `event` does.
    ///
    /// While the menu bar takes the input, the bar gets the event and its
    /// answer is processed; the global callbacks are not consulted. Else
    /// the active screen gets the event, moved down by the rows that the
    /// menu bar keeps, and its answer is followed as
    /// [`CursiveModel::answered`] says, with the event as it came.
    pub open spec fn dispatched(self, event: Event, after: CursiveModel<V, B, C>) -> bool where
        V: Widget<C>,
        C: CbFunc<V, B>,
     {
        if self.menubar.receive_events() {
            (CursiveModel { menubar: self.menubar.after_event(event), ..self }).processed(
                self.menubar.answer(event),
                after,
            )
        } else {
            exists|screen: StackModel<V>, result: EventResult<C>|
                {
                    &&& #[trigger] self.screen().handled(
                        event.relativized(Vec2 { x: 0, y: self.menubar_rows() }),
                        screen,
                        result,
                    )
                    &&& self.with_screen(screen).answered(event, result, after)
                }
        }
    }

    /// What handling `event` does: the root is prepared for it and then
    /// dispatches it.
    pub open spec fn handled(self, event: Event, after: CursiveModel<V, B, C>) -> bool where
        V: Widget<C>,
        C: CbFunc<V, B>,
     {
        self.prepared(event).dispatched(event, after)
    }

    /// What one tick does, with the steps in between named.
    ///
    /// The waiting callbacks run in the order of their arrival, which
    /// gives `drained`. The backend reports a terminal of size `terminal`
    /// and the active screen is laid out on it, which gives `laid`. The
    /// backend reports a terminal of size `frame` and the root is drawn on
    /// it, after a clear if one is due, which gives `drawn`. The backend
    /// shows the frame, which makes it `shown`, and waits for input: it
    /// becomes `backend` and reports `event`, which the root handles.
    pub open spec fn ticked_via(
        self,
        after: CursiveModel<V, B, C>,
        drained: CursiveModel<V, B, C>,
        terminal: Vec2,
        laid: CursiveModel<V, B, C>,
        frame: Vec2,
        drawn: CursiveModel<V, B, C>,
        shown: B,
        backend: B,
        event: Event,
    ) -> bool where V: Widget<C>, B: Backend, C: CbFunc<V, B> {
        &&& self.drained(drained)
        &&& drained.backend.size_reported((terminal.x, terminal.y))
        &&& drained.laid_out(terminal, laid)
        &&& laid.backend.size_reported((frame.x, frame.y))
        &&& laid.frame_drawn(frame, drawn)
        &&& drawn.backend.refreshed(&shown)
        &&& shown.polled(&backend, event)
        &&& (CursiveModel { backend, ..drawn }).handled(event, after)
    }

    /// What one tick does; see [`CursiveModel::ticked_via`].
    pub open spec fn ticked(self, after: CursiveModel<V, B, C>) -> bool where
        V: Widget<C>,
        B: Backend,
        C: CbFunc<V, B>,
     {
        exists|
            drained: CursiveModel<V, B, C>,
            terminal: Vec2,
            laid: CursiveModel<V, B, C>,
            frame: Vec2,
            drawn: CursiveModel<V, B, C>,
            shown: B,
            backend: B,
            event: Event,
        | #[trigger]
            self.ticked_via(after, drained, terminal, laid, frame, drawn, shown, backend, event)
    }

    /// What running one waiting callback does: the callback that arrived
    /// first is taken off the queue and runs on the root, where the others
    /// still wait.
    pub open spec fn drained_one(self, after: CursiveModel<V, B, C>) -> bool where
        C: CbFunc<V, B>,
     {
        self.pending.len() > 0 && self.pending[0].runs(
            CursiveModel { pending: self.pending.skip(1), ..self },
            after,
        )
    }

    /// What running the waiting callbacks does: one after another, in the
    /// order of arrival, until none waits, those included that arrive while
    /// the others run; or until [`MAX_DRAINED`] of them have run.
    pub open spec fn drained(self, after: CursiveModel<V, B, C>) -> bool where C: CbFunc<V, B> {
        exists|states: Seq<CursiveModel<V, B, C>>|
            #[trigger] drained_through(states) && states.first() == self && states.last() == after
                && (after.pending.len() == 0 || states.len() == MAX_DRAINED + 1)
    }
}

/// The most callbacks that one tick takes off the queue. What waits
/// beyond that stays for the next tick.
pub const MAX_DRAINED: usize = 0xffff_ffff;

/// Whether `states` are the roots that a drain of the queue goes
/// through: one before each callback and one after the last.
pub open spec fn drained_through<V, B, C: CbFunc<V, B>>(
    states: Seq<CursiveModel<V, B, C>>,
) -> bool {
    &&& states.len() >= 1
    &&& forall|i: int| 0 <= i < states.len() - 1 ==> #[trigger] drained_at(states, i)
}

/// Whether running the first waiting callback of the root `states[i]`
/// gives the next of `states`.
pub open spec fn drained_at<V, B, C: CbFunc<V, B>>(
    states: Seq<CursiveModel<V, B, C>>,
    i: int,
) -> bool {
    states[i].drained_one(states[i + 1])
}

/// A unit of work on the root.
///
/// `runs` says what the work may do: it relates the root before the call
/// to the root after it.
pub trait CbFunc<V, B>: Sized {
    /// Whether the work may turn the root `before` into the root `after`.
    open spec fn runs(
        &self,
        before: CursiveModel<V, B, Self>,
        after: CursiveModel<V, B, Self>,
    ) -> bool {
        true
    }

    /// Does the work.
    fn call_box(&self, siv: &mut Cursive<V, B, Self>)
        requires
            old(siv).wf(),
        ensures
            final(siv).wf(),
            self.runs(old(siv)@, final(siv)@),
    ;
}

/// Whether `states` are the roots that a run of `works`, first to last,
/// goes through: one root before each piece of work and one after the
/// last, each piece turning its root into the next.
pub open spec fn run_through<V, B, C: CbFunc<V, B>>(
    works: Seq<C>,
    states: Seq<CursiveModel<V, B, C>>,
) -> bool {
    &&& states.len() == works.len() + 1
    &&& forall|i: int|
        0 <= i < works.len() ==> (#[trigger] works[i]).runs(states[i], states[i + 1])
}

/// Whether running `works` one after another, first to last, each of
/// them once, may turn the root `before` into the root `after`.
pub open spec fn ran_all<V, B, C: CbFunc<V, B>>(
    works: Seq<C>,
    before: CursiveModel<V, B, C>,
    after: CursiveModel<V, B, C>,
) -> bool {
    exists|states: Seq<CursiveModel<V, B, C>>|
        #[trigger] run_through(works, states) && states.first() == before && states.last()
            == after
}

/// Whether `states` are the roots that a run of the event loop goes
/// through: one before each tick and one after the last. Every tick
/// begins while the loop is running.
pub open spec fn ticked_through<V: Widget<C>, B: Backend, C: CbFunc<V, B>>(
    states: Seq<CursiveModel<V, B, C>>,
) -> bool {
    &&& states.len() >= 1
    &&& forall|i: int| 0 <= i < states.len() - 1 ==> #[trigger] ticked_at(states, i)
}

/// Whether the loop is running in the root `states[i]` and one tick turns
/// that root into the next of `states`.
pub open spec fn ticked_at<V: Widget<C>, B: Backend, C: CbFunc<V, B>>(
    states: Seq<CursiveModel<V, B, C>>,
    i: int,
) -> bool {
    states[i].running && states[i].ticked(states[i + 1])
}

/// Whether `ticks` ticks of the event loop, each begun while the loop
/// was running, may turn the root `before` into the root `after`.
pub open spec fn ran_ticks<V: Widget<C>, B: Backend, C: CbFunc<V, B>>(
    ticks: nat,
    before: CursiveModel<V, B, C>,
    after: CursiveModel<V, B, C>,
) -> bool {
    exists|states: Seq<CursiveModel<V, B, C>>|
        #[trigger] ticked_through(states) && states.len() == ticks + 1 && states.first()
            == before && states.last() == after
}

impl<V, B, C> View for Cursive<V, B, C> {
    type V = CursiveModel<V, B, C>;

    closed spec fn view(&self) -> CursiveModel<V, B, C> {
        CursiveModel {
            theme: self.theme,
            screens: Seq::new(self.screens@.len(), |i: int| self.screens@[i]@),
            global_callbacks: self.global_callbacks@,
            menubar: self.menubar@,
            last_sizes: self.last_sizes@,
            needs_clear: self.needs_clear,
            active_screen: self.active_screen,
            running: self.running,
            backend: self.backend,
            pending: self.pending@,
        }
    }
}

impl<V, B, C> Cursive<V, B, C> {
    /// Whether the root is in order: its model is, and so is its table of
    /// callbacks.
    pub closed spec fn wf(&self) -> bool {
        &&& self@.wf()
        &&& self.global_callbacks.wf()
    }

    /// A root that is in order has a model that is in order: there is a
    /// screen, and the active screen is one of the screens.
    pub proof fn lemma_wf(&self)
        requires
            self.wf(),
        ensures
            self@.wf(),
    {
    }

    /// A root on `backend`: one empty screen, which is active, the
    /// built-in theme, a hidden menu bar without entries, no callbacks, and
    /// the event loop ready to run.
    pub fn with_backend(backend: B) -> (siv: Cursive<V, B, C>)
        ensures
            siv.wf(),
            siv@ == CursiveModel::<V, B, C>::initial(backend),
    {
        let theme = load_default();
        let mut screens: Vec<StackView<V>> = Vec::new();
        screens.push(StackView::new());
        let siv = Cursive {
            theme,
            screens,
            global_callbacks: CallbackController::new(),
            menubar: Menubar::new(),
            last_sizes: Vec::new(),
            needs_clear: false,
            active_screen: 0,
            running: true,
            backend,
            pending: Vec::new(),
        };
        assert(siv@.screens =~= CursiveModel::<V, B, C>::initial(backend).screens);
        siv
    }

    /// Puts `work` at the end of the queue of callbacks that wait for the
    /// next tick. What waits before it stays as it is.
    pub fn send(&mut self, work: C)
        requires
            old(self).wf(),
        ensures
            final(self).wf(),
            final(self)@ == (CursiveModel { pending: old(self)@.pending.push(work), ..old(self)@ }),
    {
        self.pending.push(work);
    }

    /// The queue of callbacks that wait for the next tick, handed out
    /// whole. What is pushed here runs at the start of the next tick, in the
    /// order of arrival; to add to the queue and leave the rest alone, use
    /// [`Cursive::send`].
    pub fn cb_sink(&mut self) -> (sink: &mut Vec<C>)
        requires
            old(self).wf(),
        ensures
            sink@ == old(self)@.pending,
            final(self).wf(),
            final(self)@ == (CursiveModel { pending: final(sink)@, ..old(self)@ }),
    {
        &mut self.pending
    }

    /// The theme in use.
    pub fn current_theme(&self) -> (theme: &Theme)
        ensures
            *theme == self@.theme,
    {
        &self.theme
    }

    /// The backend.
    pub fn backend(&self) -> (backend: &B)
        ensures
            *backend == self@.backend,
    {
        &self.backend
    }

    /// The backend, to change it.
    pub fn backend_mut(&mut self) -> (backend: &mut B)
        requires
            old(self).wf(),
        ensures
            *backend == old(self)@.backend,
            final(self).wf(),
            final(self)@ == (CursiveModel { backend: *final(backend), ..old(self)@ }),
    {
        &mut self.backend
    }

    /// Selects the menu bar, so that it takes the input.
    pub fn select_menubar(&mut self)
        requires
            old(self).wf(),
        ensures
            final(self).wf(),
            final(self)@ == (CursiveModel {
                menubar: old(self)@.menubar.with_state(MenubarState::Selected),
                ..old(self)@
            }),
    {
        let _accepted = self.menubar.take_focus(Direction::none());
    }

    /// Chooses whether the menu bar hides while it is not in use. A bar
    /// that does not hide is always visible and keeps the top row.
    pub fn set_autohide_menu(&mut self, autohide: bool)
        requires
            old(self).wf(),
        ensures
            final(self).wf(),
            final(self)@ == (CursiveModel {
                menubar: old(self)@.menubar.with_autohide(autohide),
                ..old(self)@
            }),
    {
        self.menubar.set_autohide(autohide);
    }

    /// The menu bar, to add entries to it.
    pub fn menubar(&mut self) -> (bar: &mut Menubar<C>)
        requires
            old(self).wf(),
        ensures
            bar@ == old(self)@.menubar,
            final(self).wf(),
            final(self)@ == (CursiveModel { menubar: final(bar)@, ..old(self)@ }),
    {
        &mut self.menubar
    }

    /// The active screen.
    pub fn screen(&self) -> (screen: &StackView<V>)
        requires
            self.wf(),
        ensures
            screen@ == self@.screen(),
    {
        let id = self.active_screen;
        &self.screens[id]
    }

    /// The active screen, to change it.
    pub fn screen_mut(&mut self) -> (screen: &mut StackView<V>)
        requires
            old(self).wf(),
        ensures
            screen@ == old(self)@.screen(),
            final(self).wf(),
            final(self)@ == old(self)@.with_screen(final(screen)@),
    {
        let id = self.active_screen;
        &mut self.screens[id]
    }

    /// The identifier of the active screen.
    pub fn active_screen(&self) -> (id: ScreenId)
        ensures
            id == self@.active_screen,
    {
        self.active_screen
    }

    /// The number of screens.
    pub fn screen_count(&self) -> (n: usize)
        ensures
            n == self@.screens.len(),
    {
        self.screens.len()
    }

    /// Adds an empty screen and returns its identifier. The screens that
    /// exist keep theirs, and the active screen stays active.
    pub fn add_screen(&mut self) -> (id: ScreenId)
        requires
            old(self).wf(),
        ensures
            final(self).wf(),
            id == old(self)@.screens.len(),
            final(self)@ == (CursiveModel {
                screens: old(self)@.screens.push(
                    StackModel { layers: Seq::empty(), last_size: Vec2::zero() },
                ),
                ..old(self)@
            }),
    {
        let res = self.screens.len();
        self.screens.push(StackView::new());
        res
    }

    /// Adds an empty screen, makes it the active one and returns its
    /// identifier.
    pub fn add_active_screen(&mut self) -> (id: ScreenId)
        requires
            old(self).wf(),
        ensures
            final(self).wf(),
            id == old(self)@.screens.len(),
            final(self)@ == (CursiveModel {
                screens: old(self)@.screens.push(
                    StackModel { layers: Seq::empty(), last_size: Vec2::zero() },
                ),
                active_screen: id,
                ..old(self)@
            }),
    {
        let res = self.add_screen();
        self.set_screen(res);
        res
    }

    /// Makes the screen `screen_id` the active one. There must be such a
    /// screen: an identifier that no screen has is a mistake of the caller,
    /// and is neither wrapped round nor clamped.
    pub fn set_screen(&mut self, screen_id: ScreenId)
        requires
            old(self).wf(),
            screen_id < old(self)@.screens.len(),
        ensures
            final(self).wf(),
            final(self)@ == (CursiveModel { active_screen: screen_id, ..old(self)@ }),
            Ok::<CursiveModel<V, B, C>, ScreenId>(final(self)@) == old(self)@.screen_set(screen_id),
    {
        self.active_screen = screen_id;
    }

    /// Makes the screen `screen_id` the active one if there is such a
    /// screen. If there is none, nothing changes and the identifier comes
    /// back as the error.
    pub fn try_set_screen(&mut self, screen_id: ScreenId) -> (r: Result<(), ScreenId>)
        requires
            old(self).wf(),
        ensures
            final(self).wf(),
            match old(self)@.screen_set(screen_id) {
                Ok(root) => r is Ok && final(self)@ == root,
                Err(id) => r == Err::<(), ScreenId>(id) && final(self)@ == old(self)@,
            },
    {
        if screen_id < self.screens.len() {
            self.set_screen(screen_id);
            Ok(())
        } else {
            Err(screen_id)
        }
    }

    /// Binds `work` to `event`: it runs, after what is bound to `event`
    /// already, whenever neither the menu bar nor the active screen wants
    /// the event.
    pub fn add_global_callback(&mut self, event: Event, work: C)
        requires
            old(self).wf(),
        ensures
            final(self).wf(),
            final(self)@ == (CursiveModel {
                global_callbacks: old(self)@.global_callbacks.insert(
                    event,
                    bound_to(old(self)@.global_callbacks, event).push(work),
                ),
                ..old(self)@
            }),
    {
        self.global_callbacks.add_callback(event, work);
    }

    /// Removes every callback bound to `event`, and nothing else.
    pub fn clear_global_callbacks(&mut self, event: Event)
        requires
            old(self).wf(),
        ensures
            final(self).wf(),
            final(self)@ == (CursiveModel {
                global_callbacks: old(self)@.global_callbacks.remove(event),
                ..old(self)@
            }),
    {
        self.global_callbacks.clear_callbacks_from(event);
    }

    /// Puts `view` on top of the active screen. No other screen changes.
    pub fn add_layer(&mut self, view: V)
        requires
            old(self).wf(),
        ensures
            final(self).wf(),
            final(self)@ == old(self)@.with_screen(
                StackModel {
                    layers: old(self)@.screen().layers.push(
                        Layer::fresh(view, Placement::Floating(Position::center())),
                    ),
                    last_size: old(self)@.screen().last_size,
                },
            ),
    {
        let id = self.active_screen;
        self.screens[id].add_layer(view);
        proof {
            self.lemma_screen_changed(*old(self), id as int);
        }
    }

    /// Puts `view` on top of the active screen, over the whole screen. No
    /// other screen changes.
    pub fn add_fullscreen_layer(&mut self, view: V)
        requires
            old(self).wf(),
        ensures
            final(self).wf(),
            final(self)@ == old(self)@.with_screen(
                StackModel {
                    layers: old(self)@.screen().layers.push(
                        Layer::fresh(view, Placement::Fullscreen),
                    ),
                    last_size: old(self)@.screen().last_size,
                },
            ),
    {
        let id = self.active_screen;
        self.screens[id].add_fullscreen_layer(view);
        proof {
            self.lemma_screen_changed(*old(self), id as int);
        }
    }

    /// Takes the top layer off the active screen and returns its view;
    /// `None`, with nothing changed, if that screen is empty.
    pub fn pop_layer(&mut self) -> (view: Option<V>)
        requires
            old(self).wf(),
        ensures
            final(self).wf(),
            old(self)@.screen().layers.len() == 0 ==> view.is_none() && final(self)@ == old(self)@,
            old(self)@.screen().layers.len() > 0 ==> view == Some(
                old(self)@.screen().layers.last().view,
            ) && final(self)@ == old(self)@.with_screen(
                StackModel {
                    layers: old(self)@.screen().layers.drop_last(),
                    last_size: old(self)@.screen().last_size,
                },
            ),
    {
        let id = self.active_screen;
        let view = self.screens[id].pop_layer();
        proof {
            self.lemma_screen_changed(*old(self), id as int);
        }
        view
    }

    /// Moves a layer of the active screen; see
    /// [`StackView::reposition_layer`].
    pub fn reposition_layer(&mut self, layer: LayerPosition, position: Position)
        requires
            old(self).wf(),
        ensures
            final(self).wf(),
            match layer.index(old(self)@.screen().layers.len() as usize) {
                Some(i) => final(self)@ == old(self)@.with_screen(
                    StackModel {
                        layers: old(self)@.screen().layers.update(
                            i as int,
                            old(self)@.screen().layers[i as int].moved_to(position),
                        ),
                        last_size: old(self)@.screen().last_size,
                    },
                ),
                None => final(self)@ == old(self)@,
            },
    {
        let id = self.active_screen;
        self.screens[id].reposition_layer(layer, position);
        proof {
            self.lemma_screen_changed(*old(self), id as int);
        }
    }

    /// Offers the root the focus. The root always accepts, whatever is on
    /// its screens, and stays as it is.
    pub fn take_focus(&mut self, source: Direction) -> (accepted: bool)
        requires
            old(self).wf(),
        ensures
            accepted,
            final(self).wf(),
            final(self)@ == old(self)@,
    {
        true
    }

    /// Whether the event loop goes on: true until `quit` is called.
    pub fn is_running(&self) -> (b: bool)
        ensures
            b == self@.running,
    {
        self.running
    }

    /// Starts the event loop: `is_running` holds until `quit` is called.
    pub fn start(&mut self)
        requires
            old(self).wf(),
        ensures
            final(self).wf(),
            final(self)@ == (CursiveModel { running: true, ..old(self)@ }),
    {
        self.running = true;
    }

    /// Stops the event loop after the tick that is under way.
    pub fn quit(&mut self)
        requires
            old(self).wf(),
        ensures
            final(self).wf(),
            final(self)@ == (CursiveModel { running: false, ..old(self)@ }),
    {
        self.running = false;
    }

    /// If `self` differs from `before` in the screen `id` at most, its
    /// model is that of `before` with that screen replaced.
    proof fn lemma_screen_changed(&self, before: Cursive<V, B, C>, id: int)
        requires
            0 <= id < before.screens@.len(),
            self.screens@.len() == before.screens@.len(),
            forall|i: int|
                0 <= i < before.screens@.len() && i != id ==> self.screens@[i] == before.screens@[i],
            self.theme == before.theme,
            self.global_callbacks == before.global_callbacks,
            self.menubar == before.menubar,
            self.last_sizes == before.last_sizes,
            self.needs_clear == before.needs_clear,
            self.active_screen == before.active_screen,
            self.running == before.running,
            self.backend == before.backend,
            self.pending == before.pending,
        ensures
            self@ == (CursiveModel {
                screens: before@.screens.update(id, self.screens@[id]@),
                ..before@
            }),
            self@.screens[id] == self.screens@[id]@,
            self.wf() == before.wf(),
    {
        assert(self@.screens =~= before@.screens.update(id, self.screens@[id]@));
    }
}

impl<V, B, C> Cursive<V, B, C> {
    /// Prepares the root for `event`, before the event is dispatched; see
    /// [`CursiveModel::prepared`].
    pub fn pre_dispatch(&mut self, event: Event)
        requires
            old(self).wf(),
        ensures
            final(self).wf(),
            final(self)@ == old(self)@.prepared(event),
    {
        if event == Event::Exit {
            self.quit();
        }
        if event == Event::WindowResize {
            self.needs_clear = true;
        }
        if let Event::Mouse { event: mouse, position, .. } = event {
            if mouse.grabs_focus() && !self.menubar.autohide() && !self.menubar.has_submenu()
                && position.y == 0 {
                self.select_menubar();
            }
        }
    }
}

impl<V, B: Backend, C> Cursive<V, B, C> {
    /// A root on a backend that is started for it; see
    /// [`Cursive::with_backend`].
    pub fn new() -> (siv: Cursive<V, B, C>)
        ensures
            siv.wf(),
            siv@ == CursiveModel::<V, B, C>::initial(siv@.backend),
            siv@.backend.started(),
    {
        let backend = B::init();
        Cursive::with_backend(*backend)
    }

    /// Fills the terminal with the background color of the theme. Only
    /// the backend changes.
    pub fn clear(&mut self)
        requires
            old(self).wf(),
        ensures
            final(self).wf(),
            final(self)@ == (CursiveModel { backend: final(self)@.backend, ..old(self)@ }),
            old(self)@.backend.cleared(old(self)@.background(), &final(self)@.backend),
    {
        self.backend.clear(self.theme.palette.color(PaletteColor::Background));
    }

    /// Puts `theme` in use and clears the terminal with its background
    /// color, once.
    pub fn set_theme(&mut self, theme: Theme)
        requires
            old(self).wf(),
        ensures
            final(self).wf(),
            final(self)@ == (CursiveModel { theme, backend: final(self)@.backend, ..old(self)@ }),
            old(self)@.backend.cleared(
                theme.palette.color(PaletteColor::Background),
                &final(self)@.backend,
            ),
    {
        self.theme = theme;
        self.clear();
    }

    /// Puts a theme in use that was loaded from outside, and clears the
    /// terminal, once. Where loading failed, the theme in use stays, the
    /// backend is left alone and the failure is handed on.
    pub fn load_theme(&mut self, loaded: Result<Theme, Error>) -> (r: Result<(), Error>)
        requires
            old(self).wf(),
        ensures
            final(self).wf(),
            match loaded {
                Ok(theme) => r is Ok && final(self)@ == (CursiveModel {
                    theme,
                    backend: final(self)@.backend,
                    ..old(self)@
                }) && old(self)@.backend.cleared(
                    theme.palette.color(PaletteColor::Background),
                    &final(self)@.backend,
                ),
                Err(error) => r == Err::<(), Error>(error) && final(self)@ == old(self)@,
            },
    {
        match loaded {
            Ok(theme) => {
                self.set_theme(theme);
                Ok(())
            },
            Err(error) => Err(error),
        }
    }

    /// Sets how often the root is redrawn without input, in frames per
    /// second, at most [`MAX_REFRESH_RATE`]; zero means never. Only the
    /// backend changes.
    pub fn set_fps(&mut self, fps: u32)
        requires
            old(self).wf(),
            fps <= MAX_REFRESH_RATE,
        ensures
            final(self).wf(),
            final(self)@ == (CursiveModel { backend: final(self)@.backend, ..old(self)@ }),
            old(self)@.backend.rate_set(fps, &final(self)@.backend),
    {
        self.backend.set_refresh_rate(fps);
    }

    /// Gives the terminal back. To be called once, when the root is no
    /// longer used. Only the backend changes.
    pub fn finish(&mut self)
        requires
            old(self).wf(),
        ensures
            final(self).wf(),
            final(self)@ == (CursiveModel { backend: final(self)@.backend, ..old(self)@ }),
            old(self)@.backend.finished(&final(self)@.backend),
    {
        self.backend.finish();
    }

    /// The size of the terminal, as the backend reports it now.
    pub fn screen_size(&self) -> (size: Vec2)
        ensures
            self@.backend.size_reported((size.x, size.y)),
    {
        let (x, y) = self.backend.screen_size();
        Vec2 { x, y }
    }
}

impl<V: Widget<C>, B, C> Cursive<V, B, C> {
    /// Moves the focus, on the active screen, to the view that `selector`
    /// names; see [`StackView::focus_view`]. No other screen changes.
    pub fn focus(&mut self, selector: &Selector) -> (found: Result<(), ()>)
        requires
            old(self).wf(),
        ensures
            final(self).wf(),
            final(self)@ == old(self)@.with_screen(final(self)@.screen()),
            exists|tried: int| #[trigger]
                old(self)@.screen().focus_moved::<C>(
                    *selector,
                    final(self)@.screen(),
                    found is Ok,
                    tried,
                ),
    {
        let id = self.active_screen;
        let found = self.screens[id].focus_view::<C>(selector);
        proof {
            self.lemma_screen_changed(*old(self), id as int);
            let before = old(self).screens@[id as int]@;
            let after = self.screens@[id as int]@;
            let tried = choose|tried: int| #[trigger]
                before.focus_moved::<C>(*selector, after, found is Ok, tried);
            assert(old(self)@.screen() == before);
            assert(self@.screen() == after);
            assert(old(self)@.screen().focus_moved::<C>(
                *selector,
                self@.screen(),
                found is Ok,
                tried,
            ));
        }
        found
    }

    /// Moves the focus, on the active screen, to the view with the
    /// identifier `id`.
    pub fn focus_id(&mut self, id: &str) -> (found: Result<(), ()>)
        requires
            old(self).wf(),
        ensures
            final(self).wf(),
            final(self)@ == old(self)@.with_screen(final(self)@.screen()),
            exists|tried: int| #[trigger]
                old(self)@.screen().focus_moved::<C>(
                    Selector::Id(id),
                    final(self)@.screen(),
                    found is Ok,
                    tried,
                ),
    {
        self.focus(&Selector::Id(id))
    }

    /// Runs `action` on the first view of the active screen that answers
    /// to `selector`; see [`StackView::call_on`]. No other screen changes.
    pub fn call_on<F, R>(&mut self, selector: &Selector, action: F) -> (r: Option<R>) where
        F: FnOnce(&mut V) -> R,

        requires
            old(self).wf(),
            forall|v: &mut V| call_requires(action, (v,)),
        ensures
            final(self).wf(),
            final(self)@ == old(self)@.with_screen(final(self)@.screen()),
            exists|at: int| #[trigger]
                old(self)@.screen().called_on::<C>(
                    *selector,
                    final(self)@.screen(),
                    at,
                    r.is_some(),
                ),
            r matches Some(x) ==> exists|v: &mut V| call_ensures(action, (v,), x),
    {
        let id = self.active_screen;
        let r = self.screens[id].call_on::<C, F, R>(selector, action);
        proof {
            self.lemma_screen_changed(*old(self), id as int);
            let before = old(self).screens@[id as int]@;
            let after = self.screens@[id as int]@;
            let at = choose|at: int| #[trigger]
                before.called_on::<C>(*selector, after, at, r.is_some());
            assert(old(self)@.screen() == before);
            assert(self@.screen() == after);
            assert(old(self)@.screen().called_on::<C>(*selector, self@.screen(), at, r.is_some()));
        }
        r
    }

    /// Runs `action` on the first view of the active screen that has the
    /// identifier `id`.
    pub fn call_on_id<F, R>(&mut self, id: &str, action: F) -> (r: Option<R>) where
        F: FnOnce(&mut V) -> R,

        requires
            old(self).wf(),
            forall|v: &mut V| call_requires(action, (v,)),
        ensures
            final(self).wf(),
            final(self)@ == old(self)@.with_screen(final(self)@.screen()),
            exists|at: int| #[trigger]
                old(self)@.screen().called_on::<C>(
                    Selector::Id(id),
                    final(self)@.screen(),
                    at,
                    r.is_some(),
                ),
            r matches Some(x) ==> exists|v: &mut V| call_ensures(action, (v,), x),
    {
        self.call_on(&Selector::Id(id), action)
    }

    /// Lays the active screen out on a terminal of size `terminal`: the
    /// screen gets what the menu bar leaves, which is all of it while the bar
    /// hides and all but the top row while it does not.
    pub fn layout_in(&mut self, terminal: Vec2)
        requires
            old(self).wf(),
        ensures
            final(self).wf(),
            old(self)@.laid_out(terminal, final(self)@),
    {
        let offset: usize = if self.menubar.autohide() {
            0
        } else {
            1
        };
        let size = terminal.saturating_sub(Vec2::new(0, offset));
        let id = self.active_screen;
        self.screens[id].layout::<C>(size);
        proof {
            self.lemma_screen_changed(*old(self), id as int);
        }
    }
}

impl<V: Widget<C>, B: Backend, C> Cursive<V, B, C> {
    /// Lays the active screen out on the terminal as large as the backend
    /// reports it; see [`Cursive::layout_in`].
    pub fn layout(&mut self)
        requires
            old(self).wf(),
        ensures
            final(self).wf(),
            exists|terminal: Vec2|
                old(self)@.backend.size_reported((terminal.x, terminal.y))
                    && #[trigger] old(self)@.laid_out(terminal, final(self)@),
    {
        let size = self.screen_size();
        self.layout_in(size);
    }

    /// Draws the root on a terminal of size `terminal` and says whether it
    /// cleared the terminal first; see [`CursiveModel::frame_drawn_via`].
    pub fn draw_in(&mut self, terminal: Vec2) -> (cleared: bool)
        requires
            old(self).wf(),
        ensures
            final(self).wf(),
            cleared == old(self)@.must_clear(),
            old(self)@.frame_drawn(terminal, final(self)@),
    {
        let id = self.active_screen;
        let sizes = self.screens[id].layer_sizes();
        let cleared = self.needs_clear || !same_sizes(&self.last_sizes, &sizes);
        if cleared {
            self.clear();
        }
        let ghost wiped = self.backend;
        self.last_sizes = sizes;
        self.needs_clear = false;

        let printer = Printer::new(terminal, &self.theme);
        let selected = self.menubar.receive_events();
        let offset: usize = if self.menubar.autohide() {
            0
        } else {
            1
        };
        let screen_printer = printer.offset(Vec2::new(0, offset), !selected);
        self.screens[id].draw_bg(&screen_printer, &mut self.backend);
        let ghost filled = self.backend;
        if self.menubar.visible() {
            let bar_printer = printer.sub_printer(Vec2::zero(), printer.size, selected);
            let _end: usize = self.menubar.draw(&bar_printer, &mut self.backend);
            assert(bar_printer == old(self)@.menubar_printer(terminal));
        }
        let ghost barred = self.backend;
        self.screens[id].draw_fg::<C, B>(&screen_printer, &mut self.backend);
        proof {
            assert(old(self)@.screen() == self.screens@[id as int]@);
            assert(screen_printer == old(self)@.screen_printer(terminal));
            assert(self@.screens =~= old(self)@.screens);
            assert(old(self)@.frame_drawn_via(terminal, self@, wiped, filled, barred));
        }
        cleared
    }

    /// Draws the root on the terminal as large as the backend reports it;
    /// see [`Cursive::draw_in`].
    pub fn draw(&mut self) -> (cleared: bool)
        requires
            old(self).wf(),
        ensures
            final(self).wf(),
            cleared == old(self)@.must_clear(),
            exists|terminal: Vec2|
                old(self)@.backend.size_reported((terminal.x, terminal.y))
                    && #[trigger] old(self)@.frame_drawn(terminal, final(self)@),
    {
        let size = self.screen_size();
        self.draw_in(size)
    }
}

impl<V, B, C: CbFunc<V, B>> Cursive<V, B, C> {
    /// Runs every callback bound to `event`, in the order in which they
    /// were bound. The event is looked up as it is given: a mouse event is
    /// found only if it was bound at that very position.
    pub fn on_event(&mut self, event: Event)
        requires
            old(self).wf(),
        ensures
            final(self).wf(),
            ran_all(bound_to(old(self)@.global_callbacks, event), old(self)@, final(self)@),
    {
        let callbacks = self.global_callbacks.callbacks_for(event);
        let ghost planned = works(callbacks@);
        let ghost mut states = seq![self@];
        let n: usize = callbacks.len();
        let mut i: usize = 0;
        while i < n
            invariant
                n == callbacks@.len(),
                i <= n,
                self.wf(),
                planned == works(callbacks@),
                run_through(planned.take(i as int), states),
                states.first() == old(self)@,
                states.last() == self@,
            decreases n - i,
        {
            callbacks[i].get().call_box(self);
            proof {
                lemma_run_one_more(planned, i as int, states, self@);
                states = states.push(self@);
            }
            i += 1;
        }
        assert(planned.take(n as int) =~= planned);
    }

    /// Does the work that a view asked for in `result`, if any.
    pub fn process(&mut self, result: EventResult<C>)
        requires
            old(self).wf(),
        ensures
            final(self).wf(),
            old(self)@.processed(result, final(self)@),
    {
        match result {
            EventResult::Consumed(Some(callback)) => {
                callback.get().call_box(self);
            },
            _ => {},
        }
    }

    /// Runs the callbacks that wait in the queue, in the order of their
    /// arrival, until the queue is empty; see [`CursiveModel::drained`]. A
    /// callback that these put in the queue runs in the same drain. An
    /// empty queue ends the drain at once.
    pub fn run_pending(&mut self)
        requires
            old(self).wf(),
        ensures
            final(self).wf(),
            old(self)@.drained(final(self)@),
    {
        let ghost mut states = seq![self@];
        let mut done: usize = 0;
        while self.pending.len() > 0 && done < MAX_DRAINED
            invariant
                self.wf(),
                done <= MAX_DRAINED,
                drained_through(states),
                states.len() == done + 1,
                states.first() == old(self)@,
                states.last() == self@,
            decreases MAX_DRAINED - done,
        {
            let ghost before = self@;
            let work = self.pending.remove(0);
            proof {
                assert(self@.pending =~= before.pending.skip(1));
                assert(self@ == (CursiveModel { pending: before.pending.skip(1), ..before }));
            }
            work.call_box(self);
            done += 1;
            proof {
                lemma_drain_one_more(states, self@);
                states = states.push(self@);
            }
        }
    }
}

impl<V: Widget<C>, B, C: CbFunc<V, B>> Cursive<V, B, C> {
    /// Dispatches `event`; see [`CursiveModel::dispatched`].
    pub fn dispatch(&mut self, event: Event)
        requires
            old(self).wf(),
        ensures
            final(self).wf(),
            old(self)@.dispatched(event, final(self)@),
    {
        if self.menubar.receive_events() {
            let result = self.menubar.on_event(event);
            self.process(result);
        } else {
            let offset: usize = if self.menubar.autohide() {
                0
            } else {
                1
            };
            let id = self.active_screen;
            let result = self.screens[id].on_event(event.relativized(Vec2::new(0, offset)));
            proof {
                self.lemma_screen_changed(*old(self), id as int);
            }
            let ghost routed = self@;
            match result {
                EventResult::Ignored => {
                    self.on_event(event);
                },
                EventResult::Consumed(None) => {},
                EventResult::Consumed(Some(callback)) => {
                    callback.get().call_box(self);
                },
            }
            proof {
                assert(old(self)@.screen().handled(
                    event.relativized(Vec2 { x: 0, y: old(self)@.menubar_rows() }),
                    routed.screen(),
                    result,
                ));
                assert(routed == old(self)@.with_screen(routed.screen()));
                assert(routed.answered(event, result, self@));
            }
        }
    }

    /// Handles `event`: prepares the root for it and dispatches it; see
    /// [`CursiveModel::handled`].
    pub fn handle_event(&mut self, event: Event)
        requires
            old(self).wf(),
        ensures
            final(self).wf(),
            old(self)@.handled(event, final(self)@),
    {
        self.pre_dispatch(event);
        self.dispatch(event);
    }
}

impl<V: Widget<C>, B: Backend, C: CbFunc<V, B>> Cursive<V, B, C> {
    /// Does one tick of the event loop; see [`CursiveModel::ticked_via`].
    pub fn step(&mut self)
        requires
            old(self).wf(),
        ensures
            final(self).wf(),
            old(self)@.ticked(final(self)@),
    {
        self.run_pending();
        let ghost drained = self@;

        self.layout();
        let ghost laid = self@;
        let ghost terminal = choose|terminal: Vec2|
            drained.backend.size_reported((terminal.x, terminal.y)) && #[trigger] drained.laid_out(
                terminal,
                laid,
            );

        let _cleared = self.draw();
        let ghost drawn = self@;
        let ghost frame = choose|frame: Vec2|
            laid.backend.size_reported((frame.x, frame.y)) && #[trigger] laid.frame_drawn(
                frame,
                drawn,
            );
        self.backend.refresh();
        let ghost shown = self.backend;

        let event = self.backend.poll_event();
        let ghost backend = self.backend;
        assert(self@ == (CursiveModel { backend, ..drawn }));

        self.handle_event(event);
        assert(old(self)@.ticked_via(
            self@,
            drained,
            terminal,
            laid,
            frame,
            drawn,
            shown,
            backend,
            event,
        ));
    }

    /// Runs the event loop: starts it and does ticks until `quit` is
    /// called or `max_ticks` ticks are done, whichever comes first. Returns
    /// the number of ticks done.
    ///
    /// After it has returned it can be called again, and starts the loop
    /// anew.
    pub fn run(&mut self, max_ticks: usize) -> (ticks: usize)
        requires
            old(self).wf(),
        ensures
            final(self).wf(),
            ticks <= max_ticks,
            final(self)@.running ==> ticks == max_ticks,
            ran_ticks(ticks as nat, CursiveModel { running: true, ..old(self)@ }, final(self)@),
    {
        self.start();
        let ghost start = self@;
        let ghost mut states = seq![start];
        let mut ticks: usize = 0;
        while self.running && ticks < max_ticks
            invariant
                self.wf(),
                ticks <= max_ticks,
                ticked_through(states),
                states.len() == ticks + 1,
                states.first() == start,
                states.last() == self@,
            decreases max_ticks - ticks,
        {
            assert(self@ == states.last());
            self.step();
            ticks += 1;
            proof {
                lemma_tick_one_more(states, self@);
                states = states.push(self@);
            }
        }
        ticks
    }
}

/// A drain that ends in a root whose first waiting callback gives `next`
/// becomes, with `next` at its end, a drain.
proof fn lemma_drain_one_more<V, B, C: CbFunc<V, B>>(
    states: Seq<CursiveModel<V, B, C>>,
    next: CursiveModel<V, B, C>,
)
    requires
        drained_through(states),
        states.last().drained_one(next),
    ensures
        drained_through(states.push(next)),
{
    let longer = states.push(next);
    assert forall|i: int| 0 <= i < longer.len() - 1 implies #[trigger] drained_at(longer, i) by {
        if i < states.len() - 1 {
            assert(drained_at(states, i));
            assert(longer[i] == states[i]);
            assert(longer[i + 1] == states[i + 1]);
        } else {
            assert(longer[i] == states.last());
            assert(longer[i + 1] == next);
        }
    }
}

/// A run of the event loop that ends in a running root which one more
/// tick turns into `next` becomes, with `next` at its end, a run of the
/// event loop.
proof fn lemma_tick_one_more<V: Widget<C>, B: Backend, C: CbFunc<V, B>>(
    states: Seq<CursiveModel<V, B, C>>,
    next: CursiveModel<V, B, C>,
)
    requires
        ticked_through(states),
        states.last().running,
        states.last().ticked(next),
    ensures
        ticked_through(states.push(next)),
{
    let longer = states.push(next);
    assert forall|i: int| 0 <= i < longer.len() - 1 implies #[trigger] ticked_at(longer, i) by {
        if i < states.len() - 1 {
            assert(ticked_at(states, i));
            assert(longer[i] == states[i]);
            assert(longer[i + 1] == states[i + 1]);
        } else {
            assert(longer[i] == states.last());
            assert(longer[i + 1] == next);
        }
    }
}

/// A run through the first `done` pieces of `works` that ends in a root
/// which piece `done` turns into `next` becomes, with `next` at its end, a
/// run through the first `done + 1` pieces.
proof fn lemma_run_one_more<V, B, C: CbFunc<V, B>>(
    works: Seq<C>,
    done: int,
    states: Seq<CursiveModel<V, B, C>>,
    next: CursiveModel<V, B, C>,
)
    requires
        0 <= done < works.len(),
        run_through(works.take(done), states),
        works[done].runs(states.last(), next),
    ensures
        run_through(works.take(done + 1), states.push(next)),
{
    let longer = states.push(next);
    let more = works.take(done + 1);
    assert forall|i: int| 0 <= i < more.len() implies (#[trigger] more[i]).runs(
        longer[i],
        longer[i + 1],
    ) by {
        if i < done {
            assert(works.take(done)[i] == more[i]);
            assert(works.take(done)[i].runs(states[i], states[i + 1]));
        }
    }
}

/// Whether two lists of sizes are the same.
fn same_sizes(a: &Vec<Vec2>, b: &Vec<Vec2>) -> (same: bool)
    ensures
        same == (a@ == b@),
{
    if a.len() != b.len() {
        return false;
    }
    let n: usize = a.len();
    let mut i: usize = 0;
    while i < n
        invariant
            n == a@.len(),
            n == b@.len(),
            i <= n,
            forall|j: int| 0 <= j < i ==> a@[j] == b@[j],
        decreases n - i,
    {
        if a[i] != b[i] {
            return false;
        }
        i += 1;
    }
    assert(a@ =~= b@);
    true
}

} // verus!
