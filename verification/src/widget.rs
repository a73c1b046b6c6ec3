//! What every view of the tree can do.

use crate::backend::Backend;
use crate::event::{Event, EventResult};
use crate::geometry::Vec2;
use crate::printer::Printer;
use vstd::prelude::*;

verus! {

/// Where the focus comes from when a view is asked to take it.
#[derive(Clone, Copy, Debug, PartialEq, Eq, Structural, Hash)]
pub enum Direction {
    /// From nowhere in particular.
    Unset,
    /// From the view before this one.
    Front,
    /// From the view after this one.
    Back,
    /// From above.
    Up,
    /// From below.
    Down,
    /// From the left.
    Left,
    /// From the right.
    Right,
}

impl Direction {
    /// The focus comes from nowhere in particular.
    pub fn none() -> (d: Direction)
        ensures
            d == Direction::Unset,
    {
        Direction::Unset
    }
}

/// Names a view somewhere in the tree.
#[derive(Clone, Copy, Debug)]
pub enum Selector<'a> {
    /// The view that was given this identifier.
    Id(&'a str),
}

/// A view: a leaf or a container of other views.
///
/// Each method that may change the view comes with a relation between the
/// view before the call, the arguments, the view after the call and the
/// result. An implementation says in it what it does; a container states
/// through it what it handed to its children and what became of their
/// answers. A relation that an implementation leaves as it is allows
/// everything.
pub trait Widget<C>: Sized {
    /// Whether `draw` through `printer` may turn the backend `before` into
    /// the backend `after`.
    open spec fn drawn<B>(&self, printer: &Printer, before: &B, after: &B) -> bool {
        true
    }

    /// Whether `layout` may turn `self` into `after` when given `size`.
    open spec fn laid_out(&self, size: Vec2, after: &Self) -> bool {
        true
    }

    /// Whether `needs_relayout` may answer `needed`.
    open spec fn relayout_reported(&self, needed: bool) -> bool {
        true
    }

    /// Whether `required_size` may turn `self` into `after` and answer
    /// `size` when asked under `constraint`.
    open spec fn sized(&self, constraint: Vec2, after: &Self, size: Vec2) -> bool {
        true
    }

    /// Whether `on_event` may turn `self` into `after` and answer `result`
    /// when given `event`.
    open spec fn handled(&self, event: Event, after: &Self, result: EventResult<C>) -> bool {
        true
    }

    /// Whether `take_focus` may turn `self` into `after` and answer
    /// `accepted` when the focus comes from `source`.
    open spec fn focus_taken(&self, source: Direction, after: &Self, accepted: bool) -> bool {
        true
    }

    /// Whether `focus_view` may turn `self` into `after` and answer
    /// `found` when asked for `selector`.
    open spec fn focus_moved(&self, selector: Selector, after: &Self, found: bool) -> bool {
        true
    }

    /// Whether the view may say `found` when asked if it, or a view below
    /// it, answers to `selector`.
    open spec fn looked_up(&self, selector: Selector, found: bool) -> bool {
        true
    }

    /// Draws the view on `backend` through `printer`. Does not change the
    /// view.
    fn draw<B: Backend>(&self, printer: &Printer, backend: &mut B)
        ensures
            self.drawn(printer, old(backend), final(backend)),
    ;

    /// Tells the view its final size.
    fn layout(&mut self, size: Vec2)
        ensures
            old(self).laid_out(size, final(self)),
    ;

    /// Whether the view has changed so that it must be laid out again. A
    /// view that cannot tell may always say so.
    fn needs_relayout(&self) -> (needed: bool)
        ensures
            self.relayout_reported(needed),
    ;

    /// Asks the view how large it wants to be, given at most `constraint`.
    fn required_size(&mut self, constraint: Vec2) -> (size: Vec2)
        ensures
            old(self).sized(constraint, final(self), size),
    ;

    /// Hands the view an event.
    fn on_event(&mut self, event: Event) -> (result: EventResult<C>)
        ensures
            old(self).handled(event, final(self), result),
    ;

    /// Offers the view the focus; the answer says whether it took it.
    fn take_focus(&mut self, source: Direction) -> (accepted: bool)
        ensures
            old(self).focus_taken(source, final(self), accepted),
    ;

    /// Moves the focus to the view that `selector` names. Fails if there
    /// is no such view.
    fn focus_view(&mut self, selector: &Selector) -> (found: Result<(), ()>)
        ensures
            old(self).focus_moved(*selector, final(self), found is Ok),
    ;

    /// Whether the view, or a view below it, answers to `selector`.
    fn contains(&self, selector: &Selector) -> (found: bool)
        ensures
            self.looked_up(*selector, found),
    ;

    /// Runs `action` on the first view, in child order, that answers to
    /// `selector`, and returns what it returned; `None`, with `action` not
    /// run, if there is no such view. A value that comes back is one that
    /// `action` returned for some view.
    fn call_on_any<F, R>(&mut self, selector: &Selector, action: F) -> (r: Option<R>) where
        F: FnOnce(&mut Self) -> R,

        requires
            forall|v: &mut Self| call_requires(action, (v,)),
        ensures
            old(self).looked_up(*selector, r.is_some()),
            r matches Some(x) ==> exists|v: &mut Self| call_ensures(action, (v,), x),
    ;
}

} // verus!
