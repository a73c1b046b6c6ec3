//! Input events and what a view answers to one.

use crate::geometry::Vec2;
use std::rc::Rc;
use vstd::prelude::*;

verus! {

/// A key that does not print by itself.
#[derive(Clone, Copy, Debug, PartialEq, Eq, Structural, Hash)]
pub enum Key {
    Enter,
    Tab,
    Backspace,
    Esc,
    Left,
    Right,
    Up,
    Down,
    Ins,
    Del,
    Home,
    End,
    PageUp,
    PageDown,
    /// A function key, by its number.
    F(u8),
}

/// A button of the mouse.
#[derive(Clone, Copy, Debug, PartialEq, Eq, Structural, Hash)]
pub enum MouseButton {
    Left,
    Middle,
    Right,
}

/// What the mouse did.
#[derive(Clone, Copy, Debug, PartialEq, Eq, Structural, Hash)]
pub enum MouseEvent {
    Press(MouseButton),
    Release(MouseButton),
    Hold(MouseButton),
    WheelUp,
    WheelDown,
}

/// The modifier keys held while a mouse event happened.
#[derive(Clone, Copy, Debug, PartialEq, Eq, Structural, Hash)]
pub struct Modifiers {
    pub shift: bool,
    pub ctrl: bool,
    pub alt: bool,
}

/// One input event, as the backend reports it.
///
/// Two events are equal when they are the same variant with the same
/// fields, so two mouse events at different positions differ.
#[derive(Clone, Copy, Debug, PartialEq, Eq, Structural, Hash)]
pub enum Event {
    /// A printable character.
    Char(char),
    /// A character with Ctrl held.
    CtrlChar(char),
    /// A character with Alt held.
    AltChar(char),
    /// A named key.
    Key(Key),
    /// A named key with Shift held.
    Shift(Key),
    /// A named key with Alt held.
    Alt(Key),
    /// A named key with Alt and Shift held.
    AltShift(Key),
    /// A named key with Ctrl held.
    Ctrl(Key),
    /// A named key with Ctrl and Shift held.
    CtrlShift(Key),
    /// A named key with Ctrl and Alt held.
    CtrlAlt(Key),
    /// The mouse did something at `position`.
    Mouse { event: MouseEvent, position: Vec2, modifiers: Modifiers },
    /// The terminal changed its size.
    WindowResize,
    /// No input arrived within the refresh interval.
    Refresh,
    /// The user asked the application to end.
    Exit,
}

impl Modifiers {
    /// No modifier held.
    pub fn none() -> (m: Modifiers)
        ensures
            m == (Modifiers { shift: false, ctrl: false, alt: false }),
    {
        Modifiers { shift: false, ctrl: false, alt: false }
    }
}

impl MouseEvent {
    /// Whether this is the press of a button.
    pub open spec fn spec_grabs_focus(self) -> bool {
        self is Press
    }

    /// Whether the event moves the focus to what lies under the mouse:
    /// exactly the presses do.
    #[verifier::when_used_as_spec(spec_grabs_focus)]
    pub fn grabs_focus(self) -> (b: bool)
        ensures
            b == self.spec_grabs_focus(),
    {
        match self {
            MouseEvent::Press(_) => true,
            _ => false,
        }
    }
}

impl Event {
    /// The position of a mouse event; `None` for every other event.
    pub open spec fn spec_mouse_position(self) -> Option<Vec2> {
        match self {
            Event::Mouse { position, .. } => Some(position),
            _ => None,
        }
    }

    /// The event seen from a frame whose top-left corner is `top_left`.
    pub open spec fn spec_relativized(self, top_left: Vec2) -> Event {
        match self {
            Event::Mouse { event, position, modifiers } => Event::Mouse {
                event,
                position: position.saturating_sub(top_left),
                modifiers,
            },
            other => other,
        }
    }

    /// The event seen from the frame that contains this one at `top_left`.
    pub open spec fn spec_absolutized(self, top_left: Vec2) -> Event {
        match self {
            Event::Mouse { event, position, modifiers } => Event::Mouse {
                event,
                position: position.saturating_add(top_left),
                modifiers,
            },
            other => other,
        }
    }

    /// The position of a mouse event; `None` for every other event.
    #[verifier::when_used_as_spec(spec_mouse_position)]
    pub fn mouse_position(self) -> (p: Option<Vec2>)
        ensures
            p == self.spec_mouse_position(),
    {
        match self {
            Event::Mouse { position, .. } => Some(position),
            _ => None,
        }
    }

    /// Moves a mouse event into the coordinates of a child whose top-left
    /// corner is `top_left`: the offset is subtracted from the position and
    /// a component that would fall below zero becomes zero. Every other event
    /// is returned as it is.
    #[verifier::when_used_as_spec(spec_relativized)]
    pub fn relativized(self, top_left: Vec2) -> (e: Event)
        ensures
            e == self.spec_relativized(top_left),
    {
        match self {
            Event::Mouse { event, position, modifiers } => Event::Mouse {
                event,
                position: position.saturating_sub(top_left),
                modifiers,
            },
            other => other,
        }
    }

    /// The way back from `relativized`: moves a mouse event out of a child
    /// whose top-left corner is `top_left`, adding the offset to the position
    /// (a component stops at the largest `usize`). Every other event is
    /// returned as it is.
    #[verifier::when_used_as_spec(spec_absolutized)]
    pub fn absolutized(self, top_left: Vec2) -> (e: Event)
        ensures
            e == self.spec_absolutized(top_left),
    {
        match self {
            Event::Mouse { event, position, modifiers } => Event::Mouse {
                event,
                position: position.saturating_add(top_left),
                modifiers,
            },
            other => other,
        }
    }
}

impl From<char> for Event {
    /// The event of typing `c`.
    fn from(c: char) -> (e: Event) {
        Event::Char(c)
    }
}

impl vstd::std_specs::convert::FromSpecImpl<char> for Event {
    open spec fn obeys_from_spec() -> bool {
        true
    }

    open spec fn from_spec(c: char) -> Event {
        Event::Char(c)
    }
}

impl From<Key> for Event {
    /// The event of pressing `key` with no modifier.
    fn from(key: Key) -> (e: Event) {
        Event::Key(key)
    }
}

impl vstd::std_specs::convert::FromSpecImpl<Key> for Event {
    open spec fn obeys_from_spec() -> bool {
        true
    }

    open spec fn from_spec(key: Key) -> Event {
        Event::Key(key)
    }
}

/// An event that is not a mouse event is the same in every frame.
pub proof fn lemma_relativized_identity(e: Event, d: Vec2)
    requires
        !(e is Mouse),
    ensures
        e.relativized(d) == e,
        e.absolutized(d) == e,
{
}

/// Moving a mouse event into a child frame and back out gives the event
/// back, provided it lay inside the child frame: its position is at least
/// the offset in both components.
pub proof fn lemma_relativized_round_trip(e: Event, d: Vec2)
    requires
        e.mouse_position() matches Some(p) ==> d.fits_in(p),
    ensures
        e.relativized(d).absolutized(d) == e,
{
}

/// Moving a mouse event out of a child frame and back in gives the event
/// back, provided the outer position is representable.
pub proof fn lemma_absolutized_round_trip(e: Event, d: Vec2)
    requires
        e.mouse_position() matches Some(p) ==> p.x + d.x <= usize::MAX && p.y + d.y <= usize::MAX,
    ensures
        e.absolutized(d).relativized(d) == e,
{
}

/// Shares one reference-counted value between two owners.
///
/// Wraps `std::rc::Rc::clone`, which hands out another pointer to the
/// same allocation: the value behind the new pointer is the value behind
/// the old one.
#[verifier::external_body]
fn rc_clone<T>(rc: &Rc<T>) -> (other: Rc<T>)
    ensures
        other == *rc,
{
    Rc::clone(rc)
}

/// A shareable unit of work of type `C`, to be run against the root.
///
/// The same callback can be handed out any number of times; every copy
/// stands for the same work.
pub struct Callback<C> {
    work: Rc<C>,
}

impl<C> View for Callback<C> {
    type V = C;

    closed spec fn view(&self) -> C {
        *self.work
    }
}

impl<C> Callback<C> {
    /// Wraps `work` so that it can be shared.
    pub fn from_fn(work: C) -> (cb: Callback<C>)
        ensures
            cb@ == work,
    {
        Callback { work: Rc::new(work) }
    }

    /// The work itself.
    pub fn get(&self) -> (work: &C)
        ensures
            *work == self@,
    {
        &*self.work
    }
}

impl<C> Clone for Callback<C> {
    /// Another handle on the same work.
    fn clone(&self) -> (cb: Callback<C>)
        ensures
            cb == *self,
    {
        Callback { work: rc_clone(&self.work) }
    }
}

/// The answer of a view to an event.
pub enum EventResult<C> {
    /// The view has no use for the event; the next handler may have it.
    Ignored,
    /// The view took the event, and may ask for work to be done on the root
    /// once the view itself is no longer borrowed.
    Consumed(Option<Callback<C>>),
}

impl<C> EventResult<C> {
    /// A consumed event with work to do on the root.
    pub fn with_cb(work: C) -> (r: EventResult<C>)
        ensures
            r matches EventResult::Consumed(Some(cb)) && cb@ == work,
    {
        EventResult::Consumed(Some(Callback::from_fn(work)))
    }

    /// Whether the view took the event.
    pub open spec fn spec_is_consumed(&self) -> bool {
        self is Consumed
    }

    /// Whether the view took the event.
    #[verifier::when_used_as_spec(spec_is_consumed)]
    pub fn is_consumed(&self) -> (b: bool)
        ensures
            b == self.spec_is_consumed(),
    {
        match self {
            EventResult::Consumed(_) => true,
            EventResult::Ignored => false,
        }
    }

    /// The work that the view asked for, if any.
    pub open spec fn deferred(self) -> Option<C> {
        match self {
            EventResult::Consumed(Some(cb)) => Some(cb@),
            _ => None,
        }
    }
}

} // verus!
