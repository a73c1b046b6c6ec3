//! What the toolkit asks of a terminal.

use crate::event::Event;
use crate::theme::{Color, ColorPair, Effect};
use vstd::prelude::*;

verus! {

/// The highest refresh rate that a backend accepts, in frames per second.
pub const MAX_REFRESH_RATE: u32 = 1000;

/// A terminal: raw drawing and raw input.
///
/// Each method comes with a relation between the backend before the call,
/// the arguments, the backend after the call and the result. An
/// implementation says in it what it does; the toolkit states through it
/// what it asked of the backend, in which order, and what it made of the
/// answer. A relation that an implementation leaves as it is allows
/// everything: the toolkit takes sizes, colors and events as they come.
///
/// Every method that draws takes the backend exclusively, so that each
/// call leads from one state of the terminal to the next.
///
/// The toolkit calls `set_refresh_rate` only with a rate of at most
/// [`MAX_REFRESH_RATE`].
pub trait Backend {
    /// Whether `init` may return this backend.
    open spec fn started(&self) -> bool {
        true
    }

    /// Whether `finish` may turn `self` into `after`.
    open spec fn finished(&self, after: &Self) -> bool {
        true
    }

    /// Whether `refresh` may turn `self` into `after`.
    open spec fn refreshed(&self, after: &Self) -> bool {
        true
    }

    /// Whether `has_colors` may answer `colors`.
    open spec fn colors_reported(&self, colors: bool) -> bool {
        true
    }

    /// Whether `screen_size` may answer `size`.
    open spec fn size_reported(&self, size: (usize, usize)) -> bool {
        true
    }

    /// Whether `poll_event` may turn `self` into `after` and return
    /// `event`.
    open spec fn polled(&self, after: &Self, event: Event) -> bool {
        true
    }

    /// Whether `print_at` may turn `self` into `after` when given `text`
    /// at `pos`.
    open spec fn printed(&self, pos: (usize, usize), text: Seq<char>, after: &Self) -> bool {
        true
    }

    /// Whether `clear` may turn `self` into `after` when given `color`.
    open spec fn cleared(&self, color: Color, after: &Self) -> bool {
        true
    }

    /// Whether `set_refresh_rate` may turn `self` into `after` when given
    /// `fps`.
    open spec fn rate_set(&self, fps: u32, after: &Self) -> bool {
        true
    }

    /// Whether `set_color` may turn `self` into `after` and answer
    /// `previous` when given `colors`.
    open spec fn color_set(&self, colors: ColorPair, previous: ColorPair, after: &Self) -> bool {
        true
    }

    /// Whether `set_effect`, if `on`, or else `unset_effect` may turn
    /// `self` into `after` when given `effect`.
    open spec fn effect_set(&self, effect: Effect, on: bool, after: &Self) -> bool {
        true
    }

    /// Takes control of the terminal.
    fn init() -> (backend: Box<Self>) where Self: Sized
        ensures
            backend.started(),
    ;

    /// Gives the terminal back. Called once, when the root is finished.
    fn finish(&mut self)
        ensures
            old(self).finished(final(self)),
    ;

    /// Shows what was printed since the last call.
    fn refresh(&mut self)
        ensures
            old(self).refreshed(final(self)),
    ;

    /// Whether the terminal can show colors.
    fn has_colors(&self) -> (colors: bool)
        ensures
            self.colors_reported(colors),
    ;

    /// The size of the terminal, as columns and rows.
    fn screen_size(&self) -> (size: (usize, usize))
        ensures
            self.size_reported(size),
    ;

    /// Waits for the next input event. With a refresh rate above zero it
    /// may return [`Event::Refresh`] when nothing arrived in time.
    fn poll_event(&mut self) -> (event: Event)
        ensures
            old(self).polled(final(self), event),
    ;

    /// Prints `text` starting at the cell `pos`, given as column and row.
    fn print_at(&mut self, pos: (usize, usize), text: &str)
        ensures
            old(self).printed(pos, text@, final(self)),
    ;

    /// Fills the whole terminal with `color`.
    fn clear(&mut self, color: Color)
        ensures
            old(self).cleared(color, final(self)),
    ;

    /// Sets how often `poll_event` gives up waiting, in frames per second;
    /// zero means never.
    fn set_refresh_rate(&mut self, fps: u32)
        requires
            fps <= MAX_REFRESH_RATE,
        ensures
            old(self).rate_set(fps, final(self)),
    ;

    /// Sets the colors for what is printed next and returns the colors
    /// that were set before.
    fn set_color(&mut self, colors: ColorPair) -> (previous: ColorPair)
        ensures
            old(self).color_set(colors, previous, final(self)),
    ;

    /// Switches a text effect on.
    fn set_effect(&mut self, effect: Effect)
        ensures
            old(self).effect_set(effect, true, final(self)),
    ;

    /// Switches a text effect off.
    fn unset_effect(&mut self, effect: Effect)
        ensures
            old(self).effect_set(effect, false, final(self)),
    ;
}

} // verus!
