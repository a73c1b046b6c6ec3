//! The drawing context handed to a view: where it may print, and how.

use crate::backend::Backend;
use crate::geometry::{least, Vec2};
use crate::theme::Theme;
use vstd::prelude::*;
use vstd::string::StrSliceExecFns;

verus! {

/// A window onto the terminal.
///
/// A view prints in its own coordinates; the printer adds `offset` and cuts
/// off what falls outside `size`. The backend that is printed on is handed
/// over with each call.
pub struct Printer<'a> {
    /// Where the window starts on the terminal.
    pub offset: Vec2,
    /// How large the window is.
    pub size: Vec2,
    /// Whether the view that prints here has the focus.
    pub focused: bool,
    /// The theme in use.
    pub theme: &'a Theme,
}

impl<'a> Printer<'a> {
    /// The window of `self` that starts at `offset` and is at most `size`
    /// large: the start is moved back inside `self` where it lies outside,
    /// the size is cut to what is left from there, and the window is focused
    /// only if `self` is.
    pub open spec fn spec_sub_printer(&self, offset: Vec2, size: Vec2, focused: bool) -> Printer<
        'a,
    > {
        let start = offset.min(self.size);
        Printer {
            offset: self.offset.saturating_add(start),
            size: self.size.saturating_sub(start).min(size),
            focused: self.focused && focused,
            theme: self.theme,
        }
    }

    /// How many cells of the row of `pos` lie inside the window from `pos`
    /// on: none where `pos` is outside the window.
    pub open spec fn spec_room(&self, pos: Vec2) -> usize {
        if pos.x < self.size.x && pos.y < self.size.y {
            (self.size.x - pos.x) as usize
        } else {
            0
        }
    }

    /// The cell of the terminal that `pos`, a cell of the window, is.
    pub open spec fn target(&self, pos: Vec2) -> (usize, usize) {
        (self.offset.saturating_add(pos).x, self.offset.saturating_add(pos).y)
    }

    /// As much of `text` as fits in the window when it is printed at
    /// `pos`.
    pub open spec fn visible(&self, pos: Vec2, text: Seq<char>) -> Seq<char> {
        text.take(least(self.spec_room(pos) as int, text.len() as int))
    }

    /// A printer over the whole terminal of size `size`, focused.
    pub fn new(size: Vec2, theme: &'a Theme) -> (p: Printer<'a>)
        ensures
            p.offset == Vec2::zero(),
            p.size == size,
            p.focused,
            p.theme == theme,
    {
        Printer { offset: Vec2::zero(), size, focused: true, theme }
    }

    /// A printer for a part of this one; see [`Printer::spec_sub_printer`].
    #[verifier::when_used_as_spec(spec_sub_printer)]
    pub fn sub_printer(&self, offset: Vec2, size: Vec2, focused: bool) -> (p: Printer<'a>)
        ensures
            p == self.spec_sub_printer(offset, size, focused),
    {
        let start = offset.min(self.size);
        Printer {
            offset: self.offset.saturating_add(start),
            size: self.size.saturating_sub(start).min(size),
            focused: self.focused && focused,
            theme: self.theme,
        }
    }

    /// A printer that starts `offset` further in and reaches as far as this
    /// one does.
    pub fn offset(&self, offset: Vec2, focused: bool) -> (p: Printer<'a>)
        ensures
            p == self.spec_sub_printer(offset, self.size, focused),
    {
        self.sub_printer(offset, self.size, focused)
    }

    /// How many cells can be printed on the row of `pos`, from `pos` on.
    #[verifier::when_used_as_spec(spec_room)]
    pub fn room(&self, pos: Vec2) -> (n: usize)
        ensures
            n == self.spec_room(pos),
    {
        if pos.x < self.size.x && pos.y < self.size.y {
            self.size.x - pos.x
        } else {
            0
        }
    }
}

impl<'a> Printer<'a> {
    /// What `print` does to the backend: what is visible of `text` when
    /// printed at `pos` is handed to the backend in one piece, at the cell
    /// of the terminal that `pos` is. Where nothing is visible the backend
    /// is left alone.
    pub open spec fn shows<B: Backend>(&self, before: B, pos: Vec2, text: Seq<char>, after: B) -> bool {
        if self.visible(pos, text).len() > 0 {
            before.printed(self.target(pos), self.visible(pos, text), &after)
        } else {
            after == before
        }
    }

    /// Prints `text` on `backend` at `pos`, in the window's coordinates,
    /// cut off at the window's right edge; see [`Printer::shows`]. Returns
    /// how many characters were printed: all of `text` if there is room,
    /// else as many as fit; none if `pos` lies outside the window.
    pub fn print<B: Backend>(&self, backend: &mut B, pos: Vec2, text: &str) -> (printed: usize)
        ensures
            printed == self.visible(pos, text@).len(),
            self.shows(*old(backend), pos, text@, *final(backend)),
    {
        let room: usize = self.room(pos);
        let len: usize = text.unicode_len();
        let count: usize = if len <= room {
            len
        } else {
            room
        };
        if count > 0 {
            let at = self.offset.saturating_add(pos);
            backend.print_at((at.x, at.y), text.substring_char(0, count));
        }
        count
    }
}

} // verus!
