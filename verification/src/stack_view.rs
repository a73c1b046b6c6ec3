//! A screen: layers laid over one another, the last one on top.

use crate::backend::Backend;
use crate::event::{Event, EventResult};
use crate::geometry::{least, Vec2};
use crate::printer::Printer;
use crate::theme::{ColorPair, PaletteColor, Theme};
use crate::widget::{Direction, Selector, Widget};
use vstd::prelude::*;
use vstd::string::StringExecFns;

verus! {

/// Where a layer stands along one axis.
#[derive(Clone, Copy, Debug, PartialEq, Eq, Structural, Hash)]
pub enum Offset {
    /// In the middle of the space.
    Center,
    /// This many cells from the start of the space.
    Absolute(usize),
}

/// Where a layer stands on the screen.
#[derive(Clone, Copy, Debug, PartialEq, Eq, Structural, Hash)]
pub struct Position {
    pub x: Offset,
    pub y: Offset,
}

/// How a layer is placed.
#[derive(Clone, Copy, Debug, PartialEq, Eq, Structural, Hash)]
pub enum Placement {
    /// At a position, with the size that the view asks for.
    Floating(Position),
    /// Over the whole screen.
    Fullscreen,
}

/// Names a layer by counting from one end of the stack.
#[derive(Clone, Copy, Debug, PartialEq, Eq, Structural, Hash)]
pub enum LayerPosition {
    /// Counted from the bottom, which is layer 0.
    FromBack(usize),
    /// Counted from the top, which is layer 0.
    FromFront(usize),
}

/// One layer of a screen.
pub struct Layer<V> {
    /// The view shown in this layer.
    pub view: V,
    /// The size that the last layout gave the view.
    pub size: Vec2,
    /// How the layer is placed.
    pub placement: Placement,
    /// Whether the layer has not been laid out yet.
    pub virgin: bool,
}

/// The model of a [`StackView`].
pub struct StackModel<V> {
    /// The layers, bottom first.
    pub layers: Seq<Layer<V>>,
    /// The size that the last layout was given.
    pub last_size: Vec2,
}

/// A stack of layers. Only the top layer receives events.
pub struct StackView<V> {
    layers: Vec<Layer<V>>,
    last_size: Vec2,
}

impl Offset {
    /// The start of a thing `size` long in a space `available` long: zero
    /// if the thing does not fit; else the middle, or the absolute offset
    /// pulled back so that the thing ends inside the space.
    pub open spec fn spec_compute_offset(self, size: usize, available: usize) -> usize {
        if size > available {
            0
        } else {
            match self {
                Offset::Center => ((available - size) / 2) as usize,
                Offset::Absolute(offset) => least(offset as int, available - size) as usize,
            }
        }
    }

    /// Computes where a thing `size` long starts in a space `available`
    /// long.
    #[verifier::when_used_as_spec(spec_compute_offset)]
    pub fn compute_offset(self, size: usize, available: usize) -> (start: usize)
        ensures
            start == self.spec_compute_offset(size, available),
    {
        if size > available {
            0
        } else {
            match self {
                Offset::Center => (available - size) / 2,
                Offset::Absolute(offset) => if offset <= available - size {
                    offset
                } else {
                    available - size
                },
            }
        }
    }
}

impl Position {
    /// The middle of the screen.
    pub open spec fn spec_center() -> Position {
        Position { x: Offset::Center, y: Offset::Center }
    }

    /// The top-left corner of a thing of `size` in a space of `available`.
    pub open spec fn spec_compute_offset(self, size: Vec2, available: Vec2) -> Vec2 {
        Vec2 {
            x: self.x.compute_offset(size.x, available.x),
            y: self.y.compute_offset(size.y, available.y),
        }
    }

    /// The middle of the screen.
    #[verifier::when_used_as_spec(spec_center)]
    pub fn center() -> (p: Position)
        ensures
            p == Position::spec_center(),
    {
        Position { x: Offset::Center, y: Offset::Center }
    }

    /// Computes the top-left corner of a thing of `size` in a space of
    /// `available`.
    #[verifier::when_used_as_spec(spec_compute_offset)]
    pub fn compute_offset(self, size: Vec2, available: Vec2) -> (corner: Vec2)
        ensures
            corner == self.spec_compute_offset(size, available),
    {
        Vec2 {
            x: self.x.compute_offset(size.x, available.x),
            y: self.y.compute_offset(size.y, available.y),
        }
    }
}

impl Placement {
    /// The top-left corner of a layer of `size` on a screen of
    /// `available`: the corner of the screen for a layer that covers it.
    pub open spec fn spec_compute_offset(self, size: Vec2, available: Vec2) -> Vec2 {
        match self {
            Placement::Floating(position) => position.compute_offset(size, available),
            Placement::Fullscreen => Vec2::zero(),
        }
    }

    /// Computes the top-left corner of a layer of `size` on a screen of
    /// `available`.
    #[verifier::when_used_as_spec(spec_compute_offset)]
    pub fn compute_offset(self, size: Vec2, available: Vec2) -> (corner: Vec2)
        ensures
            corner == self.spec_compute_offset(size, available),
    {
        match self {
            Placement::Floating(position) => position.compute_offset(size, available),
            Placement::Fullscreen => Vec2::zero(),
        }
    }
}

impl LayerPosition {
    /// The index, bottom first, of the layer named in a stack of `len`
    /// layers; `None` if the stack has no such layer.
    pub open spec fn spec_index(self, len: usize) -> Option<usize> {
        match self {
            LayerPosition::FromBack(i) => if i < len {
                Some(i)
            } else {
                None
            },
            LayerPosition::FromFront(i) => if i < len {
                Some((len - i - 1) as usize)
            } else {
                None
            },
        }
    }

    /// Finds the index, bottom first, of the layer named.
    #[verifier::when_used_as_spec(spec_index)]
    pub fn index(self, len: usize) -> (at: Option<usize>)
        ensures
            at == self.spec_index(len),
    {
        match self {
            LayerPosition::FromBack(i) => if i < len {
                Some(i)
            } else {
                None
            },
            LayerPosition::FromFront(i) => if i < len {
                Some(len - i - 1)
            } else {
                None
            },
        }
    }
}

impl<V> Layer<V> {
    /// A layer that was not laid out yet.
    pub open spec fn fresh(view: V, placement: Placement) -> Layer<V> {
        Layer { view, size: Vec2::zero(), placement, virgin: true }
    }

    /// The same layer around another view.
    pub open spec fn with_view(self, view: V) -> Layer<V> {
        Layer { view, size: self.size, placement: self.placement, virgin: self.virgin }
    }

    /// The same layer at another place; a layer that covers the screen
    /// stays as it is.
    pub open spec fn moved_to(self, position: Position) -> Layer<V> {
        match self.placement {
            Placement::Floating(_) => Layer {
                view: self.view,
                size: self.size,
                placement: Placement::Floating(position),
                virgin: self.virgin,
            },
            Placement::Fullscreen => self,
        }
    }

    /// What `layout` does to one layer on a screen of `size`, with the
    /// steps in between named: `asked` is the view after it was asked for
    /// its size, `wanted` what it answered, `placed` the view after it was
    /// told its size.
    ///
    /// A floating layer is asked for its size under `size` and gets the
    /// smaller of the two; a layer that covers the screen is not asked and
    /// gets `size`. The view is told its size. A layer laid out for the first
    /// time is then offered the focus.
    pub open spec fn laid_out_via<C>(
        self,
        size: Vec2,
        after: Layer<V>,
        asked: V,
        wanted: Vec2,
        placed: V,
    ) -> bool where V: Widget<C> {
        &&& match self.placement {
            Placement::Floating(_) => self.view.sized(size, &asked, wanted) && after.size
                == size.min(wanted),
            Placement::Fullscreen => asked == self.view && after.size == size,
        }
        &&& asked.laid_out(after.size, &placed)
        &&& if self.virgin {
            exists|accepted: bool| #[trigger]
                placed.focus_taken(Direction::Unset, &after.view, accepted)
        } else {
            after.view == placed
        }
        &&& after.placement == self.placement
        &&& !after.virgin
    }

    /// What `layout` does to one layer on a screen of `size`; see
    /// [`Layer::laid_out_via`].
    pub open spec fn laid_out<C>(self, size: Vec2, after: Layer<V>) -> bool where V: Widget<C> {
        exists|asked: V, wanted: Vec2, placed: V| #[trigger]
            self.laid_out_via::<C>(size, after, asked, wanted, placed)
    }
}

impl<V> StackModel<V> {
    /// The top-left corner of layer `i` on the screen as it was last laid
    /// out.
    pub open spec fn offset_of(self, i: int) -> Vec2 {
        self.layers[i].placement.compute_offset(self.layers[i].size, self.last_size)
    }

    /// The printer that layer `i` is drawn through when the stack is drawn
    /// through `printer`: the part of `printer` where the layer is placed,
    /// focused only for the top layer.
    pub open spec fn layer_printer<'a>(self, printer: Printer<'a>, i: int) -> Printer<'a> {
        printer.sub_printer(
            self.layers[i].placement.compute_offset(self.layers[i].size, printer.size),
            self.layers[i].size,
            i + 1 == self.layers.len(),
        )
    }

    /// Whether `states` are the states of the backend that `draw_fg` goes
    /// through: one before each layer and one after the last. The layers are
    /// drawn bottom first, each through its own part of `printer`.
    pub open spec fn drawn_fg_via<C, B>(self, printer: Printer, states: Seq<B>) -> bool where
        V: Widget<C>,
     {
        &&& states.len() == self.layers.len() + 1
        &&& forall|i: int|
            0 <= i < self.layers.len() ==> (#[trigger] self.layers[i]).view.drawn(
                &self.layer_printer(printer, i),
                &states[i],
                &states[i + 1],
            )
    }

    /// What `draw_fg` does to the backend: every layer is drawn once,
    /// bottom first, and nothing else is done.
    pub open spec fn drawn_fg<C, B>(self, printer: Printer, before: B, after: B) -> bool where
        V: Widget<C>,
     {
        exists|states: Seq<B>|
            #[trigger] self.drawn_fg_via::<C, B>(printer, states) && states.first() == before
                && states.last() == after
    }

    /// The sizes of the layers, bottom first.
    pub open spec fn layer_sizes(self) -> Seq<Vec2> {
        Seq::new(self.layers.len(), |i: int| self.layers[i].size)
    }

    /// Whether `at` is the index of the first layer, bottom first, that
    /// said it answers to `selector`, or the number of layers where none
    /// said so.
    pub open spec fn first_with<C>(self, selector: Selector, at: int) -> bool where V: Widget<C> {
        &&& 0 <= at <= self.layers.len()
        &&& forall|i: int|
            0 <= i < at ==> (#[trigger] self.layers[i]).view.looked_up(selector, false)
        &&& at < self.layers.len() ==> self.layers[at].view.looked_up(selector, true)
    }

    /// What `call_on` does: the first layer that said it answers to
    /// `selector`, which is layer `at`, was handed the action and `ran` says
    /// whether it ran it; no other layer changed.
    pub open spec fn called_on<C>(
        self,
        selector: Selector,
        after: StackModel<V>,
        at: int,
        ran: bool,
    ) -> bool where V: Widget<C> {
        &&& self.first_with::<C>(selector, at)
        &&& after.last_size == self.last_size
        &&& if at < self.layers.len() {
            &&& after.layers == self.layers.update(
                at,
                self.layers[at].with_view(after.layers[at].view),
            )
            &&& self.layers[at].view.looked_up(selector, ran)
        } else {
            after.layers == self.layers && !ran
        }
    }

    /// What `layout` does: every layer is laid out on a screen of `size`.
    pub open spec fn laid_out<C>(self, size: Vec2, after: StackModel<V>) -> bool where
        V: Widget<C>,
     {
        &&& after.last_size == size
        &&& after.layers.len() == self.layers.len()
        &&& forall|i: int|
            0 <= i < self.layers.len() ==> #[trigger] self.layers[i].laid_out::<C>(
                size,
                after.layers[i],
            )
    }

    /// What `on_event` does: the top layer, and no other, gets the event
    /// in its own coordinates and its answer is handed on; an empty stack
    /// ignores the event.
    pub open spec fn handled<C>(self, event: Event, after: StackModel<V>, result: EventResult<C>) -> bool where
        V: Widget<C>,
     {
        if self.layers.len() == 0 {
            after == self && result is Ignored
        } else {
            let top = self.layers.len() - 1;
            &&& after.last_size == self.last_size
            &&& after.layers == self.layers.update(
                top,
                self.layers[top].with_view(after.layers[top].view),
            )
            &&& self.layers[top].view.handled(
                event.relativized(self.offset_of(top)),
                &after.layers[top].view,
                result,
            )
        }
    }

    /// What `take_focus` does: the top layer, and no other, is offered the
    /// focus; an empty stack declines.
    pub open spec fn focus_taken<C>(self, source: Direction, after: StackModel<V>, accepted: bool) -> bool where
        V: Widget<C>,
     {
        if self.layers.len() == 0 {
            after == self && !accepted
        } else {
            let top = self.layers.len() - 1;
            &&& after.last_size == self.last_size
            &&& after.layers == self.layers.update(
                top,
                self.layers[top].with_view(after.layers[top].view),
            )
            &&& self.layers[top].view.focus_taken(source, &after.layers[top].view, accepted)
        }
    }

    /// What `focus_view` does: the layers are asked bottom first until one
    /// finds the view; `tried` layers were asked, the last of them with
    /// success if `found`. The layers above are untouched.
    pub open spec fn focus_moved<C>(
        self,
        selector: Selector,
        after: StackModel<V>,
        found: bool,
        tried: int,
    ) -> bool where V: Widget<C> {
        &&& after.last_size == self.last_size
        &&& after.layers.len() == self.layers.len()
        &&& 0 <= tried <= self.layers.len()
        &&& if found {
            tried >= 1
        } else {
            tried == self.layers.len()
        }
        &&& forall|i: int|
            0 <= i < tried ==> {
                &&& #[trigger] after.layers[i] == self.layers[i].with_view(after.layers[i].view)
                &&& self.layers[i].view.focus_moved(
                    selector,
                    &after.layers[i].view,
                    found && i == tried - 1,
                )
            }
        &&& forall|i: int|
            tried <= i < self.layers.len() ==> #[trigger] after.layers[i] == self.layers[i]
    }
}

/// The colors of the background: the primary color of `theme` on its
/// background color.
pub open spec fn background_colors(theme: Theme) -> ColorPair {
    ColorPair {
        front: theme.palette.color(PaletteColor::Primary),
        back: theme.palette.color(PaletteColor::Background),
    }
}

/// A row of `width` blanks.
pub open spec fn blanks(width: usize) -> Seq<char> {
    Seq::new(width as nat, |i: int| ' ')
}

/// Whether `states` are the states of the backend while the rows of the
/// window of `printer` are filled with blanks, top row first: one state
/// before each row and one after the last.
pub open spec fn rows_filled<B: Backend>(printer: Printer, states: Seq<B>) -> bool {
    &&& states.len() == printer.size.y + 1
    &&& forall|y: int| 0 <= y < printer.size.y ==> #[trigger] row_filled(printer, states, y)
}

/// Whether row `y` of the window of `printer` is filled with blanks
/// between the states `y` and `y + 1` of `states`.
pub open spec fn row_filled<B: Backend>(printer: Printer, states: Seq<B>, y: int) -> bool {
    printer.shows(states[y], Vec2 { x: 0, y: y as usize }, blanks(printer.size.x), states[y + 1])
}

/// What `draw_bg` does to the backend, with the steps named: the
/// background colors are set, and `previous` were the colors before; the
/// rows are filled, which takes the backend through `states`; `previous` are
/// set again, and `replaced` is what the backend then answers.
pub open spec fn drawn_bg_via<B: Backend>(
    printer: Printer,
    before: B,
    after: B,
    previous: ColorPair,
    replaced: ColorPair,
    states: Seq<B>,
) -> bool {
    &&& rows_filled(printer, states)
    &&& before.color_set(background_colors(*printer.theme), previous, &states.first())
    &&& states.last().color_set(previous, replaced, &after)
}

/// What `draw_bg` does to the backend through `printer`; see
/// [`drawn_bg_via`].
pub open spec fn drawn_bg<B: Backend>(printer: Printer, before: B, after: B) -> bool {
    exists|previous: ColorPair, replaced: ColorPair, states: Seq<B>| #[trigger]
        drawn_bg_via(printer, before, after, previous, replaced, states)
}

impl<V> View for StackView<V> {
    type V = StackModel<V>;

    closed spec fn view(&self) -> StackModel<V> {
        StackModel { layers: self.layers@, last_size: self.last_size }
    }
}

impl<V> StackView<V> {
    /// A stack without layers.
    pub fn new() -> (s: StackView<V>)
        ensures
            s@.layers == Seq::<Layer<V>>::empty(),
            s@.last_size == Vec2::zero(),
    {
        StackView { layers: Vec::new(), last_size: Vec2::zero() }
    }

    /// The number of layers.
    pub fn len(&self) -> (n: usize)
        ensures
            n == self@.layers.len(),
    {
        self.layers.len()
    }

    /// Puts `view` on top, centered.
    pub fn add_layer(&mut self, view: V)
        ensures
            final(self)@.layers == old(self)@.layers.push(
                Layer::fresh(view, Placement::Floating(Position::center())),
            ),
            final(self)@.last_size == old(self)@.last_size,
    {
        self.layers.push(
            Layer {
                view,
                size: Vec2::zero(),
                placement: Placement::Floating(Position::center()),
                virgin: true,
            },
        );
    }

    /// Puts `view` on top, over the whole screen.
    pub fn add_fullscreen_layer(&mut self, view: V)
        ensures
            final(self)@.layers == old(self)@.layers.push(
                Layer::fresh(view, Placement::Fullscreen),
            ),
            final(self)@.last_size == old(self)@.last_size,
    {
        self.layers.push(
            Layer { view, size: Vec2::zero(), placement: Placement::Fullscreen, virgin: true },
        );
    }

    /// Takes the top layer off and returns its view; `None` if the stack
    /// is empty.
    pub fn pop_layer(&mut self) -> (view: Option<V>)
        ensures
            final(self)@.last_size == old(self)@.last_size,
            old(self)@.layers.len() == 0 ==> view.is_none() && final(self)@.layers == old(
                self,
            )@.layers,
            old(self)@.layers.len() > 0 ==> view == Some(old(self)@.layers.last().view)
                && final(self)@.layers == old(self)@.layers.drop_last(),
    {
        match self.layers.pop() {
            Some(layer) => Some(layer.view),
            None => None,
        }
    }

    /// Moves the layer named by `layer` to `position`. Nothing changes if
    /// there is no such layer, or if it covers the whole screen.
    pub fn reposition_layer(&mut self, layer: LayerPosition, position: Position)
        ensures
            final(self)@.last_size == old(self)@.last_size,
            match layer.index(old(self)@.layers.len() as usize) {
                Some(i) => final(self)@.layers == old(self)@.layers.update(
                    i as int,
                    old(self)@.layers[i as int].moved_to(position),
                ),
                None => final(self)@.layers == old(self)@.layers,
            },
    {
        let n: usize = self.layers.len();
        match layer.index(n) {
            Some(i) => {
                let child = &mut self.layers[i];
                match child.placement {
                    Placement::Floating(_) => {
                        child.placement = Placement::Floating(position);
                    },
                    Placement::Fullscreen => {},
                }
                assert(self.layers@ =~= old(self).layers@.update(
                    i as int,
                    old(self).layers@[i as int].moved_to(position),
                ));
            },
            None => {},
        }
    }

    /// The sizes of the layers, bottom first.
    pub fn layer_sizes(&self) -> (sizes: Vec<Vec2>)
        ensures
            sizes@ == self@.layer_sizes(),
    {
        let n: usize = self.layers.len();
        let mut sizes: Vec<Vec2> = Vec::new();
        let mut i: usize = 0;
        while i < n
            invariant
                n == self.layers@.len(),
                i <= n,
                sizes@.len() == i,
                forall|j: int| 0 <= j < i ==> sizes@[j] == self.layers@[j].size,
            decreases n - i,
        {
            sizes.push(self.layers[i].size);
            i += 1;
        }
        assert(sizes@ =~= self@.layer_sizes());
        sizes
    }
}

impl<V> StackView<V> {
    /// Lays every layer out on a screen of `size`, bottom first; see
    /// [`Layer::laid_out`].
    pub fn layout<C>(&mut self, size: Vec2) where V: Widget<C>
        ensures
            old(self)@.laid_out::<C>(size, final(self)@),
    {
        let ghost start = self.layers@;
        self.last_size = size;
        let n: usize = self.layers.len();
        let mut i: usize = 0;
        while i < n
            invariant
                n == self.layers@.len(),
                n == start.len(),
                i <= n,
                self.last_size == size,
                forall|j: int| 0 <= j < i ==> #[trigger] start[j].laid_out::<C>(size, self.layers@[j]),
                forall|j: int| i <= j < n ==> self.layers@[j] == start[j],
            decreases n - i,
        {
            let ghost before = self.layers@;
            let ghost mut wanted_size = Vec2::zero();
            let layer = &mut self.layers[i];
            match layer.placement {
                Placement::Floating(_) => {
                    let wanted = layer.view.required_size(size);
                    proof {
                        wanted_size = wanted;
                    }
                    layer.size = size.min(wanted);
                },
                Placement::Fullscreen => {
                    layer.size = size;
                },
            }
            let ghost asked = layer.view;
            layer.view.layout(layer.size);
            let ghost placed = layer.view;
            if layer.virgin {
                let accepted = layer.view.take_focus(Direction::none());
                layer.virgin = false;
                assert(placed.focus_taken(Direction::Unset, &layer.view, accepted));
            }
            proof {
                let after = *layer;
                let first = before[i as int];
                assert(first.laid_out_via::<C>(size, after, asked, wanted_size, placed));
            }
            i += 1;
        }
    }

    /// Hands `event` to the top layer, moved into that layer's coordinates,
    /// and returns its answer. An empty stack ignores the event.
    pub fn on_event<C>(&mut self, event: Event) -> (result: EventResult<C>) where V: Widget<C>
        ensures
            old(self)@.handled(event, final(self)@, result),
    {
        let n: usize = self.layers.len();
        if n == 0 {
            return EventResult::Ignored;
        }
        let offset = self.layers[n - 1].placement.compute_offset(
            self.layers[n - 1].size,
            self.last_size,
        );
        let layer = &mut self.layers[n - 1];
        let result = layer.view.on_event(event.relativized(offset));
        assert(self.layers@ =~= old(self).layers@.update(
            n - 1,
            old(self).layers@[n - 1].with_view(self.layers@[n - 1].view),
        ));
        result
    }

    /// Offers the focus to the top layer and returns its answer. An empty
    /// stack declines.
    pub fn take_focus<C>(&mut self, source: Direction) -> (accepted: bool) where V: Widget<C>
        ensures
            old(self)@.focus_taken::<C>(source, final(self)@, accepted),
    {
        let n: usize = self.layers.len();
        if n == 0 {
            return false;
        }
        let layer = &mut self.layers[n - 1];
        let accepted = layer.view.take_focus(source);
        assert(self.layers@ =~= old(self).layers@.update(
            n - 1,
            old(self).layers@[n - 1].with_view(self.layers@[n - 1].view),
        ));
        accepted
    }

    /// Asks the layers, bottom first, to move the focus to the view that
    /// `selector` names, and stops at the first that does. Fails if none
    /// does.
    pub fn focus_view<C>(&mut self, selector: &Selector) -> (found: Result<(), ()>) where
        V: Widget<C>,

        ensures
            exists|tried: int| #[trigger]
                old(self)@.focus_moved::<C>(*selector, final(self)@, found is Ok, tried),
    {
        let ghost start = self.layers@;
        let n: usize = self.layers.len();
        let mut i: usize = 0;
        while i < n
            invariant
                n == self.layers@.len(),
                n == start.len(),
                start == old(self).layers@,
                i <= n,
                self.last_size == old(self).last_size,
                forall|j: int|
                    0 <= j < i ==> {
                        &&& #[trigger] self.layers@[j] == start[j].with_view(self.layers@[j].view)
                        &&& start[j].view.focus_moved(*selector, &self.layers@[j].view, false)
                    },
                forall|j: int| i <= j < n ==> #[trigger] self.layers@[j] == start[j],
            decreases n - i,
        {
            let layer = &mut self.layers[i];
            let answer = layer.view.focus_view(selector);
            if answer.is_ok() {
                let found: Result<(), ()> = Ok(());
                proof {
                    assert(old(self)@.focus_moved::<C>(*selector, self@, found is Ok, i + 1));
                }
                return found;
            }
            i += 1;
        }
        let found: Result<(), ()> = Err(());
        proof {
            assert(old(self)@.focus_moved::<C>(*selector, self@, found is Ok, n as int));
        }
        found
    }

    /// Hands `action` to the first layer, bottom first, that says it
    /// answers to `selector`, and returns what that layer returns; `None`,
    /// with nothing changed, if no layer says so.
    pub fn call_on<C, F, R>(&mut self, selector: &Selector, action: F) -> (r: Option<R>) where
        V: Widget<C>,
        F: FnOnce(&mut V) -> R,

        requires
            forall|v: &mut V| call_requires(action, (v,)),
        ensures
            exists|at: int| #[trigger]
                old(self)@.called_on::<C>(*selector, final(self)@, at, r.is_some()),
            r matches Some(x) ==> exists|v: &mut V| call_ensures(action, (v,), x),
    {
        let n: usize = self.layers.len();
        let mut i: usize = 0;
        while i < n
            invariant
                n == self.layers@.len(),
                i <= n,
                *self == *old(self),
                forall|v: &mut V| call_requires(action, (v,)),
                forall|j: int|
                    0 <= j < i ==> (#[trigger] self.layers@[j]).view.looked_up(*selector, false),
            decreases n - i,
        {
            if self.layers[i].view.contains(selector) {
                let layer = &mut self.layers[i];
                let r = layer.view.call_on_any(selector, action);
                proof {
                    assert(self.layers@ =~= old(self).layers@.update(
                        i as int,
                        old(self).layers@[i as int].with_view(self.layers@[i as int].view),
                    ));
                    assert(old(self)@.called_on::<C>(*selector, self@, i as int, r.is_some()));
                }
                return r;
            }
            i += 1;
        }
        let r: Option<R> = None;
        proof {
            assert(old(self)@.called_on::<C>(*selector, self@, n as int, r.is_some()));
        }
        r
    }

    /// Fills the window of `printer` with the background of the theme; see
    /// [`drawn_bg_via`].
    pub fn draw_bg<B: Backend>(&self, printer: &Printer, backend: &mut B)
        ensures
            drawn_bg(*printer, *old(backend), *final(backend)),
    {
        let colors = ColorPair {
            front: printer.theme.palette.color(PaletteColor::Primary),
            back: printer.theme.palette.color(PaletteColor::Background),
        };
        let line = blank_line(printer.size.x);
        let previous = backend.set_color(colors);
        let ghost mut states = seq![*backend];
        let mut y: usize = 0;
        while y < printer.size.y
            invariant
                y <= printer.size.y,
                line@ == blanks(printer.size.x),
                states.len() == y + 1,
                states.last() == *backend,
                old(backend).color_set(background_colors(*printer.theme), previous, &states.first()),
                forall|row: int| 0 <= row < y ==> #[trigger] row_filled(*printer, states, row),
            decreases printer.size.y - y,
        {
            let _printed: usize = printer.print(backend, Vec2::new(0, y), line.as_str());
            proof {
                let longer = states.push(*backend);
                assert forall|row: int| 0 <= row < y + 1 implies #[trigger] row_filled(
                    *printer,
                    longer,
                    row,
                ) by {
                    if row < y {
                        assert(row_filled(*printer, states, row));
                        assert(longer[row] == states[row]);
                        assert(longer[row + 1] == states[row + 1]);
                    }
                }
                assert(longer.first() == states.first());
                states = longer;
            }
            y += 1;
        }
        let replaced = backend.set_color(previous);
        assert(drawn_bg_via(*printer, *old(backend), *backend, previous, replaced, states));
    }

    /// Draws the layers on `backend`, bottom first, each through a printer
    /// for its own area; see [`StackModel::drawn_fg_via`]. Only the top
    /// layer is drawn as focused.
    pub fn draw_fg<C, B: Backend>(&self, printer: &Printer, backend: &mut B) where V: Widget<C>
        ensures
            self@.drawn_fg::<C, B>(*printer, *old(backend), *final(backend)),
    {
        let ghost mut states = seq![*backend];
        let n: usize = self.layers.len();
        let mut i: usize = 0;
        while i < n
            invariant
                n == self.layers@.len(),
                i <= n,
                states.len() == i + 1,
                states.first() == *old(backend),
                states.last() == *backend,
                forall|j: int|
                    0 <= j < i ==> (#[trigger] self@.layers[j]).view.drawn(
                        &self@.layer_printer(*printer, j),
                        &states[j],
                        &states[j + 1],
                    ),
            decreases n - i,
        {
            let layer = &self.layers[i];
            let corner = layer.placement.compute_offset(layer.size, printer.size);
            let window = printer.sub_printer(corner, layer.size, i + 1 == n);
            layer.view.draw(&window, backend);
            proof {
                let longer = states.push(*backend);
                assert forall|j: int| 0 <= j < i + 1 implies (#[trigger] self@.layers[j]).view.drawn(
                    &self@.layer_printer(*printer, j),
                    &longer[j],
                    &longer[j + 1],
                ) by {
                    if j < i {
                        assert(longer[j] == states[j]);
                        assert(longer[j + 1] == states[j + 1]);
                    }
                }
                assert(longer.first() == states.first());
                states = longer;
            }
            i += 1;
        }
        assert(self@.drawn_fg_via::<C, B>(*printer, states));
    }
}

/// A string of `width` blanks.
pub fn blank_line(width: usize) -> (line: String)
    ensures
        line@ == blanks(width),
{
    let mut line = String::new();
    let mut i: usize = 0;
    while i < width
        invariant
            i <= width,
            line@ == Seq::new(i as nat, |j: int| ' '),
        decreases width - i,
    {
        proof {
            reveal_strlit(" ");
        }
        line.append(" ");
        i += 1;
        assert(line@ =~= Seq::new(i as nat, |j: int| ' '));
    }
    line
}

} // verus!
