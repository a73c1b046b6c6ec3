//! What holds of the root whatever the views, the backend and the
//! callbacks are.

use crate::callback::bound_to;
use crate::cursive::{
    drained_at, drained_through, ran_all, run_through, CbFunc, CursiveModel, MAX_DRAINED,
};
use crate::event::{Event, EventResult};
use crate::backend::Backend;
use crate::geometry::{least, Vec2};
use crate::stack_view::drawn_bg;
use crate::theme::PaletteColor;
use crate::stack_view::StackModel;
use crate::widget::Widget;
use vstd::prelude::*;

verus! {

/// Running no work changes nothing, and only that is a run of no work.
pub proof fn lemma_ran_none<V, B, C: CbFunc<V, B>>(
    before: CursiveModel<V, B, C>,
    after: CursiveModel<V, B, C>,
)
    ensures
        ran_all(Seq::<C>::empty(), before, after) <==> after == before,
{
    if after == before {
        assert(run_through(Seq::<C>::empty(), seq![before]));
    }
}

/// A run of `works` followed by `work` is a run of `works`, to some root
/// in between, and then of `work` from there: the last piece runs last, and
/// once.
pub proof fn lemma_ran_last<V, B, C: CbFunc<V, B>>(
    works: Seq<C>,
    work: C,
    before: CursiveModel<V, B, C>,
    after: CursiveModel<V, B, C>,
)
    ensures
        ran_all(works.push(work), before, after) <==> exists|mid: CursiveModel<V, B, C>| #[trigger]
            ran_all(works, before, mid) && work.runs(mid, after),
{
    let all = works.push(work);
    if ran_all(all, before, after) {
        let states = choose|states: Seq<CursiveModel<V, B, C>>|
            #[trigger] run_through(all, states) && states.first() == before && states.last()
                == after;
        let earlier = states.drop_last();
        let mid = earlier.last();
        assert forall|i: int| 0 <= i < works.len() implies (#[trigger] works[i]).runs(
            earlier[i],
            earlier[i + 1],
        ) by {
            assert(all[i] == works[i]);
            assert(all[i].runs(states[i], states[i + 1]));
        }
        assert(run_through(works, earlier));
        let n = works.len() as int;
        assert(all[n].runs(states[n], states[n + 1]));
        assert(ran_all(works, before, mid) && work.runs(mid, after));
    }
    if exists|mid: CursiveModel<V, B, C>| #[trigger]
        ran_all(works, before, mid) && work.runs(mid, after) {
        let mid = choose|mid: CursiveModel<V, B, C>| #[trigger]
            ran_all(works, before, mid) && work.runs(mid, after);
        let earlier = choose|states: Seq<CursiveModel<V, B, C>>|
            #[trigger] run_through(works, states) && states.first() == before && states.last()
                == mid;
        let states = earlier.push(after);
        assert forall|i: int| 0 <= i < all.len() implies (#[trigger] all[i]).runs(
            states[i],
            states[i + 1],
        ) by {
            if i < works.len() {
                assert(all[i] == works[i]);
                assert(works[i].runs(earlier[i], earlier[i + 1]));
            }
        }
        assert(run_through(all, states));
    }
}

/// An empty queue ends the drain at once: nothing changes.
pub proof fn lemma_drain_empty<V, B, C: CbFunc<V, B>>(
    root: CursiveModel<V, B, C>,
    after: CursiveModel<V, B, C>,
)
    requires
        root.pending.len() == 0,
    ensures
        root.drained(after) <==> after == root,
{
    if root.drained(after) {
        let states = choose|states: Seq<CursiveModel<V, B, C>>|
            #[trigger] drained_through(states) && states.first() == root && states.last() == after
                && (after.pending.len() == 0 || states.len() == MAX_DRAINED + 1);
        if states.len() > 1 {
            assert(drained_at(states, 0));
        }
    }
    if after == root {
        assert(drained_through(seq![root]));
    }
}

/// Arrival order: while callbacks wait, the drain begins with the one
/// that arrived first, run on the root where the others still wait.
pub proof fn lemma_drain_first<V, B, C: CbFunc<V, B>>(
    root: CursiveModel<V, B, C>,
    after: CursiveModel<V, B, C>,
)
    requires
        root.pending.len() > 0,
        root.drained(after),
    ensures
        exists|next: CursiveModel<V, B, C>| #[trigger]
            root.pending[0].runs(CursiveModel { pending: root.pending.skip(1), ..root }, next),
{
    let states = choose|states: Seq<CursiveModel<V, B, C>>|
        #[trigger] drained_through(states) && states.first() == root && states.last() == after
            && (after.pending.len() == 0 || states.len() == MAX_DRAINED + 1);
    assert(states.len() > 1);
    assert(drained_at(states, 0));
    assert(root.pending[0].runs(CursiveModel { pending: root.pending.skip(1), ..root }, states[1]));
}

/// Async ordering: three callbacks `a`, `b`, `c` that wait in this order,
/// and that leave the queue alone, run in this order, each once and each on
/// what the one before left, and then the drain is over with the queue
/// empty.
pub proof fn lemma_drain_three<V, B, C: CbFunc<V, B>>(
    a: C,
    b: C,
    c: C,
    root: CursiveModel<V, B, C>,
    after: CursiveModel<V, B, C>,
)
    requires
        root.pending == seq![a, b, c],
        root.drained(after),
        forall|work: C, x: CursiveModel<V, B, C>, y: CursiveModel<V, B, C>|
            (work == a || work == b || work == c) && #[trigger] work.runs(x, y) ==> y.pending
                == x.pending,
    ensures
        exists|first: CursiveModel<V, B, C>, second: CursiveModel<V, B, C>|
            {
                &&& a.runs(CursiveModel { pending: seq![b, c], ..root }, first)
                &&& #[trigger] b.runs(CursiveModel { pending: seq![c], ..first }, second)
                &&& c.runs(CursiveModel { pending: Seq::empty(), ..second }, after)
            },
        after.pending.len() == 0,
{
    let states = choose|states: Seq<CursiveModel<V, B, C>>|
        #[trigger] drained_through(states) && states.first() == root && states.last() == after
            && (after.pending.len() == 0 || states.len() == MAX_DRAINED + 1);
    assert(root.pending.skip(1) =~= seq![b, c]);
    assert(states.len() > 1);
    assert(drained_at(states, 0));
    let first = states[1];
    assert(first.pending == seq![b, c]);
    assert(first.pending.skip(1) =~= seq![c]);
    assert(states.len() > 2);
    assert(drained_at(states, 1));
    let second = states[2];
    assert(second.pending == seq![c]);
    assert(second.pending.skip(1) =~= Seq::<C>::empty());
    assert(states.len() > 3);
    assert(drained_at(states, 2));
    let third = states[3];
    assert(third.pending.len() == 0);
    if states.len() > 4 {
        assert(drained_at(states, 3));
    }
    assert(third == after);
    assert(a.runs(CursiveModel { pending: seq![b, c], ..root }, first) && b.runs(
        CursiveModel { pending: seq![c], ..first },
        second,
    ) && c.runs(CursiveModel { pending: Seq::empty(), ..second }, after));
}

/// Dispatch order: when neither the menu bar nor the active screen wants
/// `event`, exactly the work bound to that very event runs, in the order in
/// which it was bound, on the root as the screen left it.
pub proof fn lemma_dispatch_order<V: Widget<C>, B, C: CbFunc<V, B>>(
    root: CursiveModel<V, B, C>,
    event: Event,
    after: CursiveModel<V, B, C>,
)
    requires
        root.wf(),
        !root.menubar.receive_events(),
        root.dispatched(event, after),
        forall|screen: StackModel<V>, result: EventResult<C>| #[trigger]
            root.screen().handled(
                event.relativized(Vec2 { x: 0, y: root.menubar_rows() }),
                screen,
                result,
            ) ==> result is Ignored,
    ensures
        exists|screen: StackModel<V>|
            #[trigger] root.screen().handled(
                event.relativized(Vec2 { x: 0, y: root.menubar_rows() }),
                screen,
                EventResult::Ignored,
            ) && ran_all(
                bound_to(root.global_callbacks, event),
                root.with_screen(screen),
                after,
            ),
{
    let (screen, result) = choose|screen: StackModel<V>, result: EventResult<C>|
        {
            &&& #[trigger] root.screen().handled(
                event.relativized(Vec2 { x: 0, y: root.menubar_rows() }),
                screen,
                result,
            )
            &&& root.with_screen(screen).answered(event, result, after)
        };
    assert(result is Ignored);
    assert(result == EventResult::<C>::Ignored);
}

/// Registration order: work bound to `event` after other work runs after
/// it. A run of what is bound to `event` once `work` was added is a run of
/// what was bound before, followed by `work`; what is bound to any other
/// event is as it was.
pub proof fn lemma_registration_order<V, B, C: CbFunc<V, B>>(
    table: Map<Event, Seq<C>>,
    event: Event,
    work: C,
    before: CursiveModel<V, B, C>,
    after: CursiveModel<V, B, C>,
)
    ensures
        ran_all(
            bound_to(table.insert(event, bound_to(table, event).push(work)), event),
            before,
            after,
        ) <==> exists|mid: CursiveModel<V, B, C>| #[trigger]
            ran_all(bound_to(table, event), before, mid) && work.runs(mid, after),
        forall|other: Event|
            other != event ==> #[trigger] bound_to(
                table.insert(event, bound_to(table, event).push(work)),
                other,
            ) == bound_to(table, other),
{
    lemma_ran_last(bound_to(table, event), work, before, after);
}

/// Clearing an event leaves no work bound to it and touches no other
/// event.
pub proof fn lemma_cleared<C>(table: Map<Event, Seq<C>>, event: Event)
    ensures
        bound_to(table.remove(event), event) == Seq::<C>::empty(),
        forall|other: Event|
            other != event ==> #[trigger] bound_to(table.remove(event), other) == bound_to(
                table,
                other,
            ),
{
}

/// Fatal boundary: an identifier that no screen has, be it the number of
/// screens or the largest `usize`, is never accepted, neither wrapped round
/// nor clamped; an identifier that a screen has makes that very screen the
/// active one. In both cases the screens are as they were.
pub proof fn lemma_screen_boundary<V, B, C>(root: CursiveModel<V, B, C>, screen_id: usize)
    requires
        root.wf(),
    ensures
        screen_id >= root.screens.len() ==> root.screen_set(screen_id) == Err::<
            CursiveModel<V, B, C>,
            usize,
        >(screen_id),
        root.screens.len() <= usize::MAX ==> root.screen_set(root.screens.len() as usize) is Err,
        root.screens.len() <= usize::MAX ==> root.screen_set(usize::MAX) is Err,
        screen_id < root.screens.len() ==> (root.screen_set(screen_id) matches Ok(next)
            && next.active_screen == screen_id && next.screens == root.screens && next.wf()),
{
}

/// Screen isolation: putting another stack of layers in place of the
/// active screen changes no other screen, and neither the number of screens
/// nor which of them is active.
pub proof fn lemma_screen_isolation<V, B, C>(
    root: CursiveModel<V, B, C>,
    screen: StackModel<V>,
    other: int,
)
    requires
        root.wf(),
        0 <= other < root.screens.len(),
        other != root.active_screen,
    ensures
        root.with_screen(screen).screens[other] == root.screens[other],
        root.with_screen(screen).screens.len() == root.screens.len(),
        root.with_screen(screen).active_screen == root.active_screen,
        root.with_screen(screen).screen() == screen,
        root.with_screen(screen).wf(),
{
}

/// Switching the active screen changes no screen; it changes which one
/// layout, draw and dispatch work on.
pub proof fn lemma_switch_keeps_screens<V, B, C>(root: CursiveModel<V, B, C>, id: usize)
    requires
        root.wf(),
        id < root.screens.len(),
    ensures
        (CursiveModel { active_screen: id, ..root }).screens == root.screens,
        (CursiveModel { active_screen: id, ..root }).screen() == root.screens[id as int],
        (CursiveModel { active_screen: id, ..root }).wf(),
{
}

/// Layout works on the active screen alone.
pub proof fn lemma_layout_keeps_other_screens<V: Widget<C>, B, C>(
    root: CursiveModel<V, B, C>,
    terminal: Vec2,
    after: CursiveModel<V, B, C>,
    other: int,
)
    requires
        root.wf(),
        root.laid_out(terminal, after),
        0 <= other < root.screens.len(),
        other != root.active_screen,
    ensures
        after.screens[other] == root.screens[other],
        after.screens.len() == root.screens.len(),
{
}

/// Layout offers the active screen every row of the terminal while the
/// menu bar hides, and every row but one while it does not; the columns
/// are offered as they are.
pub proof fn lemma_usable_size<V, B, C>(root: CursiveModel<V, B, C>, terminal: Vec2)
    ensures
        root.usable_size(terminal).x == terminal.x,
        root.menubar.autohide ==> root.usable_size(terminal).y == terminal.y,
        !root.menubar.autohide && terminal.y >= 1 ==> root.usable_size(terminal).y == terminal.y
            - 1,
        !root.menubar.autohide && terminal.y == 0 ==> root.usable_size(terminal).y == 0,
{
}

/// Redraw suppression: a draw with the layer sizes of the last draw, and
/// no resize since, hands the backend no clear. The drawing starts from the
/// backend as it was, and the sizes stay remembered.
pub proof fn lemma_no_clear_when_unchanged<V: Widget<C>, B: Backend, C>(
    root: CursiveModel<V, B, C>,
    terminal: Vec2,
    after: CursiveModel<V, B, C>,
)
    requires
        !root.needs_clear,
        root.last_sizes == root.screen().layer_sizes(),
        root.frame_drawn(terminal, after),
    ensures
        exists|filled: B, barred: B| #[trigger]
            root.frame_drawn_via(terminal, after, root.backend, filled, barred),
        after.last_sizes == root.last_sizes,
        !after.must_clear(),
{
    let (cleared, filled, barred) = choose|cleared: B, filled: B, barred: B| #[trigger]
        root.frame_drawn_via(terminal, after, cleared, filled, barred);
    assert(root.frame_drawn_via(terminal, after, root.backend, filled, barred));
    assert(after.screens == root.screens);
}

/// Redraw suppression: a draw after the layer sizes have changed, or after
/// a resize, clears the terminal once, with the background color of the
/// theme, before anything is drawn: the background is drawn on what the
/// clear left. The new sizes are remembered, so that the next draw, with
/// nothing changed, does not clear.
pub proof fn lemma_clear_once_and_first<V: Widget<C>, B: Backend, C>(
    root: CursiveModel<V, B, C>,
    terminal: Vec2,
    after: CursiveModel<V, B, C>,
)
    requires
        root.needs_clear || root.last_sizes != root.screen().layer_sizes(),
        root.frame_drawn(terminal, after),
    ensures
        exists|cleared: B, filled: B, barred: B|
            root.backend.cleared(root.theme.palette.color(PaletteColor::Background), &cleared)
                && #[trigger] root.frame_drawn_via(terminal, after, cleared, filled, barred),
        after.last_sizes == root.screen().layer_sizes(),
        !after.needs_clear,
        !after.must_clear(),
{
    let (cleared, filled, barred) = choose|cleared: B, filled: B, barred: B| #[trigger]
        root.frame_drawn_via(terminal, after, cleared, filled, barred);
    assert(root.backend.cleared(root.theme.palette.color(PaletteColor::Background), &cleared)
        && root.frame_drawn_via(terminal, after, cleared, filled, barred));
    assert(after.screens == root.screens);
}

/// The order of a draw: the background of the active screen, then the
/// menu bar exactly if it is visible, then the layers; a hidden bar leaves
/// the backend as the background left it.
pub proof fn lemma_draw_order<V: Widget<C>, B: Backend, C>(
    root: CursiveModel<V, B, C>,
    terminal: Vec2,
    after: CursiveModel<V, B, C>,
)
    requires
        root.frame_drawn(terminal, after),
    ensures
        exists|cleared: B, filled: B, barred: B|
            {
                &&& #[trigger] root.frame_drawn_via(terminal, after, cleared, filled, barred)
                &&& drawn_bg(root.screen_printer(terminal), cleared, filled)
                &&& root.menubar.visible() ==> root.menubar.drawn(
                    root.menubar_printer(terminal),
                    filled,
                    barred,
                )
                &&& !root.menubar.visible() ==> barred == filled
                &&& root.screen().drawn_fg::<C, B>(
                    root.screen_printer(terminal),
                    barred,
                    after.backend,
                )
            },
        root.screen_printer(terminal).offset == (Vec2 { x: 0, y: least(root.menubar_rows() as int, terminal.y as int) as usize }),
        root.screen_printer(terminal).focused == !root.menubar.receive_events(),
{
    let (cleared, filled, barred) = choose|cleared: B, filled: B, barred: B| #[trigger]
        root.frame_drawn_via(terminal, after, cleared, filled, barred);
    assert(root.frame_drawn_via(terminal, after, cleared, filled, barred));
}

/// Whether no callback takes back a clear that is due: whatever a
/// callback does to a root that waits for a clear, the root still waits for
/// it afterwards. This holds of every callback that does not draw.
pub open spec fn callbacks_keep_clear<V, B, C: CbFunc<V, B>>() -> bool {
    forall|work: C, x: CursiveModel<V, B, C>, y: CursiveModel<V, B, C>|
        #[trigger] work.runs(x, y) && x.needs_clear ==> y.needs_clear
}

/// A clear that is due stays due through a run of callbacks that keep it.
pub proof fn lemma_clear_lasts_through_work<V, B, C: CbFunc<V, B>>(
    works: Seq<C>,
    before: CursiveModel<V, B, C>,
    after: CursiveModel<V, B, C>,
)
    requires
        callbacks_keep_clear::<V, B, C>(),
        before.needs_clear,
        ran_all(works, before, after),
    ensures
        after.needs_clear,
{
    let states = choose|states: Seq<CursiveModel<V, B, C>>|
        #[trigger] run_through(works, states) && states.first() == before && states.last()
            == after;
    lemma_run_keeps_clear(works, states, works.len() as int);
}

/// In a run of callbacks that keep a clear that is due, every root up to
/// the one with index `k` waits for the clear if the first does.
proof fn lemma_run_keeps_clear<V, B, C: CbFunc<V, B>>(
    works: Seq<C>,
    states: Seq<CursiveModel<V, B, C>>,
    k: int,
)
    requires
        callbacks_keep_clear::<V, B, C>(),
        run_through(works, states),
        states[0].needs_clear,
        0 <= k <= works.len(),
    ensures
        states[k].needs_clear,
    decreases k,
{
    if k > 0 {
        lemma_run_keeps_clear(works, states, k - 1);
        assert(works[k - 1].runs(states[k - 1], states[k]));
    }
}

/// A clear that is due stays due through the drain of the queue, if the
/// callbacks keep it.
pub proof fn lemma_clear_lasts_through_drain<V, B, C: CbFunc<V, B>>(
    before: CursiveModel<V, B, C>,
    after: CursiveModel<V, B, C>,
)
    requires
        callbacks_keep_clear::<V, B, C>(),
        before.needs_clear,
        before.drained(after),
    ensures
        after.needs_clear,
{
    let states = choose|states: Seq<CursiveModel<V, B, C>>|
        #[trigger] drained_through(states) && states.first() == before && states.last() == after
            && (after.pending.len() == 0 || states.len() == MAX_DRAINED + 1);
    lemma_drain_keeps_clear(states, states.len() - 1);
}

/// In a drain with callbacks that keep a clear that is due, every root up
/// to the one with index `k` waits for the clear if the first does.
proof fn lemma_drain_keeps_clear<V, B, C: CbFunc<V, B>>(
    states: Seq<CursiveModel<V, B, C>>,
    k: int,
)
    requires
        callbacks_keep_clear::<V, B, C>(),
        drained_through(states),
        states[0].needs_clear,
        0 <= k < states.len(),
    ensures
        states[k].needs_clear,
    decreases k,
{
    if k > 0 {
        lemma_drain_keeps_clear(states, k - 1);
        assert(drained_at(states, k - 1));
    }
}

/// After a resize the root waits for a clear, and still does when the
/// event is handled, if the callbacks keep it.
pub proof fn lemma_resize_asks_for_clear<V: Widget<C>, B, C: CbFunc<V, B>>(
    root: CursiveModel<V, B, C>,
    after: CursiveModel<V, B, C>,
)
    requires
        callbacks_keep_clear::<V, B, C>(),
        root.handled(Event::WindowResize, after),
    ensures
        root.prepared(Event::WindowResize).needs_clear,
        after.needs_clear,
{
    lemma_clear_lasts_through_dispatch(root.prepared(Event::WindowResize), Event::WindowResize, after);
}

/// A clear that is due stays due through the dispatch of an event, if the
/// callbacks keep it.
pub proof fn lemma_clear_lasts_through_dispatch<V: Widget<C>, B, C: CbFunc<V, B>>(
    root: CursiveModel<V, B, C>,
    event: Event,
    after: CursiveModel<V, B, C>,
)
    requires
        callbacks_keep_clear::<V, B, C>(),
        root.needs_clear,
        root.dispatched(event, after),
    ensures
        after.needs_clear,
{
    if root.menubar.receive_events() {
    } else {
        let (screen, result) = choose|screen: StackModel<V>, result: EventResult<C>|
            {
                &&& #[trigger] root.screen().handled(
                    event.relativized(Vec2 { x: 0, y: root.menubar_rows() }),
                    screen,
                    result,
                )
                &&& root.with_screen(screen).answered(event, result, after)
            };
        match result {
            EventResult::Ignored => {
                lemma_clear_lasts_through_work(
                    bound_to(root.global_callbacks, event),
                    root.with_screen(screen),
                    after,
                );
            },
            EventResult::Consumed(_) => {},
        }
    }
}

/// After a resize, the next frame begins with one clear: in a tick that
/// starts on a root that waits for a clear, with callbacks that keep it,
/// the draw hands the backend a clear with the background color, once, and
/// draws on what the clear left, even if no layer has changed its size.
/// After the draw no clear is due.
pub proof fn lemma_resize_clears_next_frame<V: Widget<C>, B: Backend, C: CbFunc<V, B>>(
    root: CursiveModel<V, B, C>,
    after: CursiveModel<V, B, C>,
    drained: CursiveModel<V, B, C>,
    terminal: Vec2,
    laid: CursiveModel<V, B, C>,
    frame: Vec2,
    drawn: CursiveModel<V, B, C>,
    shown: B,
    backend: B,
    event: Event,
)
    requires
        callbacks_keep_clear::<V, B, C>(),
        root.needs_clear,
        root.ticked_via(after, drained, terminal, laid, frame, drawn, shown, backend, event),
    ensures
        laid.must_clear(),
        exists|cleared: B, filled: B, barred: B|
            laid.backend.cleared(laid.theme.palette.color(PaletteColor::Background), &cleared)
                && #[trigger] laid.frame_drawn_via(frame, drawn, cleared, filled, barred),
        !drawn.needs_clear,
        !drawn.must_clear(),
{
    lemma_clear_lasts_through_drain(root, drained);
    assert(laid.needs_clear == drained.needs_clear);
    lemma_clear_once_and_first(laid, frame, drawn);
}

/// Only an exit request stops the loop before dispatch, only a resize
/// asks for a clear, and an event that does not select the menu bar leaves
/// it alone.
pub proof fn lemma_prepared<V, B, C>(root: CursiveModel<V, B, C>, event: Event)
    ensures
        root.prepared(event).running == (root.running && event != Event::Exit),
        root.prepared(event).needs_clear == (root.needs_clear || event == Event::WindowResize),
        !(event is Mouse) ==> root.prepared(event).menubar == root.menubar,
        root.prepared(event).screens == root.screens,
        root.prepared(event).active_screen == root.active_screen,
        root.prepared(event).global_callbacks == root.global_callbacks,
        root.grabs_menubar(event) ==> root.prepared(event).menubar.receive_events(),
{
}

} // verus!
