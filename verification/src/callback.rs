//! The table of global callbacks: what to do with an event that no view
//! wanted.

use crate::event::{Callback, Event};
use vstd::prelude::*;

verus! {

/// One row of the table: an event and the callbacks bound to it, in the
/// order in which they were added.
struct Binding<C> {
    event: Event,
    callbacks: Vec<Callback<C>>,
}

/// Maps an event to the callbacks bound to it.
///
/// An event is looked up by equality, so an event that carries a position
/// is found only at that very position. The callbacks of one event keep the
/// order in which they were added.
pub struct CallbackController<C> {
    bindings: Vec<Binding<C>>,
}

/// Whether no event has two rows in `bindings`.
spec fn distinct_events<C>(bindings: Seq<Binding<C>>) -> bool {
    forall|i: int, j: int|
        0 <= i < bindings.len() && 0 <= j < bindings.len() && i != j ==> bindings[i].event
            != bindings[j].event
}

/// Whether `bindings` has a row for `event`.
spec fn has_row<C>(bindings: Seq<Binding<C>>, event: Event) -> bool {
    exists|i: int| 0 <= i < bindings.len() && #[trigger] bindings[i].event == event
}

/// The index of a row for `event` in `bindings`.
spec fn row_of<C>(bindings: Seq<Binding<C>>, event: Event) -> int {
    choose|i: int| 0 <= i < bindings.len() && #[trigger] bindings[i].event == event
}

/// The work behind each of `callbacks`, in the same order.
pub open spec fn works<C>(callbacks: Seq<Callback<C>>) -> Seq<C> {
    Seq::new(callbacks.len(), |i: int| callbacks[i]@)
}

/// The table that `bindings` stands for: each event with the work bound
/// to it.
spec fn table_of<C>(bindings: Seq<Binding<C>>) -> Map<Event, Seq<C>> {
    Map::new(
        |event: Event| has_row(bindings, event),
        |event: Event| works(bindings[row_of(bindings, event)].callbacks@),
    )
}

/// In a table without doubled events, each row is what the table holds
/// for the row's event.
proof fn lemma_row<C>(bindings: Seq<Binding<C>>, i: int)
    requires
        distinct_events(bindings),
        0 <= i < bindings.len(),
    ensures
        table_of(bindings).dom().contains(bindings[i].event),
        table_of(bindings)[bindings[i].event] == works(bindings[i].callbacks@),
{
    let event = bindings[i].event;
    assert(has_row(bindings, event));
    let j = row_of(bindings, event);
    assert(j == i);
}

/// An event that matches no row is not in the table.
proof fn lemma_no_row<C>(bindings: Seq<Binding<C>>, event: Event)
    requires
        forall|i: int| 0 <= i < bindings.len() ==> (#[trigger] bindings[i]).event != event,
    ensures
        !table_of(bindings).dom().contains(event),
{
}

impl<C> View for CallbackController<C> {
    type V = Map<Event, Seq<C>>;

    closed spec fn view(&self) -> Map<Event, Seq<C>> {
        table_of(self.bindings@)
    }
}

/// The work that `table` holds for `event`, in the order in which it was
/// added: none for an event that was never bound.
pub open spec fn bound_to<C>(table: Map<Event, Seq<C>>, event: Event) -> Seq<C> {
    if table.dom().contains(event) {
        table[event]
    } else {
        Seq::empty()
    }
}

impl<C> CallbackController<C> {
    /// Whether no event has two rows.
    pub closed spec fn wf(&self) -> bool {
        distinct_events(self.bindings@)
    }

    /// A table that binds nothing.
    pub fn new() -> (table: CallbackController<C>)
        ensures
            table.wf(),
            table@ == Map::<Event, Seq<C>>::empty(),
    {
        let table = CallbackController { bindings: Vec::new() };
        assert(table@ =~= Map::<Event, Seq<C>>::empty());
        table
    }

    /// The index of the row of `event`, if it has one.
    fn find(&self, event: Event) -> (at: Option<usize>)
        requires
            self.wf(),
        ensures
            match at {
                Some(i) => i < self.bindings@.len() && self.bindings@[i as int].event == event,
                None => !self@.dom().contains(event),
            },
    {
        let n: usize = self.bindings.len();
        let mut i: usize = 0;
        while i < n
            invariant
                n == self.bindings@.len(),
                i <= n,
                forall|j: int| 0 <= j < i ==> (#[trigger] self.bindings@[j]).event != event,
            decreases n - i,
        {
            if self.bindings[i].event == event {
                return Some(i);
            }
            i += 1;
        }
        proof {
            lemma_no_row(self.bindings@, event);
        }
        None
    }

    /// Binds `work` to `event`, after what is bound to it already.
    pub fn add_callback(&mut self, event: Event, work: C)
        requires
            old(self).wf(),
        ensures
            final(self).wf(),
            final(self)@ == old(self)@.insert(event, bound_to(old(self)@, event).push(work)),
    {
        let callback = Callback::from_fn(work);
        let ghost before = self.bindings@;
        let ghost target = table_of(before).insert(event, bound_to(table_of(before), event).push(work));
        match self.find(event) {
            Some(i) => {
                proof {
                    lemma_row(before, i as int);
                }
                let binding = &mut self.bindings[i];
                binding.callbacks.push(callback);
                proof {
                    let after = self.bindings@;
                    assert(after[i as int].event == event);
                    assert(after[i as int].callbacks@ == before[i as int].callbacks@.push(callback));
                    assert(works(after[i as int].callbacks@) =~= works(
                        before[i as int].callbacks@,
                    ).push(work));
                    assert(distinct_events(after)) by {
                        assert forall|a: int, b: int|
                            0 <= a < after.len() && 0 <= b < after.len() && a != b implies after[a].event
                            != after[b].event by {
                            assert(after[a].event == before[a].event);
                            assert(after[b].event == before[b].event);
                        }
                    }
                    lemma_row(after, i as int);
                    assert forall|e: Event| e != event implies (#[trigger] table_of(
                        after,
                    ).dom().contains(e)) == target.dom().contains(e) && bound_to(
                        table_of(after),
                        e,
                    ) == bound_to(target, e) by {
                        lemma_same_elsewhere(before, after, i as int, e);
                    }
                    lemma_tables_equal(table_of(after), target, event);
                }
            },
            None => {
                let mut callbacks: Vec<Callback<C>> = Vec::new();
                callbacks.push(callback);
                self.bindings.push(Binding { event, callbacks });
                proof {
                    let after = self.bindings@;
                    let last = before.len() as int;
                    assert(works(after[last].callbacks@) =~= Seq::<C>::empty().push(work));
                    assert(distinct_events(after)) by {
                        assert forall|a: int, b: int|
                            0 <= a < after.len() && 0 <= b < after.len() && a != b implies after[a].event
                            != after[b].event by {
                            if a < last {
                                assert(after[a] == before[a]);
                                assert(has_row(before, before[a].event));
                            }
                            if b < last {
                                assert(after[b] == before[b]);
                                assert(has_row(before, before[b].event));
                            }
                        }
                    }
                    lemma_row(after, last);
                    assert forall|e: Event| e != event implies (#[trigger] table_of(
                        after,
                    ).dom().contains(e)) == target.dom().contains(e) && bound_to(
                        table_of(after),
                        e,
                    ) == bound_to(target, e) by {
                        lemma_same_after_push(before, after, e);
                    }
                    lemma_tables_equal(table_of(after), target, event);
                }
            },
        }
    }

    /// Removes every callback bound to `event`, and nothing else.
    pub fn clear_callbacks_from(&mut self, event: Event)
        requires
            old(self).wf(),
        ensures
            final(self).wf(),
            final(self)@ == old(self)@.remove(event),
    {
        let ghost before = self.bindings@;
        match self.find(event) {
            Some(i) => {
                let _removed = self.bindings.remove(i);
                proof {
                    let after = self.bindings@;
                    assert(after == before.remove(i as int));
                    assert(distinct_events(after)) by {
                        assert forall|a: int, b: int|
                            0 <= a < after.len() && 0 <= b < after.len() && a != b implies after[a].event
                            != after[b].event by {
                            let a0 = if a < i { a } else { a + 1 };
                            let b0 = if b < i { b } else { b + 1 };
                            assert(after[a] == before[a0]);
                            assert(after[b] == before[b0]);
                        }
                    }
                    assert(table_of(after) =~= table_of(before).remove(event)) by {
                        assert forall|e: Event| #[trigger]
                            table_of(after).dom().contains(e) == table_of(before).remove(
                                event,
                            ).dom().contains(e) by {
                            if table_of(after).dom().contains(e) {
                                let k = row_of(after, e);
                                let k0 = if k < i { k } else { k + 1 };
                                assert(after[k] == before[k0]);
                                assert(has_row(before, e));
                                assert(e != event);
                            }
                            if table_of(before).remove(event).dom().contains(e) {
                                let k0 = row_of(before, e);
                                assert(k0 != i);
                                let k = if k0 < i { k0 } else { k0 - 1 };
                                assert(after[k] == before[k0]);
                                assert(has_row(after, e));
                            }
                        }
                        assert forall|e: Event| #[trigger]
                            table_of(after).dom().contains(e) implies table_of(after)[e]
                            == table_of(before).remove(event)[e] by {
                            let k = row_of(after, e);
                            let k0 = if k < i { k } else { k + 1 };
                            assert(after[k] == before[k0]);
                            lemma_row(after, k);
                            lemma_row(before, k0);
                        }
                    }
                }
            },
            None => {
                assert(self@ =~= old(self)@.remove(event));
            },
        }
    }

    /// The callbacks bound to `event`, in the order in which they were
    /// added; none for an event that was never bound.
    pub fn callbacks_for(&self, event: Event) -> (callbacks: Vec<Callback<C>>)
        requires
            self.wf(),
        ensures
            works(callbacks@) == bound_to(self@, event),
    {
        let mut callbacks: Vec<Callback<C>> = Vec::new();
        match self.find(event) {
            Some(i) => {
                proof {
                    lemma_row(self.bindings@, i as int);
                }
                let bound = &self.bindings[i].callbacks;
                let n: usize = bound.len();
                let mut k: usize = 0;
                while k < n
                    invariant
                        n == bound@.len(),
                        k <= n,
                        callbacks@ == bound@.take(k as int),
                    decreases n - k,
                {
                    callbacks.push(bound[k].clone());
                    k += 1;
                    assert(callbacks@ =~= bound@.take(k as int));
                }
                assert(callbacks@ =~= bound@);
            },
            None => {
                assert(works(callbacks@) =~= Seq::<C>::empty());
            },
        }
        callbacks
    }
}

/// Two tables are equal if they agree on `event` and on every other
/// event.
proof fn lemma_tables_equal<C>(a: Map<Event, Seq<C>>, b: Map<Event, Seq<C>>, event: Event)
    requires
        a.dom().contains(event),
        b.dom().contains(event),
        a[event] == b[event],
        forall|e: Event|
            e != event ==> (#[trigger] a.dom().contains(e)) == b.dom().contains(e) && bound_to(a, e)
                == bound_to(b, e),
    ensures
        a == b,
{
    assert forall|e: Event| a.dom().contains(e) implies #[trigger] a[e] == b[e] by {
        if e != event {
            assert(bound_to(a, e) == bound_to(b, e));
        }
    }
    assert(a =~= b);
}

/// Changing the callbacks of row `i` leaves what the table holds for
/// every other event.
proof fn lemma_same_elsewhere<C>(
    before: Seq<Binding<C>>,
    after: Seq<Binding<C>>,
    i: int,
    other: Event,
)
    requires
        distinct_events(before),
        distinct_events(after),
        0 <= i < before.len(),
        after.len() == before.len(),
        forall|j: int| 0 <= j < before.len() ==> (#[trigger] after[j]).event == before[j].event,
        forall|j: int| 0 <= j < before.len() && j != i ==> #[trigger] after[j] == before[j],
        other != before[i].event,
    ensures
        table_of(after).dom().contains(other) == table_of(before).dom().contains(other),
        bound_to(table_of(after), other) == bound_to(table_of(before), other),
{
    if has_row(before, other) {
        let k = row_of(before, other);
        assert(after[k] == before[k]);
        assert(has_row(after, other));
        lemma_row(before, k);
        lemma_row(after, k);
    }
    if has_row(after, other) {
        let k = row_of(after, other);
        assert(after[k].event == before[k].event);
        assert(has_row(before, other));
    }
}

/// Adding a row leaves what the table holds for every event but the new
/// row's.
proof fn lemma_same_after_push<C>(before: Seq<Binding<C>>, after: Seq<Binding<C>>, other: Event)
    requires
        distinct_events(before),
        distinct_events(after),
        after.len() == before.len() + 1,
        forall|j: int| 0 <= j < before.len() ==> #[trigger] after[j] == before[j],
        other != after[before.len() as int].event,
    ensures
        table_of(after).dom().contains(other) == table_of(before).dom().contains(other),
        bound_to(table_of(after), other) == bound_to(table_of(before), other),
{
    if has_row(before, other) {
        let k = row_of(before, other);
        assert(after[k] == before[k]);
        assert(has_row(after, other));
        lemma_row(before, k);
        lemma_row(after, k);
    }
    if has_row(after, other) {
        let k = row_of(after, other);
        assert(k < before.len());
        assert(after[k] == before[k]);
        assert(has_row(before, other));
    }
}

} // verus!
