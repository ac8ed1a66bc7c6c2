//! The axes a chart is configured with, and the checks a plot layer must
//! pass before it is drawn against them.

use vstd::prelude::*;
use vstd::std_specs::cmp::PartialEqSpec;
use crate::event::{Handler, runs};
use crate::layer::Layer;
use crate::position::{Orientation, Position, orientation_of};

verus! {

/// Errors that can occur during chart construction.
#[derive(Debug, Clone)]
pub enum Error<AxisId> {
    /// The same axis was given as both axes of a layer.
    DuplicateAxis {
        /// The id of the axis that was duplicated.
        id: AxisId,
    },
    /// The two axes of a layer have the same orientation.
    AxisConflict {
        /// The id of the axis given as horizontal.
        horizontal: AxisId,
        /// The orientation of the axis given as horizontal.
        horizontal_orientation: Orientation,
        /// The id of the axis given as vertical.
        vertical: AxisId,
        /// The orientation of the axis given as vertical.
        vertical_orientation: Orientation,
    },
    /// An axis id that the chart does not know.
    UnknownAxis {
        /// The unknown id.
        id: AxisId,
    },
}

/// The axes of a chart by id, in the order they were first set, with the
/// position of each. Setting an id again moves nothing but its position.
#[derive(Debug)]
pub struct AxisPositions<AxisId> {
    entries: Vec<(AxisId, Position)>,
}

/// The index of the first entry whose id equals `id`, by the ids' own
/// equality.
pub open spec fn first_index_of<AxisId: PartialEq>(entries: Seq<(AxisId, Position)>, id: AxisId) -> Option<
    int,
> {
    if exists|k: int| 0 <= k < entries.len() && (#[trigger] entries[k]).0.eq_spec(&id) {
        Some(
            choose|k: int|
                0 <= k < entries.len() && (#[trigger] entries[k]).0.eq_spec(&id) && forall|j: int|
                    0 <= j < k ==> !(#[trigger] entries[j]).0.eq_spec(&id),
        )
    } else {
        None
    }
}

impl<AxisId> AxisPositions<AxisId> {
    /// The axes, in order.
    pub closed spec fn entries_spec(&self) -> Seq<(AxisId, Position)> {
        self.entries@
    }

    /// A chart with no axes.
    pub fn new() -> (a: Self)
        ensures
            a.entries_spec().len() == 0,
    {
        AxisPositions { entries: Vec::new() }
    }

    /// The number of axes.
    pub fn len(&self) -> (n: usize)
        ensures
            n == self.entries_spec().len(),
    {
        self.entries.len()
    }
}

impl<AxisId: PartialEq> AxisPositions<AxisId> {
    /// Finds the index of the first axis whose id equals `id`.
    pub fn index_of(&self, id: &AxisId) -> (r: Option<usize>)
        ensures
            r matches Some(i) ==> i < self.entries_spec().len(),
            AxisId::obeys_eq_spec() ==> {
                &&& r is Some ==> {
                    &&& self.entries_spec()[r.unwrap() as int].0.eq_spec(id)
                    &&& forall|j: int|
                        0 <= j < r.unwrap() ==> !(#[trigger] self.entries_spec()[j]).0.eq_spec(id)
                }
                &&& r is None ==> forall|j: int|
                    0 <= j < self.entries_spec().len() ==> !(
                    #[trigger] self.entries_spec()[j]).0.eq_spec(id)
            },
    {
        let mut i: usize = 0;
        while i < self.entries.len()
            invariant
                0 <= i <= self.entries@.len(),
                AxisId::obeys_eq_spec() ==> forall|j: int|
                    0 <= j < i ==> !(#[trigger] self.entries@[j]).0.eq_spec(id),
            decreases self.entries@.len() - i,
        {
            if self.entries[i].0 == *id {
                return Some(i);
            }
            i = i + 1;
        }
        None
    }

    /// The orientation of the axis with the given id, if the chart has one.
    pub fn orientation_of(&self, id: &AxisId) -> (r: Option<Orientation>)
        ensures
            AxisId::obeys_eq_spec() ==> {
                &&& r is None <==> forall|j: int|
                    0 <= j < self.entries_spec().len() ==> !(
                    #[trigger] self.entries_spec()[j]).0.eq_spec(id)
                &&& r is Some ==> exists|k: int|
                    0 <= k < self.entries_spec().len() && (
                    #[trigger] self.entries_spec()[k]).0.eq_spec(id) && r == Some(
                        orientation_of(self.entries_spec()[k].1),
                    ) && forall|j: int|
                        0 <= j < k ==> !(#[trigger] self.entries_spec()[j]).0.eq_spec(id)
            },
    {
        match self.index_of(id) {
            Some(i) => Some(self.entries[i].1.orientation()),
            None => None,
        }
    }

    /// Sets the position of the axis `id`: an axis already present keeps its
    /// place in the order and takes the new position; a new axis is added last.
    pub fn set_axis(&mut self, id: AxisId, position: Position)
        ensures
            AxisId::obeys_eq_spec() ==> match old(self).index_of_spec(id) {
                Some(k) => final(self).entries_spec() == old(self).entries_spec().update(
                    k,
                    (old(self).entries_spec()[k].0, position),
                ),
                None => final(self).entries_spec() == old(self).entries_spec().push((id, position)),
            },
    {
        match self.index_of(&id) {
            Some(i) => {
                let ghost k = i as int;
                let old_entry = self.entries.remove(i);
                self.entries.insert(i, (old_entry.0, position));
                proof {
                    if AxisId::obeys_eq_spec() {
                        assert(old(self).index_of_spec(id) == Some(k)) by {
                            lemma_first_index_unique(old(self).entries@, id, k);
                        }
                        assert(self.entries@ =~= old(self).entries@.update(
                            k,
                            (old(self).entries@[k].0, position),
                        ));
                    }
                }
            },
            None => {
                self.entries.push((id, position));
            },
        }
    }

    /// The index of the first axis whose id equals `id`.
    pub open spec fn index_of_spec(&self, id: AxisId) -> Option<int> {
        first_index_of(self.entries_spec(), id)
    }
}

/// An entry that matches `id` with no earlier match is the first match.
proof fn lemma_first_index_unique<AxisId: PartialEq>(
    entries: Seq<(AxisId, Position)>,
    id: AxisId,
    k: int,
)
    requires
        0 <= k < entries.len(),
        entries[k].0.eq_spec(&id),
        forall|j: int| 0 <= j < k ==> !(#[trigger] entries[j]).0.eq_spec(&id),
    ensures
        first_index_of(entries, id) == Some(k),
{
    let c = choose|c: int|
        0 <= c < entries.len() && (#[trigger] entries[c]).0.eq_spec(&id) && forall|j: int|
            0 <= j < c ==> !(#[trigger] entries[j]).0.eq_spec(&id);
    assert(entries[k].0.eq_spec(&id));
    if c < k {
        assert(!entries[c].0.eq_spec(&id));
    }
    if c > k {
        assert(!entries[k].0.eq_spec(&id));
    }
}

/// The orientation of the axis `id`, if the chart has it.
pub open spec fn axis_orientation<AxisId: PartialEq>(axes: AxisPositions<AxisId>, id: AxisId) -> Option<
    Orientation,
> {
    match axes.index_of_spec(id) {
        Some(k) => Some(orientation_of(axes.entries_spec()[k].1)),
        None => None,
    }
}

/// Checks that a layer can be drawn against the chart's axes: its two axes
/// must be different, both known to the chart, and of different
/// orientations. The first check that fails, in that order, pushes its error
/// and the layer is refused.
pub fn verify_layer<'a, AxisId: PartialEq + Clone, P>(
    layer: &Layer<'a, AxisId, P>,
    axes: &AxisPositions<AxisId>,
    errors: &mut Vec<Error<AxisId>>,
) -> (accepted: bool)
    ensures
        accepted ==> final(errors)@ == old(errors)@,
        !accepted ==> final(errors)@.len() == old(errors)@.len() + 1 && final(errors)@.subrange(
            0,
            old(errors)@.len() as int,
        ) == old(errors)@,
        AxisId::obeys_eq_spec() ==> {
            let x = layer.horizontal_axis_id;
            let y = layer.vertical_axis_id;
            let e = final(errors)@.last();
            if x.eq_spec(&y) {
                !accepted && (e matches Error::DuplicateAxis { id } && cloned(x, id))
            } else if axis_orientation(*axes, x) is None {
                !accepted && (e matches Error::UnknownAxis { id } && cloned(x, id))
            } else if axis_orientation(*axes, y) is None {
                !accepted && (e matches Error::UnknownAxis { id } && cloned(y, id))
            } else if axis_orientation(*axes, x) == axis_orientation(*axes, y) {
                &&& !accepted
                &&& e matches Error::AxisConflict {
                    horizontal,
                    horizontal_orientation,
                    vertical,
                    vertical_orientation,
                } && cloned(x, horizontal) && cloned(y, vertical) && Some(horizontal_orientation)
                    == axis_orientation(*axes, x) && Some(vertical_orientation) == axis_orientation(
                    *axes,
                    y,
                )
            } else {
                accepted
            }
        },
{
    let x_id = &layer.horizontal_axis_id;
    let y_id = &layer.vertical_axis_id;
    if *x_id == *y_id {
        errors.push(Error::DuplicateAxis { id: x_id.clone() });
        return false;
    }
    let x = match axes.orientation_of(x_id) {
        Some(o) => o,
        None => {
            errors.push(Error::UnknownAxis { id: x_id.clone() });
            return false;
        },
    };
    let y = match axes.orientation_of(y_id) {
        Some(o) => o,
        None => {
            errors.push(Error::UnknownAxis { id: y_id.clone() });
            return false;
        },
    };
    if x == y {
        errors.push(
            Error::AxisConflict {
                horizontal: x_id.clone(),
                horizontal_orientation: x,
                vertical: y_id.clone(),
                vertical_orientation: y,
            },
        );
        return false;
    }
    true
}

/// The messages among `outs`, in order.
pub open spec fn messages_of<M>(outs: Seq<Option<M>>) -> Seq<M>
    decreases outs.len(),
{
    if outs.len() == 0 {
        Seq::empty()
    } else {
        messages_of(outs.drop_last()) + match outs.last() {
            Some(m) => seq![m],
            None => Seq::empty(),
        }
    }
}

/// `outs[i]` is what running `handler` on error `i` yielded, for every error.
pub open spec fn ran_on_each<AxisId, M: Clone>(
    handler: Handler<M, (Error<AxisId>,)>,
    errors: Seq<Error<AxisId>>,
    outs: Seq<Option<M>>,
) -> bool {
    &&& outs.len() == errors.len()
    &&& forall|i: int| 0 <= i < errors.len() ==> runs(handler, (errors[i],), #[trigger] outs[i])
}

/// `messages` are what the error handler yields, in order, when it is run
/// once on each of `errors` in turn.
pub open spec fn reported<AxisId, M: Clone>(
    handler: Handler<M, (Error<AxisId>,)>,
    errors: Seq<Error<AxisId>>,
    messages: Seq<M>,
) -> bool {
    exists|outs: Seq<Option<M>>| ran_on_each(handler, errors, outs) && messages == messages_of(outs)
}

/// Reports the errors collected while building a chart: the error handler
/// runs once on each error, in order, and the messages it yields are
/// returned in that order. The error list is left empty.
pub fn report_errors<AxisId, M: Clone>(
    errors: &mut Vec<Error<AxisId>>,
    handler: &Handler<M, (Error<AxisId>,)>,
) -> (messages: Vec<M>)
    ensures
        final(errors)@.len() == 0,
        reported(*handler, old(errors)@, messages@),
{
    let mut pending: Vec<Error<AxisId>> = Vec::new();
    std::mem::swap(&mut pending, errors);
    let ghost all = pending@;
    let n = pending.len();
    let mut messages: Vec<M> = Vec::new();
    let ghost mut outs: Seq<Option<M>> = Seq::empty();
    let mut i: usize = 0;
    while pending.len() > 0
        invariant
            all.len() == n,
            i <= n,
            all.len() == i + pending@.len(),
            pending@ == all.subrange(i as int, all.len() as int),
            errors@.len() == 0,
            ran_on_each(*handler, all.subrange(0, i as int), outs),
            messages@ == messages_of(outs),
        decreases pending@.len(),
    {
        let e = pending.remove(0);
        assert(all[i as int] == e);
        let r = handler.run((e,));
        let ghost before = outs;
        proof {
            outs = outs.push(r);
            assert(outs.drop_last() =~= before);
        }
        match r {
            Some(m) => {
                messages.push(m);
            },
            None => {},
        }
        assert(messages@ =~= messages_of(outs));
        assert(pending@ =~= all.subrange(i + 1, all.len() as int));
        assert forall|k: int| 0 <= k < i + 1 implies runs(
            *handler,
            (all.subrange(0, i + 1)[k],),
            #[trigger] outs[k],
        ) by {
            if k < i {
                assert(all.subrange(0, i + 1)[k] == all.subrange(0, i as int)[k]);
            }
        }
        i = i + 1;
    }
    assert(all.subrange(0, n as int) =~= all);
    messages
}

} // verus!
