//! Plot layers and the versioned wrapper that lets a chart skip redrawing
//! data that has not changed.

use vstd::prelude::*;

verus! {

/// A layer of plot data together with the two axes it is drawn against.
pub struct Layer<'a, AxisId, P> {
    /// The id of the horizontal axis.
    pub horizontal_axis_id: AxisId,
    /// The id of the vertical axis.
    pub vertical_axis_id: AxisId,
    /// The data drawn in the layer.
    pub items: &'a P,
}

impl<'a, AxisId, P> Layer<'a, AxisId, P> {
    /// Creates a layer drawing `items` against the given axes.
    pub fn new(items: &'a P, horizontal_axis_id: AxisId, vertical_axis_id: AxisId) -> (l: Self)
        ensures
            l.items == items,
            l.horizontal_axis_id == horizontal_axis_id,
            l.vertical_axis_id == vertical_axis_id,
    {
        Layer { horizontal_axis_id, vertical_axis_id, items }
    }
}

/// An id for a layer.
#[derive(Debug, Clone, Copy, PartialEq, Eq, PartialOrd, Ord, Hash, Structural)]
pub struct LayerId(pub u64);

/// The source of layer ids. Ids start at 1 and each draw moves on by one, so
/// no two ids drawn from one source collide until the count wraps around.
#[derive(Debug)]
pub struct LayerIdCounter {
    next: u64,
}

impl LayerIdCounter {
    /// The value the next draw hands out.
    pub closed spec fn next_value(&self) -> u64 {
        self.next
    }

    /// A fresh source; its first id is 1.
    pub fn new() -> (c: Self)
        ensures
            c.next_value() == 1,
    {
        LayerIdCounter { next: 1 }
    }
}

impl LayerId {
    /// Creates a new layer id, drawing it from `counter`.
    pub fn new(counter: &mut LayerIdCounter) -> (id: Self)
        ensures
            id.0 == old(counter).next_value(),
            final(counter).next_value() == old(counter).next_value().wrapping_add(1),
    {
        let id = counter.next;
        counter.next = id.wrapping_add(1);
        LayerId(id)
    }
}

/// Layer ids drawn one after the other from the same source differ, as
/// long as the source has not run through all of `u64`.
pub proof fn lemma_layer_ids_differ(
    first: LayerId,
    second: LayerId,
    before: LayerIdCounter,
    middle: LayerIdCounter,
)
    requires
        before.next_value() < u64::MAX,
        first.0 == before.next_value(),
        middle.next_value() == before.next_value().wrapping_add(1),
        second.0 == middle.next_value(),
    ensures
        first != second,
        first.0 < second.0,
{
}

/// A versioned wrapper that caches plot data across frames.
///
/// Reading does not change the version; editing bumps it, signalling that the
/// layer must be redrawn on the next frame.
#[derive(Debug)]
pub struct Cached<T> {
    data: T,
    version: u64,
    uid: LayerId,
}

impl<T> Cached<T> {
    /// The wrapped data.
    pub closed spec fn data_spec(&self) -> T {
        self.data
    }

    /// The current version.
    pub closed spec fn version_spec(&self) -> u64 {
        self.version
    }

    /// The layer id of the wrapper.
    pub closed spec fn uid_spec(&self) -> LayerId {
        self.uid
    }

    /// Wraps `data` at version 1, with a layer id drawn from `counter`.
    pub fn new(data: T, counter: &mut LayerIdCounter) -> (c: Self)
        ensures
            c.data_spec() == data,
            c.version_spec() == 1,
            c.uid_spec().0 == old(counter).next_value(),
            final(counter).next_value() == old(counter).next_value().wrapping_add(1),
    {
        Cached { data, version: 1, uid: LayerId::new(counter) }
    }

    /// Returns a mutable reference to the inner data and bumps the version
    /// (wrapping around at `u64::MAX`).
    pub fn edit(&mut self) -> (r: &mut T)
        ensures
            *r == old(self).data_spec(),
            final(self).data_spec() == *final(r),
            final(self).version_spec() == old(self).version_spec().wrapping_add(1),
            final(self).uid_spec() == old(self).uid_spec(),
    {
        self.version = self.version.wrapping_add(1);
        &mut self.data
    }

    /// Returns a shared reference to the inner data, leaving the version as it is.
    pub fn get(&self) -> (r: &T)
        ensures
            *r == self.data_spec(),
    {
        &self.data
    }

    /// The version, as reported to the renderer.
    pub fn version(&self) -> (r: Option<u64>)
        ensures
            r == Some(self.version_spec()),
    {
        Some(self.version)
    }

    /// The layer id, as reported to the renderer.
    pub fn id(&self) -> (r: Option<LayerId>)
        ensures
            r == Some(self.uid_spec()),
    {
        Some(self.uid)
    }
}

/// An edit always changes the version, even where it wraps around: the
/// version after an edit differs from the version before it.
pub proof fn lemma_edit_changes_version<T>(before: Cached<T>, after: Cached<T>)
    requires
        after.version_spec() == before.version_spec().wrapping_add(1),
    ensures
        after.version_spec() != before.version_spec(),
{
}

/// Layer id `i` of `ids` is drawn from `counters[i]`, which then moves on to
/// `counters[i + 1]`.
pub open spec fn layer_drawn_in_turn(counters: Seq<LayerIdCounter>, ids: Seq<LayerId>, i: int) -> bool {
    &&& ids[i].0 == counters[i].next_value()
    &&& counters[i + 1].next_value() == counters[i].next_value().wrapping_add(1)
}

/// The source after `i` draws has moved on by `i`, as long as it has not
/// wrapped around.
proof fn lemma_source_after_draws(counters: Seq<LayerIdCounter>, ids: Seq<LayerId>, i: int)
    requires
        counters.len() == ids.len() + 1,
        counters[0].next_value() + ids.len() <= u64::MAX,
        forall|k: int| 0 <= k < ids.len() ==> #[trigger] layer_drawn_in_turn(counters, ids, k),
        0 <= i <= ids.len(),
    ensures
        counters[i].next_value() == counters[0].next_value() + i,
    decreases i,
{
    if i > 0 {
        lemma_source_after_draws(counters, ids, i - 1);
        assert(layer_drawn_in_turn(counters, ids, i - 1));
    }
}

/// Layer ids never collide: ids drawn one after another from a source that
/// starts at 1 or later, as long as it does not run through all of `u64`,
/// are never 0 and strictly increase in the order they were drawn.
pub proof fn lemma_layer_draws_increase(counters: Seq<LayerIdCounter>, ids: Seq<LayerId>)
    requires
        counters.len() == ids.len() + 1,
        counters[0].next_value() >= 1,
        counters[0].next_value() + ids.len() <= u64::MAX,
        forall|k: int| 0 <= k < ids.len() ==> #[trigger] layer_drawn_in_turn(counters, ids, k),
    ensures
        forall|i: int| 0 <= i < ids.len() ==> (#[trigger] ids[i]).0 != 0,
        forall|i: int, j: int| 0 <= i < j < ids.len() ==> (#[trigger] ids[i]).0 < (#[trigger] ids[j]).0,
{
    assert forall|i: int| 0 <= i < ids.len() implies (#[trigger] ids[i]).0 != 0 by {
        lemma_source_after_draws(counters, ids, i);
        assert(layer_drawn_in_turn(counters, ids, i));
    }
    assert forall|i: int, j: int| 0 <= i < j < ids.len() implies (#[trigger] ids[i]).0 < (
    #[trigger] ids[j]).0 by {
        lemma_source_after_draws(counters, ids, i);
        lemma_source_after_draws(counters, ids, j);
        assert(layer_drawn_in_turn(counters, ids, i));
        assert(layer_drawn_in_turn(counters, ids, j));
    }
}

/// How many of the steps are edits.
pub open spec fn count_edits(edits: Seq<bool>) -> nat
    decreases edits.len(),
{
    if edits.len() == 0 {
        0
    } else {
        count_edits(edits.drop_last()) + if edits.last() {
            1nat
        } else {
            0nat
        }
    }
}

/// Step `i` of a run of a cached layer: an edit (`edits[i]`) bumps the
/// version by one, wrapping; a read leaves it as it is.
pub open spec fn version_step<T>(states: Seq<Cached<T>>, edits: Seq<bool>, i: int) -> bool {
    states[i + 1].version_spec() == if edits[i] {
        states[i].version_spec().wrapping_add(1)
    } else {
        states[i].version_spec()
    }
}

/// Reading never bumps the version and every edit bumps it by exactly one:
/// after any run of reads and `k` edits, the version is the starting version
/// plus `k`, wrapping around at `u64::MAX`.
pub proof fn lemma_version_after_edits<T>(states: Seq<Cached<T>>, edits: Seq<bool>)
    requires
        states.len() == edits.len() + 1,
        forall|i: int| 0 <= i < edits.len() ==> #[trigger] version_step(states, edits, i),
    ensures
        states.last().version_spec() == (states[0].version_spec() + count_edits(edits))
            % 0x1_0000_0000_0000_0000,
    decreases edits.len(),
{
    let n = edits.len() as int;
    if n == 0 {
        assert(states.last() == states[0]);
    } else {
        let shorter = states.drop_last();
        let fewer = edits.drop_last();
        assert forall|i: int| 0 <= i < fewer.len() implies #[trigger] version_step(shorter, fewer, i) by {
            assert(version_step(states, edits, i));
        }
        lemma_version_after_edits(shorter, fewer);
        assert(version_step(states, edits, n - 1));
        let v0 = states[0].version_spec() as int;
        let c = count_edits(fewer) as int;
        let prev = states[n - 1].version_spec() as int;
        assert(prev == (v0 + c) % 0x1_0000_0000_0000_0000);
        if edits[n - 1] {
            vstd::arithmetic::div_mod::lemma_add_mod_noop(v0 + c, 1, 0x1_0000_0000_0000_0000);
            vstd::arithmetic::div_mod::lemma_small_mod(1, 0x1_0000_0000_0000_0000);
            vstd::arithmetic::div_mod::lemma_mod_twice(v0 + c, 0x1_0000_0000_0000_0000);
        }
    }
}

} // verus!
