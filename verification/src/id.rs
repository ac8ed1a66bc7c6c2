//! Identifiers for plot interactions.

use vstd::prelude::*;
use std::borrow::Cow;

verus! {

/// The part of an [`Id`] that names the interaction itself.
#[derive(Debug, PartialEq, Eq, Hash)]
pub enum Identifier {
    /// A number drawn from a [`UniqueCounter`].
    Unique(usize),
    /// A name chosen by the user, borrowed or owned.
    Custom(Cow<'static, str>),
}

impl Clone for Identifier {
    /// A copy of the identifier; an owned name is copied.
    fn clone(&self) -> (r: Self)
        ensures
            r == *self,
    {
        match self {
            Identifier::Unique(n) => Identifier::Unique(*n),
            Identifier::Custom(Cow::Borrowed(name)) => Identifier::Custom(Cow::Borrowed(name)),
            Identifier::Custom(Cow::Owned(name)) => Identifier::Custom(Cow::Owned(name.clone())),
        }
    }
}

/// An identifier for an interaction, optionally refined by a tag.
///
/// A single "parent" identifier can be tagged with sub-ids to support granular
/// interactions within the same general area.
#[derive(Debug, Clone, PartialEq, Eq, Hash)]
pub struct Id<Tag = ()> {
    identifier: Identifier,
    tag: Option<Tag>,
}

/// The source of unique identifiers.
///
/// Each draw hands out the current number and moves on by one, so every
/// identifier drawn from one counter differs from all those drawn before it
/// (until the count wraps around, after `usize::MAX` draws).
#[derive(Debug)]
pub struct UniqueCounter {
    next: usize,
}

impl UniqueCounter {
    /// The number the next draw hands out.
    pub closed spec fn next_value(&self) -> usize {
        self.next
    }

    /// A fresh counter, starting at zero.
    pub fn new() -> (c: Self)
        ensures
            c.next_value() == 0,
    {
        UniqueCounter { next: 0 }
    }
}

impl<Tag> Id<Tag> {
    /// The identifier part of the id.
    pub closed spec fn identifier_spec(&self) -> Identifier {
        self.identifier
    }

    /// The tag part of the id.
    pub closed spec fn tag_spec(&self) -> Option<Tag> {
        self.tag
    }

    /// The id with this identifier and this tag: an id is its identifier and
    /// its tag, nothing more.
    pub closed spec fn make(identifier: Identifier, tag: Option<Tag>) -> Self {
        Id { identifier, tag }
    }

    /// Whether this id was drawn from `counter` before its current state:
    /// it is a unique id whose number lies below the counter's next value.
    pub open spec fn drawn_before(&self, counter: UniqueCounter) -> bool {
        match self.identifier_spec() {
            Identifier::Unique(n) => n < counter.next_value(),
            Identifier::Custom(_) => false,
        }
    }

    /// Creates a new custom [`Id`] without a tag.
    pub fn new(id: &'static str) -> (r: Self)
        ensures
            r.identifier_spec() == Identifier::Custom(Cow::Borrowed(id)),
            r.tag_spec() is None,
            r == Id::<Tag>::make(Identifier::Custom(Cow::Borrowed(id)), None),
    {
        Id { identifier: Identifier::Custom(Cow::Borrowed(id)), tag: None }
    }

    /// Creates a new **unique** id, drawing the next number from `counter`.
    ///
    /// The id differs from every id drawn from the counter before, as long as
    /// the counter has not run through all of `usize`.
    pub fn unique(counter: &mut UniqueCounter) -> (r: Self)
        ensures
            r.identifier_spec() == Identifier::Unique(old(counter).next_value()),
            r.tag_spec() is None,
            r == Id::<Tag>::make(Identifier::Unique(old(counter).next_value()), None),
            final(counter).next_value() == old(counter).next_value().wrapping_add(1),
    {
        let n = counter.next;
        counter.next = n.wrapping_add(1);
        Id { identifier: Identifier::Unique(n), tag: None }
    }

    /// Returns an id with the same parent identifier and the given tag.
    pub fn with_tag(&self, tag: Tag) -> (r: Self)
        ensures
            r.identifier_spec() == self.identifier_spec(),
            r.tag_spec() == Some(tag),
            r == Id::<Tag>::make(self.identifier_spec(), Some(tag)),
    {
        Id { identifier: self.identifier.clone(), tag: Some(tag) }
    }

    /// Returns the parent [`Identifier`].
    pub fn parent(&self) -> (r: &Identifier)
        ensures
            *r == self.identifier_spec(),
    {
        &self.identifier
    }
}

impl<Tag: Clone> Id<Tag> {
    /// Returns a copy of the tag of the [`Id`], if any.
    pub fn tag(&self) -> (r: Option<Tag>)
        ensures
            r is None <==> self.tag_spec() is None,
            r is Some ==> cloned(self.tag_spec().unwrap(), r.unwrap()),
    {
        self.tag.clone()
    }
}

/// A unique id is never one drawn before it. Drawing an id from a
/// counter that has not yet run through `usize` yields an id that differs from
/// every id drawn from the same counter earlier, and those earlier ids stay
/// "drawn before" the advanced counter.
pub proof fn lemma_unique_ids_are_fresh<Tag>(
    earlier: Id<Tag>,
    before: UniqueCounter,
    after: UniqueCounter,
    drawn: Id<Tag>,
)
    requires
        before.next_value() < usize::MAX,
        earlier.drawn_before(before),
        drawn.identifier_spec() == Identifier::Unique(before.next_value()),
        after.next_value() == before.next_value().wrapping_add(1),
    ensures
        earlier.identifier_spec() != drawn.identifier_spec(),
        earlier.drawn_before(after),
        drawn.drawn_before(after),
{
}

/// Id `i` of `ids` is drawn from `counters[i]`, which then moves on to
/// `counters[i + 1]`.
pub open spec fn drawn_in_turn<Tag>(counters: Seq<UniqueCounter>, ids: Seq<Id<Tag>>, i: int) -> bool {
    &&& ids[i].identifier_spec() == Identifier::Unique(counters[i].next_value())
    &&& counters[i + 1].next_value() == counters[i].next_value().wrapping_add(1)
}

/// The counter after `i` draws has moved on by `i`, as long as it has not
/// wrapped around.
proof fn lemma_counter_after_draws<Tag>(counters: Seq<UniqueCounter>, ids: Seq<Id<Tag>>, i: int)
    requires
        counters.len() == ids.len() + 1,
        counters[0].next_value() + ids.len() <= usize::MAX,
        forall|k: int| 0 <= k < ids.len() ==> #[trigger] drawn_in_turn(counters, ids, k),
        0 <= i <= ids.len(),
    ensures
        counters[i].next_value() == counters[0].next_value() + i,
    decreases i,
{
    if i > 0 {
        lemma_counter_after_draws(counters, ids, i - 1);
        assert(drawn_in_turn(counters, ids, i - 1));
    }
}

/// Unique ids are unique: ids drawn one after another from one counter, as
/// long as it does not run through all of `usize`, are unique ids that all
/// differ from one another (and so from every custom id).
pub proof fn lemma_unique_draws_distinct<Tag>(counters: Seq<UniqueCounter>, ids: Seq<Id<Tag>>)
    requires
        counters.len() == ids.len() + 1,
        counters[0].next_value() + ids.len() <= usize::MAX,
        forall|k: int| 0 <= k < ids.len() ==> #[trigger] drawn_in_turn(counters, ids, k),
    ensures
        forall|i: int| 0 <= i < ids.len() ==> (#[trigger] ids[i]).identifier_spec() is Unique,
        forall|i: int, j: int|
            0 <= i < j < ids.len() ==> (#[trigger] ids[i]).identifier_spec() != (
            #[trigger] ids[j]).identifier_spec(),
{
    assert forall|i: int| 0 <= i < ids.len() implies (#[trigger] ids[i]).identifier_spec() is Unique by {
        assert(drawn_in_turn(counters, ids, i));
    }
    assert forall|i: int, j: int| 0 <= i < j < ids.len() implies (
    #[trigger] ids[i]).identifier_spec() != (#[trigger] ids[j]).identifier_spec() by {
        lemma_counter_after_draws(counters, ids, i);
        lemma_counter_after_draws(counters, ids, j);
        assert(drawn_in_turn(counters, ids, i));
        assert(drawn_in_turn(counters, ids, j));
    }
}

/// An id is determined by its identifier and its tag: two ids are equal
/// exactly when both parts are, and every id is the one made of its parts.
pub proof fn lemma_id_parts<Tag>(a: Id<Tag>, b: Id<Tag>)
    ensures
        a == Id::<Tag>::make(a.identifier_spec(), a.tag_spec()),
        (a == b) <==> (a.identifier_spec() == b.identifier_spec() && a.tag_spec() == b.tag_spec()),
{
}

/// Ids made from names are equal exactly when the names are: `Id::new(s)`
/// and `Id::new(s2)` are the same id if and only if `s == s2`.
pub proof fn lemma_named_ids_equal<Tag>(a: Id<Tag>, b: Id<Tag>, s: &'static str, s2: &'static str)
    requires
        a == Id::<Tag>::make(Identifier::Custom(Cow::Borrowed(s)), None),
        b == Id::<Tag>::make(Identifier::Custom(Cow::Borrowed(s2)), None),
    ensures
        (a == b) <==> (s == s2),
        a.identifier_spec() == Identifier::Custom(Cow::Borrowed(s)),
        a.tag_spec() is None,
{
    lemma_id_parts(a, b);
    if a == b {
        assert(a.identifier_spec() == b.identifier_spec());
    }
}

/// Tagging an id keeps its parent and sets its tag: `id.with_tag(t1)` and
/// `id.with_tag(t2)` are the same id exactly when `t1 == t2`, and tagging an
/// id that has no tag gives a different id.
pub proof fn lemma_tagged_ids_equal<Tag>(id: Id<Tag>, a: Id<Tag>, b: Id<Tag>, t1: Tag, t2: Tag)
    requires
        a == Id::<Tag>::make(id.identifier_spec(), Some(t1)),
        b == Id::<Tag>::make(id.identifier_spec(), Some(t2)),
    ensures
        (a == b) <==> (t1 == t2),
        a.identifier_spec() == id.identifier_spec(),
        a.tag_spec() == Some(t1),
        id.tag_spec() is None ==> a != id,
{
    lemma_id_parts(a, b);
    lemma_id_parts(a, id);
    if a == b {
        assert(a.tag_spec() == b.tag_spec());
    }
}

} // verus!
