use iced_aksel::id::{Id, Identifier, UniqueCounter};
use std::borrow::Cow;
use iced_aksel::layer::{Cached, LayerId, LayerIdCounter};

#[test]
fn id_with_tag_keeps_parent() {
    let id: Id<i32> = Id::new("my-button");
    let tagged_id = id.with_tag(42);
    assert_eq!(tagged_id.tag(), Some(42));
    assert_eq!(id.tag(), None);
    assert_eq!(*tagged_id.parent(), Identifier::Custom(Cow::Borrowed("my-button")));
    assert_eq!(tagged_id.parent(), id.parent());
}

#[test]
fn unique_ids_are_fresh() {
    let mut counter = UniqueCounter::new();
    let a: Id = Id::unique(&mut counter);
    let b: Id = Id::unique(&mut counter);
    let c: Id = Id::unique(&mut counter);
    assert_eq!(*a.parent(), Identifier::Unique(0));
    assert_eq!(*b.parent(), Identifier::Unique(1));
    assert_eq!(*c.parent(), Identifier::Unique(2));
    assert_ne!(a, b);
    assert_ne!(b, c);
    assert_ne!(a, c);
}

#[test]
fn tagged_ids_differ_by_tag() {
    let id: Id<u8> = Id::new("bars");
    assert_ne!(id.with_tag(1), id.with_tag(2));
    assert_eq!(id.with_tag(1), id.with_tag(1));
    assert_ne!(id, id.with_tag(1));
}

#[test]
fn layer_ids_start_at_one_and_differ() {
    let mut counter = LayerIdCounter::new();
    let first = LayerId::new(&mut counter);
    let second = LayerId::new(&mut counter);
    assert_eq!(first, LayerId(1));
    assert_eq!(second, LayerId(2));
    assert!(first < second);
}

#[test]
fn cached_edit_bumps_version() {
    let mut counter = LayerIdCounter::new();
    let mut data = Cached::new(vec![1.0_f64, 2.0, 3.0], &mut counter);
    assert_eq!(data.version(), Some(1));
    // Reading does not invalidate the cache: the version stays the same.
    let _ = data.get();
    assert_eq!(data.version(), Some(1));
    // Editing bumps the version.
    data.edit().push(4.0);
    assert_eq!(data.get().len(), 4);
    assert_eq!(data.version(), Some(2));
    assert_eq!(data.id(), Some(LayerId(1)));
}

#[test]
fn cached_layers_get_distinct_ids() {
    let mut counter = LayerIdCounter::new();
    let a = Cached::new(1u8, &mut counter);
    let b = Cached::new(2u8, &mut counter);
    assert_ne!(a.id(), b.id());
    assert_eq!(*a.get(), 1);
    assert_eq!(*b.get(), 2);
}

#[test]
fn identifier_names_may_be_owned() {
    let owned = Identifier::Custom(Cow::Owned(String::from("series-7")));
    let copy = owned.clone();
    assert_eq!(copy, owned);
    assert_eq!(copy, Identifier::Custom(Cow::Borrowed("series-7")));
    assert_ne!(copy, Identifier::Unique(7));
}

#[test]
fn ids_equal_by_name_and_tag() {
    let a: Id<u8> = Id::new("same");
    let b: Id<u8> = Id::new("same");
    let c: Id<u8> = Id::new("other");
    assert_eq!(a, b);
    assert_ne!(a, c);
    assert_eq!(a.with_tag(3), b.with_tag(3));
    assert_ne!(a.with_tag(3), a.with_tag(4));
    assert_ne!(a.with_tag(3), a);
    assert_eq!(a.with_tag(3).with_tag(5).tag(), Some(5));
}
