use iced_aksel::layer::{Cached, LayerIdCounter};
use iced_aksel::memory::{CacheSignature, LayerIdentifier, RedrawMemory};

fn identifier<T>(layer: &Cached<T>) -> LayerIdentifier {
    LayerIdentifier { id: layer.id(), version: layer.version() }
}

type Bounds = (i32, i32, i32, i32);

#[test]
fn signature_forces_redraw_on_unversioned_layer() {
    let versioned = LayerIdentifier { id: None, version: Some(3) };
    let unversioned = LayerIdentifier { id: None, version: None };
    let s: CacheSignature<Bounds> = CacheSignature::new(1, (0, 0, 10, 10), vec![versioned]);
    assert!(!s.force_redraw);
    let s: CacheSignature<Bounds> =
        CacheSignature::new(1, (0, 0, 10, 10), vec![versioned, unversioned]);
    assert!(s.force_redraw);
    assert_eq!(s.layers.len(), 2);
    assert_eq!(s.state_version, 1);
}

#[test]
fn first_frame_redraws_and_same_frame_is_reused() {
    let mut counter = LayerIdCounter::new();
    let layer = Cached::new(5u32, &mut counter);
    let mut memory: RedrawMemory<Bounds> = RedrawMemory::new();
    assert!(memory.update(CacheSignature::new(7, (0, 0, 100, 50), vec![identifier(&layer)])));
    assert!(!memory.update(CacheSignature::new(7, (0, 0, 100, 50), vec![identifier(&layer)])));
    assert!(!memory.update(CacheSignature::new(7, (0, 0, 100, 50), vec![identifier(&layer)])));
}

#[test]
fn edited_layer_forces_redraw() {
    let mut counter = LayerIdCounter::new();
    let mut layer = Cached::new(vec![1u32], &mut counter);
    let mut memory: RedrawMemory<Bounds> = RedrawMemory::new();
    assert!(memory.update(CacheSignature::new(0, (0, 0, 1, 1), vec![identifier(&layer)])));
    layer.edit().push(2);
    assert!(memory.update(CacheSignature::new(0, (0, 0, 1, 1), vec![identifier(&layer)])));
    assert!(!memory.update(CacheSignature::new(0, (0, 0, 1, 1), vec![identifier(&layer)])));
}

#[test]
fn changed_bounds_or_state_force_redraw() {
    let mut memory: RedrawMemory<Bounds> = RedrawMemory::new();
    let layers = || vec![LayerIdentifier { id: None, version: Some(1) }];
    assert!(memory.update(CacheSignature::new(0, (0, 0, 1, 1), layers())));
    assert!(memory.update(CacheSignature::new(0, (0, 0, 2, 1), layers())));
    assert!(memory.update(CacheSignature::new(1, (0, 0, 2, 1), layers())));
    assert!(!memory.update(CacheSignature::new(1, (0, 0, 2, 1), layers())));
    // A layer more or less changes the frame too.
    assert!(memory.update(CacheSignature::new(1, (0, 0, 2, 1), vec![])));
}

#[test]
fn unversioned_layer_always_redraws() {
    let mut memory: RedrawMemory<Bounds> = RedrawMemory::new();
    let layers = || vec![LayerIdentifier { id: None, version: None }];
    assert!(memory.update(CacheSignature::new(0, (0, 0, 1, 1), layers())));
    assert!(memory.update(CacheSignature::new(0, (0, 0, 1, 1), layers())));
}

#[test]
fn edit_wraps_version_around() {
    let mut counter = LayerIdCounter::new();
    let mut layer = Cached::new(0u8, &mut counter);
    let start = layer.version();
    for _ in 0..3 {
        *layer.edit() += 1;
    }
    assert_eq!(layer.version(), Some(start.unwrap() + 3));
    assert_eq!(*layer.get(), 3);
}
