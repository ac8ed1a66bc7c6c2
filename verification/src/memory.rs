//! What a chart remembers between frames to decide whether its cached
//! geometry is still valid.

use vstd::prelude::*;
use vstd::std_specs::cmp::PartialEqSpec;
use crate::layer::{Cached, LayerId, lemma_edit_changes_version};

verus! {

/// The identity of one layer's data in a frame: its id and version, where the
/// data reports them.
#[derive(Debug, Clone, Copy)]
pub struct LayerIdentifier {
    /// The id of the layer's data.
    pub id: Option<LayerId>,
    /// The version of the layer's data.
    pub version: Option<u64>,
}

/// Everything that, when unchanged, lets a chart reuse last frame's geometry:
/// the version of the axis state, the bounds of the widget, and the identity
/// of every layer. Layers that report no version force a redraw.
#[derive(Debug)]
pub struct CacheSignature<B> {
    /// The version of the axis state.
    pub state_version: u64,
    /// The bounds of the chart.
    pub layout_bounds: B,
    /// The identities of the layers, in drawing order.
    pub layers: Vec<LayerIdentifier>,
    /// Whether some layer reports no version, so nothing can be reused.
    pub force_redraw: bool,
}

/// Whether some layer reports no version.
pub open spec fn some_layer_unversioned(layers: Seq<LayerIdentifier>) -> bool {
    exists|k: int| 0 <= k < layers.len() && (#[trigger] layers[k]).version is None
}

/// Whether two signatures describe the same frame, by the bounds' own notion
/// of equality.
pub open spec fn same_signature<B: PartialEq>(a: CacheSignature<B>, b: CacheSignature<B>) -> bool {
    &&& a.state_version == b.state_version
    &&& a.layout_bounds.eq_spec(&b.layout_bounds)
    &&& a.layers@ == b.layers@
    &&& a.force_redraw == b.force_redraw
}

impl<B> CacheSignature<B> {
    /// The signature of a frame.
    pub fn new(state_version: u64, layout_bounds: B, layers: Vec<LayerIdentifier>) -> (s: Self)
        ensures
            s.state_version == state_version,
            s.layout_bounds == layout_bounds,
            s.layers@ == layers@,
            s.force_redraw == some_layer_unversioned(layers@),
            forall|k: int|
                0 <= k < layers@.len() && (#[trigger] layers@[k]).version is None ==> s.force_redraw,
            !s.force_redraw ==> forall|k: int|
                0 <= k < layers@.len() ==> (#[trigger] layers@[k]).version is Some,
    {
        let mut force_redraw = false;
        let mut i: usize = 0;
        while i < layers.len()
            invariant
                0 <= i <= layers@.len(),
                force_redraw == exists|k: int| 0 <= k < i && (#[trigger] layers@[k]).version is None,
            decreases layers@.len() - i,
        {
            if layers[i].version.is_none() {
                force_redraw = true;
            }
            i = i + 1;
        }
        CacheSignature { state_version, layout_bounds, layers, force_redraw }
    }
}

/// Compares two layer identities field by field.
fn same_layer(a: &LayerIdentifier, b: &LayerIdentifier) -> (r: bool)
    ensures
        r == (*a == *b),
{
    let same_id = match (a.id, b.id) {
        (Some(x), Some(y)) => x.0 == y.0,
        (None, None) => true,
        _ => false,
    };
    let same_version = match (a.version, b.version) {
        (Some(x), Some(y)) => x == y,
        (None, None) => true,
        _ => false,
    };
    same_id && same_version
}

/// Compares two signatures.
fn signatures_equal<B: PartialEq>(a: &CacheSignature<B>, b: &CacheSignature<B>) -> (r: bool)
    ensures
        B::obeys_eq_spec() ==> r == same_signature(*a, *b),
        r ==> a.state_version == b.state_version && a.layers@ == b.layers@ && a.force_redraw
            == b.force_redraw,
{
    if a.state_version != b.state_version || a.force_redraw != b.force_redraw {
        return false;
    }
    if !(a.layout_bounds == b.layout_bounds) {
        return false;
    }
    if a.layers.len() != b.layers.len() {
        return false;
    }
    let mut i: usize = 0;
    while i < a.layers.len()
        invariant
            0 <= i <= a.layers@.len(),
            a.layers@.len() == b.layers@.len(),
            forall|k: int| 0 <= k < i ==> a.layers@[k] == b.layers@[k],
        decreases a.layers@.len() - i,
    {
        if !same_layer(&a.layers[i], &b.layers[i]) {
            return false;
        }
        i = i + 1;
    }
    assert(a.layers@ =~= b.layers@);
    true
}

/// The signature of the last frame whose geometry is cached.
#[derive(Debug)]
pub struct RedrawMemory<B> {
    last_signature: Option<CacheSignature<B>>,
}

impl<B> RedrawMemory<B> {
    /// The signature of the last frame that was drawn.
    pub closed spec fn last_spec(&self) -> Option<CacheSignature<B>> {
        self.last_signature
    }

    /// A memory of no frame: the first frame always redraws.
    pub fn new() -> (m: Self)
        ensures
            m.last_spec() is None,
    {
        RedrawMemory { last_signature: None }
    }
}

impl<B: PartialEq> RedrawMemory<B> {
    /// Whether a frame with this signature must drop the cached geometry: it
    /// forces a redraw, or nothing was drawn before, or it differs from the
    /// signature of the last frame drawn.
    pub open spec fn redraws(&self, signature: CacheSignature<B>) -> bool {
        ||| signature.force_redraw
        ||| self.last_spec() is None
        ||| !same_signature(self.last_spec().unwrap(), signature)
    }

    /// The signature remembered after a frame with this signature: the new
    /// one when the frame redraws, the old one otherwise.
    pub open spec fn last_after(&self, signature: CacheSignature<B>) -> Option<CacheSignature<B>> {
        if self.redraws(signature) {
            Some(signature)
        } else {
            self.last_spec()
        }
    }

    /// Records the signature of a new frame and says whether the cached
    /// geometry (and the interaction areas drawn with it) must be dropped: the
    /// frame forces a redraw, or nothing was drawn before, or the signature
    /// differs from the last one. The signature is remembered only then.
    pub fn update(&mut self, signature: CacheSignature<B>) -> (changed: bool)
        ensures
            B::obeys_eq_spec() ==> changed == old(self).redraws(signature),
            signature.force_redraw || old(self).last_spec() is None ==> changed,
            old(self).last_spec() matches Some(last) && (last.state_version
                != signature.state_version || last.layers@ != signature.layers@) ==> changed,
            changed ==> final(self).last_spec() == Some(signature),
            !changed ==> final(self).last_spec() == old(self).last_spec(),
            B::obeys_eq_spec() ==> final(self).last_spec() == old(self).last_after(signature),
    {
        let changed = if signature.force_redraw {
            true
        } else {
            match &self.last_signature {
                None => true,
                Some(last) => !signatures_equal(last, &signature),
            }
        };
        if changed {
            self.last_signature = Some(signature);
        }
        changed
    }
}

/// The same frame twice in a row is drawn once: after a frame is recorded, a
/// frame with the very same signature reuses the cached geometry, provided its
/// layers all report a version and its bounds equal themselves.
pub proof fn lemma_repeated_frame_is_reused<B: PartialEq>(
    before: RedrawMemory<B>,
    after: RedrawMemory<B>,
    signature: CacheSignature<B>,
)
    requires
        B::obeys_eq_spec(),
        !signature.force_redraw,
        signature.layout_bounds.eq_spec(&signature.layout_bounds),
        after.last_spec() == before.last_after(signature),
    ensures
        !after.redraws(signature),
{
    if before.redraws(signature) {
        assert(signature.layers@ == signature.layers@);
    }
}

/// The identity a cached layer reports to the frame signature.
pub open spec fn identifier_of<T>(layer: Cached<T>) -> LayerIdentifier {
    LayerIdentifier { id: Some(layer.uid_spec()), version: Some(layer.version_spec()) }
}

/// Editing a cached layer forces a redraw: if the last frame drawn showed the
/// layer before the edit, a frame showing it after the edit (in the same
/// place) does not reuse the cached geometry.
pub proof fn lemma_edit_forces_redraw<B: PartialEq, T>(
    memory: RedrawMemory<B>,
    drawn: CacheSignature<B>,
    next: CacheSignature<B>,
    before: Cached<T>,
    after: Cached<T>,
    k: int,
)
    requires
        memory.last_spec() == Some(drawn),
        after.version_spec() == before.version_spec().wrapping_add(1),
        0 <= k < drawn.layers@.len(),
        0 <= k < next.layers@.len(),
        drawn.layers@[k] == identifier_of(before),
        next.layers@[k] == identifier_of(after),
    ensures
        memory.redraws(next),
{
    lemma_edit_changes_version(before, after);
    assert(drawn.layers@[k] != next.layers@[k]);
}

/// A layer without a version forces a redraw wherever it is drawn: if any
/// layer, at any position, reports no version, the frame's layers force a
/// redraw; and they force none only when every layer reports a version.
pub proof fn lemma_any_unversioned_layer_forces(layers: Seq<LayerIdentifier>, k: int)
    ensures
        0 <= k < layers.len() && layers[k].version is None ==> some_layer_unversioned(layers),
        !some_layer_unversioned(layers) ==> forall|j: int|
            0 <= j < layers.len() ==> (#[trigger] layers[j]).version is Some,
{
}

/// A frame with a layer that reports no version is always redrawn, however
/// often the same frame repeats: whatever the memory holds, the update for
/// such a signature reports a change.
pub proof fn lemma_unversioned_frame_always_redraws<B: PartialEq>(
    memory: RedrawMemory<B>,
    signature: CacheSignature<B>,
    k: int,
)
    requires
        signature.force_redraw == some_layer_unversioned(signature.layers@),
        0 <= k < signature.layers@.len(),
        signature.layers@[k].version is None,
    ensures
        memory.redraws(signature),
        memory.last_after(signature) == Some(signature),
{
    lemma_any_unversioned_layer_forces(signature.layers@, k);
}

} // verus!
