//! The state of an interaction under the pointer, and which of several hit
//! interactions wins.

use vstd::prelude::*;
use crate::event::{ClickKind, Modifiers, MouseButton};

verus! {

/// The current state of an interaction, used to determine dynamic styling like cursors.
#[derive(Debug, Clone, Copy, PartialEq, Eq, Structural)]
pub struct InteractionStatus {
    /// Whether the mouse is currently hovering over this specific interaction.
    pub is_hovered: bool,
    /// Whether the mouse button is currently pressed down on this interaction.
    pub is_pressed: bool,
    /// Whether the interaction is currently being dragged (surpassed the drag deadband).
    pub is_dragging: bool,
    /// The button held. Only present if dragging or pressed.
    pub button_held: Option<MouseButton>,
    /// The kind of click used to start dragging or pressing.
    pub click_kind: Option<ClickKind>,
    /// The current state of keyboard modifiers (Shift, Control, Alt, etc.).
    pub modifiers: Modifiers,
}

/// The priority an interaction gets when none is set: 255, the lowest of
/// the documented range (0 is the highest).
pub const DEFAULT_PRIORITY: u16 = 255;

/// `i` is the winner among hits with these priorities, taken in the order
/// they are tested: its priority is the least (0 is the highest priority),
/// and it is the first hit with that priority.
pub open spec fn is_prioritized(priorities: Seq<u16>, i: int) -> bool {
    &&& 0 <= i < priorities.len()
    &&& forall|j: int| 0 <= j < priorities.len() ==> priorities[i] <= #[trigger] priorities[j]
    &&& forall|j: int| 0 <= j < i ==> priorities[i] < #[trigger] priorities[j]
}

/// Picks, among hit interactions with these priorities in the order they
/// are tested, the one with the highest priority (the least number); of
/// several with that priority, the first. `None` when nothing was hit.
pub fn select_prioritized(priorities: &[u16]) -> (r: Option<usize>)
    ensures
        r is None <==> priorities@.len() == 0,
        r matches Some(i) ==> is_prioritized(priorities@, i as int),
{
    let mut best: Option<usize> = None;
    let mut i: usize = 0;
    while i < priorities.len()
        invariant
            0 <= i <= priorities@.len(),
            best is None <==> i == 0,
            best matches Some(b) ==> b < i && (forall|j: int|
                0 <= j < i ==> priorities@[b as int] <= #[trigger] priorities@[j]) && (forall|j: int|
                0 <= j < b ==> priorities@[b as int] < #[trigger] priorities@[j]),
        decreases priorities@.len() - i,
    {
        let better = match best {
            None => true,
            Some(b) => priorities[i] < priorities[b],
        };
        if better {
            best = Some(i);
        }
        i = i + 1;
    }
    best
}

/// Two hits can never both be the winner.
pub proof fn lemma_prioritized_unique(priorities: Seq<u16>, i: int, k: int)
    requires
        is_prioritized(priorities, i),
        is_prioritized(priorities, k),
    ensures
        i == k,
{
    if i < k {
        assert(priorities[k] <= priorities[i]);
        assert(priorities[k] < priorities[i]);
    } else if k < i {
        assert(priorities[i] <= priorities[k]);
        assert(priorities[i] < priorities[k]);
    }
}

} // verus!
