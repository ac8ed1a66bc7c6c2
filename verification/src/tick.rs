//! Which tick labels of an axis are drawn when labels would collide.

use vstd::prelude::*;

verus! {

/// A decision on whether to render or skip a tick label.
///
/// This is the output of the collision detection pass.
#[derive(Debug, Clone, Copy, PartialEq, Eq, Structural)]
pub enum LabelDecision {
    /// The label does not overlap others and should be drawn.
    Render,
    /// The label overlaps a higher-priority label and should be hidden.
    Skip,
}

/// Whether label `i` collides with the earlier label `j`, as recorded in
/// `conflicts[i][j]` (a missing entry records no collision).
pub open spec fn collides(conflicts: Seq<Seq<bool>>, i: int, j: int) -> bool {
    0 <= j < conflicts[i].len() && conflicts[i][j]
}

/// Label `i` collides with no label before it that `decisions` renders.
pub open spec fn clear_before(conflicts: Seq<Seq<bool>>, decisions: Seq<LabelDecision>, i: int) -> bool {
    forall|j: int|
        0 <= j < i && decisions[j] == LabelDecision::Render ==> !#[trigger] collides(conflicts, i, j)
}

/// `decisions` is what the collision pass decides for labels with these
/// collisions, taken in order: a label is rendered exactly when it collides
/// with no label rendered before it.
pub open spec fn skips_collisions(conflicts: Seq<Seq<bool>>, decisions: Seq<LabelDecision>) -> bool {
    &&& decisions.len() == conflicts.len()
    &&& forall|i: int|
        0 <= i < decisions.len() ==> ((#[trigger] decisions[i] == LabelDecision::Render)
            <==> clear_before(conflicts, decisions, i))
}

/// The collision pass that skips overlapping labels: labels are taken in
/// order, and each is rendered unless it collides with one already
/// rendered. `conflicts[i][j]` tells whether label `i` collides with the
/// earlier label `j`.
pub fn skip_overlapping(conflicts: &Vec<Vec<bool>>) -> (decisions: Vec<LabelDecision>)
    ensures
        skips_collisions(conflicts@.map_values(|row: Vec<bool>| row@), decisions@),
{
    let ghost c = conflicts@.map_values(|row: Vec<bool>| row@);
    let mut decisions: Vec<LabelDecision> = Vec::new();
    let mut i: usize = 0;
    while i < conflicts.len()
        invariant
            0 <= i <= conflicts@.len(),
            c == conflicts@.map_values(|row: Vec<bool>| row@),
            decisions@.len() == i,
            forall|k: int|
                0 <= k < i ==> ((#[trigger] decisions@[k] == LabelDecision::Render) <==> clear_before(
                    c,
                    decisions@,
                    k,
                )),
        decreases conflicts@.len() - i,
    {
        let row = &conflicts[i];
        let mut clear = true;
        let mut j: usize = 0;
        while j < i
            invariant
                0 <= j <= i,
                i < conflicts@.len(),
                decisions@.len() == i,
                c == conflicts@.map_values(|row: Vec<bool>| row@),
                row@ == c[i as int],
                clear <==> (forall|k: int|
                    0 <= k < j && decisions@[k] == LabelDecision::Render ==> !#[trigger] collides(
                        c,
                        i as int,
                        k,
                    )),
            decreases i - j,
        {
            if j < row.len() {
                let rendered = match decisions[j] {
                    LabelDecision::Render => true,
                    LabelDecision::Skip => false,
                };
                if rendered && row[j] {
                    clear = false;
                }
            }
            assert(collides(c, i as int, j as int) <==> (j < row@.len() && row@[j as int]));
            j = j + 1;
        }
        let ghost before = decisions@;
        decisions.push(if clear {
            LabelDecision::Render
        } else {
            LabelDecision::Skip
        });
        proof {
            assert forall|k: int|
                0 <= k < i + 1 implies ((#[trigger] decisions@[k] == LabelDecision::Render)
                <==> clear_before(c, decisions@, k)) by {
                assert forall|j: int| 0 <= j < k implies decisions@[j] == before[j] by {}
                if k < i {
                    assert(decisions@[k] == before[k]);
                    assert(clear_before(c, decisions@, k) == clear_before(c, before, k));
                } else {
                    assert(clear_before(c, decisions@, k) == clear_before(c, before, k));
                }
            }
        }
        i = i + 1;
    }
    decisions
}

/// Labels the collision pass renders never collide with one another, and
/// every label it skips collides with a label rendered before it.
pub proof fn lemma_rendered_labels_never_collide(
    conflicts: Seq<Seq<bool>>,
    decisions: Seq<LabelDecision>,
)
    requires
        skips_collisions(conflicts, decisions),
    ensures
        forall|i: int, j: int|
            0 <= j < i < decisions.len() && decisions[i] == LabelDecision::Render && decisions[j]
                == LabelDecision::Render ==> !#[trigger] collides(conflicts, i, j),
        forall|i: int|
            0 <= i < decisions.len() && #[trigger] decisions[i] == LabelDecision::Skip ==> exists|j: int|
                0 <= j < i && decisions[j] == LabelDecision::Render && #[trigger] collides(
                    conflicts,
                    i,
                    j,
                ),
{
    assert forall|i: int, j: int|
        0 <= j < i < decisions.len() && decisions[i] == LabelDecision::Render && decisions[j]
            == LabelDecision::Render implies !#[trigger] collides(conflicts, i, j) by {
        assert(clear_before(conflicts, decisions, i));
    }
    assert forall|i: int|
        0 <= i < decisions.len() && #[trigger] decisions[i] == LabelDecision::Skip implies exists|j: int|
            0 <= j < i && decisions[j] == LabelDecision::Render && #[trigger] collides(
                conflicts,
                i,
                j,
            ) by {
        assert(decisions[i] != LabelDecision::Render);
        assert(!clear_before(conflicts, decisions, i));
    }
}

} // verus!
