//! The pointer gesture a chart is in, and where a mouse press goes.

use vstd::prelude::*;
use vstd::std_specs::cmp::PartialEqSpec;
use crate::event::{ClickKind, Handler, MouseButton, runs};

verus! {

/// The pointer gesture under way on a chart.
///
/// `P` is a screen point, `D` a screen distance and `I` the id of an
/// interaction.
#[allow(inconsistent_fields)]
#[derive(Debug, Clone, PartialEq)]
pub enum Action<AxisId, I, P, D> {
    /// No button is held.
    Idle,
    /// A press on the plot area, possibly on an interaction that can be dragged.
    DraggingPlot {
        /// The interaction being dragged, if the press landed on one with a drag handler.
        interaction_id: Option<I>,
        /// Where the press happened.
        origin: P,
        /// Where the pointer was last seen.
        last_position: P,
        /// How far the pointer has travelled since the press.
        total_delta: D,
        /// The button held.
        button: MouseButton,
        /// The kind of click that started the gesture.
        click_kind: ClickKind,
    },
    /// A press on an axis.
    DraggingAxis {
        /// The axis pressed.
        id: AxisId,
        /// Where along the axis the press happened.
        origin: D,
        /// Where along the axis the pointer was last seen.
        last_position: D,
        /// How far the pointer has travelled since the press.
        total_delta: D,
        /// The button held.
        button: MouseButton,
        /// The kind of click that started the gesture.
        click_kind: ClickKind,
    },
}

impl<AxisId, I, P, D: Copy> Action<AxisId, I, P, D> {
    /// The idle state a chart starts in.
    pub fn new() -> (a: Self)
        ensures
            a is Idle,
    {
        Action::Idle
    }

    /// Whether no gesture is under way.
    pub fn is_idle(&self) -> (r: bool)
        ensures
            r == (self is Idle),
    {
        match self {
            Action::Idle => true,
            _ => false,
        }
    }

    /// The distance travelled by the current drag, if any.
    pub fn total_drag_delta(&self) -> (r: Option<D>)
        ensures
            self is Idle ==> r is None,
            self matches Action::DraggingPlot { total_delta, .. } ==> r == Some(*total_delta),
            self matches Action::DraggingAxis { total_delta, .. } ==> r == Some(*total_delta),
    {
        match self {
            Action::Idle => None,
            Action::DraggingPlot { total_delta, .. } => Some(*total_delta),
            Action::DraggingAxis { total_delta, .. } => Some(*total_delta),
        }
    }
}

/// Which handlers an interaction under the pointer has.
#[derive(Debug, Clone, Copy, PartialEq, Eq, Structural)]
pub struct HitHandlers {
    /// It has a press handler.
    pub press: bool,
    /// It has a drag handler.
    pub drag: bool,
}

/// Where a mouse press goes.
#[derive(Debug, Clone, Copy, PartialEq, Eq, Structural)]
pub enum PressPlan {
    /// The press is ignored: a gesture is already under way, or the pointer
    /// is over neither the plot area nor an axis.
    Ignore,
    /// The plot area was pressed; a plot drag starts.
    Plot {
        /// The interaction whose press handler runs: the first hit that has one.
        pressed: Option<usize>,
        /// The interaction the drag moves: the pressed one, if it can be dragged.
        drag_target: Option<usize>,
        /// Whether the plot's own press handler runs as well: when no
        /// interaction took the drag.
        notify_plot: bool,
    },
    /// The axis at this index was pressed; an axis drag starts.
    Axis(usize),
}

/// `pressed` is the first hit, in order, that has a press handler, or `None`
/// when no hit has one.
pub open spec fn is_first_press(hits: Seq<HitHandlers>, pressed: Option<usize>) -> bool {
    match pressed {
        Some(k) => k < hits.len() && hits[k as int].press && forall|j: int|
            0 <= j < k ==> !#[trigger] hits[j].press,
        None => forall|j: int| 0 <= j < hits.len() ==> !#[trigger] hits[j].press,
    }
}

/// The interaction a press on `pressed` drags: the pressed one, if it has a
/// drag handler.
pub open spec fn drag_target_of(hits: Seq<HitHandlers>, pressed: Option<usize>) -> Option<usize> {
    match pressed {
        Some(k) => if hits[k as int].drag {
            Some(k)
        } else {
            None
        },
        None => None,
    }
}

/// The drag a press starts moves the pressed hit exactly when that hit can be
/// dragged, and moves nothing when no hit was pressed; the plot's own press
/// handler runs exactly when no interaction takes the drag.
pub open spec fn drags_pressed_hit(
    hits: Seq<HitHandlers>,
    pressed: Option<usize>,
    drag_target: Option<usize>,
    notify_plot: bool,
) -> bool {
    &&& forall|k: usize|
        pressed == Some(k) ==> (drag_target == Some(k) <==> #[trigger] hits[k as int].drag)
    &&& pressed is None ==> drag_target is None
    &&& drag_target is Some ==> drag_target == pressed
    &&& notify_plot <==> drag_target is None
}

/// Decides where a press goes.
///
/// `idle` tells whether no gesture is under way, `on_plot` whether the
/// pointer is over the plot area, `hits` lists the interactions under the
/// pointer in the order they are tested, and `axis_hit` is the first axis
/// whose bounds hold the pointer.
pub fn plan_press(idle: bool, on_plot: bool, hits: &[HitHandlers], axis_hit: Option<usize>) -> (r:
    PressPlan)
    ensures
        !idle ==> r == PressPlan::Ignore,
        idle && on_plot ==> r is Plot,
        r matches PressPlan::Plot { pressed, drag_target, notify_plot } ==> idle && on_plot
            && is_first_press(hits@, pressed) && drag_target == drag_target_of(hits@, pressed)
            && notify_plot == (drag_target is None),
        r matches PressPlan::Plot { pressed, drag_target, notify_plot } ==> drags_pressed_hit(
            hits@,
            pressed,
            drag_target,
            notify_plot,
        ),
        idle && !on_plot ==> r == (match axis_hit {
            Some(i) => PressPlan::Axis(i),
            None => PressPlan::Ignore,
        }),
{
    if !idle {
        return PressPlan::Ignore;
    }
    if on_plot {
        let mut pressed: Option<usize> = None;
        let mut i: usize = 0;
        while i < hits.len()
            invariant_except_break
                pressed is None,
            invariant
                0 <= i <= hits@.len(),
                forall|j: int| 0 <= j < i ==> !hits@[j].press,
            ensures
                is_first_press(hits@, pressed),
            decreases hits@.len() - i,
        {
            if hits[i].press {
                pressed = Some(i);
                break;
            }
            i = i + 1;
        }
        let drag_target = match pressed {
            Some(k) => if hits[k].drag {
                Some(k)
            } else {
                None
            },
            None => None,
        };
        let notify_plot = drag_target.is_none();
        return PressPlan::Plot { pressed, drag_target, notify_plot };
    }
    match axis_hit {
        Some(i) => PressPlan::Axis(i),
        None => PressPlan::Ignore,
    }
}

/// What a pointer move does.
#[derive(Debug, Clone, Copy, PartialEq, Eq, Structural)]
pub enum MovePlan {
    /// Over the plot with no gesture under way: report the move and find the
    /// hovered interaction.
    HoverPlot,
    /// A plot drag under way, over the plot: measure the drag and, past the
    /// deadband, move its target or the plot.
    DragPlot,
    /// An axis drag under way, wherever the pointer is: move the axis.
    DragAxis,
    /// Outside the plot with no gesture under way: hover the axes.
    HoverAxes,
    /// A plot drag whose pointer left the plot: nothing happens.
    Ignore,
}

/// The plan for a move in gesture `action`, over the plot or not.
pub open spec fn move_plan_of<AxisId, I, P, D>(action: Action<AxisId, I, P, D>, on_plot: bool) -> MovePlan {
    match action {
        Action::Idle => if on_plot {
            MovePlan::HoverPlot
        } else {
            MovePlan::HoverAxes
        },
        Action::DraggingPlot { .. } => if on_plot {
            MovePlan::DragPlot
        } else {
            MovePlan::Ignore
        },
        Action::DraggingAxis { .. } => MovePlan::DragAxis,
    }
}

/// Decides what a pointer move does, from the gesture under way and whether
/// the pointer is over the plot area.
pub fn plan_move<AxisId, I, P, D>(action: &Action<AxisId, I, P, D>, on_plot: bool) -> (r: MovePlan)
    ensures
        r == move_plan_of(*action, on_plot),
{
    match action {
        Action::Idle => if on_plot {
            MovePlan::HoverPlot
        } else {
            MovePlan::HoverAxes
        },
        Action::DraggingPlot { .. } => if on_plot {
            MovePlan::DragPlot
        } else {
            MovePlan::Ignore
        },
        Action::DraggingAxis { .. } => MovePlan::DragAxis,
    }
}

/// What the interaction a plot drag moves looks like now.
#[derive(Debug, Clone, Copy, PartialEq, Eq, Structural)]
pub struct DragTarget {
    /// The interaction is still registered.
    pub found: bool,
    /// It has a drag handler.
    pub has_drag: bool,
}

/// What a plot drag does on a move.
#[derive(Debug, Clone, Copy, PartialEq, Eq, Structural)]
pub enum PlotDragPlan {
    /// The pointer has not yet travelled past the deadband: nothing happens.
    Wait,
    /// The dragged interaction is gone or cannot be dragged: the move is
    /// taken, and nothing else happens.
    Swallow,
    /// The interaction's drag handler runs; if it yields no message, the
    /// plot's drag handler runs too.
    Target,
    /// The plot's drag handler runs.
    Plot,
}

/// Decides what a move in a plot drag does: `past_deadband` tells whether
/// the pointer has travelled at least the deadband, and `target` describes
/// the dragged interaction, if the drag has one.
pub fn plan_plot_drag(past_deadband: bool, target: Option<DragTarget>) -> (r: PlotDragPlan)
    ensures
        r == (if !past_deadband {
            PlotDragPlan::Wait
        } else {
            match target {
                None => PlotDragPlan::Plot,
                Some(t) => if t.found && t.has_drag {
                    PlotDragPlan::Target
                } else {
                    PlotDragPlan::Swallow
                },
            }
        }),
{
    if !past_deadband {
        return PlotDragPlan::Wait;
    }
    match target {
        None => PlotDragPlan::Plot,
        Some(t) => if t.found && t.has_drag {
            PlotDragPlan::Target
        } else {
            PlotDragPlan::Swallow
        },
    }
}

/// Decides which axis the pointer hovers; `contains[i]` tells whether the
/// bounds of axis `i` hold the pointer. The axes are tested in order, and the
/// first that holds the pointer is hovered.
pub fn plan_axis_hover(contains: &[bool]) -> (r: Option<usize>)
    ensures
        r matches Some(k) ==> k < contains@.len() && contains@[k as int] && forall|j: int|
            0 <= j < k ==> !#[trigger] contains@[j],
        r is None ==> forall|j: int| 0 <= j < contains@.len() ==> !#[trigger] contains@[j],
{
    let mut i: usize = 0;
    while i < contains.len()
        invariant
            0 <= i <= contains@.len(),
            forall|j: int| 0 <= j < i ==> !#[trigger] contains@[j],
        decreases contains@.len() - i,
    {
        if contains[i] {
            return Some(i);
        }
        i = i + 1;
    }
    None
}

/// What a button release does.
#[derive(Debug, Clone, Copy, PartialEq, Eq, Structural)]
pub enum ReleasePlan {
    /// No gesture was under way: nothing happens.
    Nothing,
    /// A plot gesture ends: the release handlers of the interactions under
    /// the press are tried in order until one yields a message; if none does,
    /// the plot's release handler runs.
    Plot,
    /// An axis gesture ends: the axis release handler runs.
    Axis,
}

impl<AxisId, I, P, D> Action<AxisId, I, P, D> {
    /// Ends the gesture under way on a button release: the chart returns to
    /// idle, and the plan says which handlers the release goes to.
    pub fn release(&mut self) -> (r: ReleasePlan)
        ensures
            *final(self) is Idle,
            *old(self) is Idle ==> r == ReleasePlan::Nothing,
            *old(self) is DraggingPlot ==> r == ReleasePlan::Plot,
            *old(self) is DraggingAxis ==> r == ReleasePlan::Axis,
    {
        let r = match self {
            Action::Idle => ReleasePlan::Nothing,
            Action::DraggingPlot { .. } => ReleasePlan::Plot,
            Action::DraggingAxis { .. } => ReleasePlan::Axis,
        };
        *self = Action::Idle;
        r
    }
}

/// What the pointer was last found hovering.
#[derive(Debug, Clone)]
pub enum HoverIdentity<AxisId, I> {
    /// The plot area, away from every interaction.
    Plot,
    /// An interaction in the plot area.
    Interaction(I),
    /// An axis.
    Axis(AxisId),
}

/// Whether two hover identities are the same, by the ids' own equality.
pub open spec fn same_identity<AxisId: PartialEq, I: PartialEq>(
    a: HoverIdentity<AxisId, I>,
    b: HoverIdentity<AxisId, I>,
) -> bool {
    match (a, b) {
        (HoverIdentity::Plot, HoverIdentity::Plot) => true,
        (HoverIdentity::Interaction(x), HoverIdentity::Interaction(y)) => x.eq_spec(&y),
        (HoverIdentity::Axis(x), HoverIdentity::Axis(y)) => x.eq_spec(&y),
        _ => false,
    }
}

/// Whether two hover identities are of the same kind: both the plot, both
/// an interaction, or both an axis.
pub open spec fn same_kind<AxisId, I>(a: HoverIdentity<AxisId, I>, b: HoverIdentity<AxisId, I>) -> bool {
    ||| (a is Plot && b is Plot)
    ||| (a is Interaction && b is Interaction)
    ||| (a is Axis && b is Axis)
}

/// The identity hovered over the plot area: the first interaction hit, or
/// the plot itself.
pub open spec fn plot_identity<AxisId, I>(first_hit: Option<I>) -> HoverIdentity<AxisId, I> {
    match first_hit {
        Some(i) => HoverIdentity::Interaction(i),
        None => HoverIdentity::Plot,
    }
}

/// What is recorded as hovered after the pointer moves over the plot area
/// from `before`: the new identity when it differs, the old one otherwise.
pub open spec fn hover_after<AxisId: PartialEq, I: PartialEq>(
    before: HoverIdentity<AxisId, I>,
    first_hit: Option<I>,
) -> HoverIdentity<AxisId, I> {
    if same_identity(before, plot_identity(first_hit)) {
        before
    } else {
        plot_identity(first_hit)
    }
}

/// Compares two hover identities.
fn identities_equal<AxisId: PartialEq, I: PartialEq>(
    a: &HoverIdentity<AxisId, I>,
    b: &HoverIdentity<AxisId, I>,
) -> (r: bool)
    ensures
        AxisId::obeys_eq_spec() && I::obeys_eq_spec() ==> r == same_identity(*a, *b),
        !same_kind(*a, *b) ==> !r,
        *a is Plot && *b is Plot ==> r,
{
    match (a, b) {
        (HoverIdentity::Plot, HoverIdentity::Plot) => true,
        (HoverIdentity::Interaction(x), HoverIdentity::Interaction(y)) => *x == *y,
        (HoverIdentity::Axis(x), HoverIdentity::Axis(y)) => *x == *y,
        _ => false,
    }
}

/// Stores `identity` as hovered when it differs from the last one, and says
/// whether it did.
fn record_hover<AxisId: PartialEq, I: PartialEq>(
    last: &mut HoverIdentity<AxisId, I>,
    identity: HoverIdentity<AxisId, I>,
) -> (changed: bool)
    ensures
        AxisId::obeys_eq_spec() && I::obeys_eq_spec() ==> changed == !same_identity(*old(last), identity),
        !same_kind(*old(last), identity) ==> changed,
        *old(last) is Plot && identity is Plot ==> !changed,
        changed ==> *final(last) == identity,
        !changed ==> *final(last) == *old(last),
{
    if identities_equal(last, &identity) {
        false
    } else {
        *last = identity;
        true
    }
}

/// Records what the pointer hovers over the plot area after a move (the
/// first interaction hit, or the plot itself) and says whether that changed.
/// The identity is stored only when it changed.
pub fn update_plot_hover<AxisId: PartialEq, I: PartialEq>(
    last: &mut HoverIdentity<AxisId, I>,
    first_hit: Option<I>,
) -> (changed: bool)
    ensures
        AxisId::obeys_eq_spec() && I::obeys_eq_spec() ==> changed == !same_identity(
            *old(last),
            plot_identity(first_hit),
        ),
        !same_kind(*old(last), plot_identity::<AxisId, I>(first_hit)) ==> changed,
        *old(last) is Plot && first_hit is None ==> !changed,
        changed ==> *final(last) == plot_identity::<AxisId, I>(first_hit),
        !changed ==> *final(last) == *old(last),
        AxisId::obeys_eq_spec() && I::obeys_eq_spec() ==> *final(last) == hover_after(
            *old(last),
            first_hit,
        ),
{
    let identity = match first_hit {
        Some(i) => HoverIdentity::Interaction(i),
        None => HoverIdentity::Plot,
    };
    record_hover(last, identity)
}

/// The identity of the axis `id`.
pub open spec fn axis_identity<AxisId, I>(id: AxisId) -> HoverIdentity<AxisId, I> {
    HoverIdentity::Axis(id)
}

/// `h` is the identity of the axis `id`.
pub open spec fn hovers_axis<AxisId, I>(h: HoverIdentity<AxisId, I>, id: AxisId) -> bool {
    h matches HoverIdentity::Axis(x) && x == id
}

/// What is recorded as hovered after the pointer moves over the axes from
/// `before`: the hovered axis when there is one and it differs, the old
/// identity otherwise.
pub open spec fn axis_hover_after<AxisId: PartialEq, I: PartialEq>(
    before: HoverIdentity<AxisId, I>,
    hovered: Option<AxisId>,
) -> HoverIdentity<AxisId, I> {
    match hovered {
        Some(id) => if same_identity(before, HoverIdentity::Axis(id)) {
            before
        } else {
            HoverIdentity::Axis(id)
        },
        None => before,
    }
}

/// Records the axis the pointer hovers after a move outside the plot area,
/// if it hovers one, and says whether the hovered identity changed. Nothing
/// is recorded, and no change reported, when the pointer is over no axis.
pub fn update_axis_hover<AxisId: PartialEq, I: PartialEq>(
    last: &mut HoverIdentity<AxisId, I>,
    hovered: Option<AxisId>,
) -> (changed: bool)
    ensures
        hovered is None ==> !changed && *final(last) == *old(last),
        hovered is Some && !(*old(last) is Axis) ==> changed,
        changed ==> hovered is Some && hovers_axis(*final(last), hovered.unwrap()),
        !changed ==> *final(last) == *old(last),
        AxisId::obeys_eq_spec() && I::obeys_eq_spec() ==> {
            &&& changed == (hovered is Some && !same_identity(
                *old(last),
                axis_identity(hovered.unwrap()),
            ))
            &&& *final(last) == axis_hover_after(*old(last), hovered)
        },
{
    match hovered {
        Some(id) => record_hover(last, HoverIdentity::Axis(id)),
        None => false,
    }
}

/// A pointer that stays over the same interaction, or over the empty plot,
/// reports the hover once: after a move is recorded, a move that hits the
/// same thing reports no change (for an id equal to itself).
pub proof fn lemma_hover_reported_once<AxisId: PartialEq, I: PartialEq>(
    before: HoverIdentity<AxisId, I>,
    first_hit: Option<I>,
)
    requires
        AxisId::obeys_eq_spec(),
        I::obeys_eq_spec(),
        first_hit matches Some(i) ==> i.eq_spec(&i),
    ensures
        same_identity(hover_after(before, first_hit), plot_identity(first_hit)),
{
}

/// A pointer that stays over the same axis reports the hover once: after a
/// move over an axis is recorded, a move over the same axis reports no change
/// (for an id equal to itself).
pub proof fn lemma_axis_hover_reported_once<AxisId: PartialEq, I: PartialEq>(
    before: HoverIdentity<AxisId, I>,
    id: AxisId,
)
    requires
        AxisId::obeys_eq_spec(),
        I::obeys_eq_spec(),
        id.eq_spec(&id),
    ensures
        same_identity(axis_hover_after(before, Some(id)), axis_identity(id)),
{
}

/// Running the handlers of `hits`, each on its own arguments, in order,
/// yields no message up to (not including) hit `k`.
pub open spec fn none_before<M: Clone, A>(hits: Seq<(&Handler<M, A>, A)>, k: int) -> bool {
    forall|j: int| 0 <= j < k ==> runs(*(#[trigger] hits[j]).0, hits[j].1, None)
}

/// Runs the handlers of `hits` in order, each on its own arguments, until
/// one yields a message; returns the index of that hit and its message, or
/// `None` when every handler yields nothing. Handlers after the one that
/// yields are not run.
pub fn first_message<M: Clone, A>(hits: Vec<(&Handler<M, A>, A)>) -> (r: Option<(usize, M)>)
    ensures
        r matches Some((k, m)) ==> k < hits@.len() && none_before(hits@, k as int) && runs(
            *hits@[k as int].0,
            hits@[k as int].1,
            Some(m),
        ),
        r is None ==> none_before(hits@, hits@.len() as int),
{
    let ghost all = hits@;
    let mut pending = hits;
    let mut i: usize = 0;
    let mut found: Option<(usize, M)> = None;
    let n = pending.len();
    while pending.len() > 0
        invariant_except_break
            found is None,
            all.len() == i + pending@.len(),
            pending@ == all.subrange(i as int, all.len() as int),
        invariant
            all.len() == n,
            i <= n,
            none_before(all, i as int),
        ensures
            found matches Some((k, m)) ==> k < all.len() && none_before(all, k as int) && runs(
                *all[k as int].0,
                all[k as int].1,
                Some(m),
            ),
            found is None ==> none_before(all, all.len() as int),
        decreases pending@.len(),
    {
        let (h, a) = pending.remove(0);
        assert(all[i as int] == (h, a));
        let r = h.run(a);
        match r {
            Some(m) => {
                found = Some((i, m));
                break;
            },
            None => {},
        }
        assert(pending@ =~= all.subrange(i + 1, all.len() as int));
        i = i + 1;
    }
    found
}

/// Dispatches a release that ends a plot gesture: the release handlers of
/// the interactions under the press are run in order until one yields a
/// message; if none does, the plot's release handler runs. At most one
/// message comes out.
pub fn dispatch_release<M: Clone, A, B>(
    hits: Vec<(&Handler<M, A>, A)>,
    plot: Option<&Handler<M, B>>,
    plot_args: B,
) -> (r: Option<M>)
    ensures
        (exists|k: int|
            0 <= k < hits@.len() && none_before(hits@, k) && runs(
                *(#[trigger] hits@[k]).0,
                hits@[k].1,
                r,
            ) && r is Some) || (none_before(hits@, hits@.len() as int) && match plot {
            Some(p) => runs(*p, plot_args, r),
            None => r is None,
        }),
{
    let ghost all = hits@;
    match first_message(hits) {
        Some((k, m)) => {
            assert(all[k as int] == all[k as int]);
            Some(m)
        },
        None => match plot {
            Some(p) => p.run(plot_args),
            None => None,
        },
    }
}

/// Dispatches a move in a plot drag by its plan: a waiting or swallowed
/// move runs nothing; a drag of an interaction runs its drag handler and,
/// when that yields no message, the plot's drag handler; a drag of the plot
/// runs the plot's drag handler.
pub fn dispatch_plot_drag<M: Clone, A, B>(
    plan: PlotDragPlan,
    target: Option<(&Handler<M, A>, A)>,
    plot: Option<&Handler<M, B>>,
    plot_args: B,
) -> (r: Option<M>)
    ensures
        plan == PlotDragPlan::Wait || plan == PlotDragPlan::Swallow ==> r is None,
        plan == PlotDragPlan::Target && target is Some ==> runs(
            *target.unwrap().0,
            target.unwrap().1,
            r,
        ) && r is Some || runs(*target.unwrap().0, target.unwrap().1, None) && (match plot {
            Some(p) => runs(*p, plot_args, r),
            None => r is None,
        }),
        plan == PlotDragPlan::Plot || (plan == PlotDragPlan::Target && target is None) ==> match plot {
            Some(p) => runs(*p, plot_args, r),
            None => r is None,
        },
{
    match plan {
        PlotDragPlan::Wait => None,
        PlotDragPlan::Swallow => None,
        PlotDragPlan::Target => {
            let yielded = match target {
                Some((h, a)) => h.run(a),
                None => None,
            };
            match yielded {
                Some(m) => Some(m),
                None => match plot {
                    Some(p) => p.run(plot_args),
                    None => None,
                },
            }
        },
        PlotDragPlan::Plot => match plot {
            Some(p) => p.run(plot_args),
            None => None,
        },
    }
}

/// Updates what the pointer hovers after a move planned as `plan`, and
/// says whether the hovered identity changed: over the plot, the first
/// interaction hit (or the plot itself); over the axes, the axis hovered, if
/// any. During a gesture nothing is recorded and no change is reported.
pub fn update_hover_on_move<AxisId: PartialEq, I: PartialEq>(
    last: &mut HoverIdentity<AxisId, I>,
    plan: MovePlan,
    first_hit: Option<I>,
    hovered_axis: Option<AxisId>,
) -> (changed: bool)
    ensures
        plan != MovePlan::HoverPlot && plan != MovePlan::HoverAxes ==> !changed && *final(last)
            == *old(last),
        plan == MovePlan::HoverPlot && AxisId::obeys_eq_spec() && I::obeys_eq_spec() ==> changed
            == !same_identity(*old(last), plot_identity(first_hit)) && *final(last) == hover_after(
            *old(last),
            first_hit,
        ),
        plan == MovePlan::HoverAxes && AxisId::obeys_eq_spec() && I::obeys_eq_spec() ==> changed
            == (hovered_axis is Some && !same_identity(
            *old(last),
            axis_identity(hovered_axis.unwrap()),
        )) && *final(last) == axis_hover_after(*old(last), hovered_axis),
        plan == MovePlan::HoverAxes && hovered_axis is None ==> !changed && *final(last) == *old(
            last,
        ),
        !changed ==> *final(last) == *old(last),
{
    match plan {
        MovePlan::HoverPlot => update_plot_hover(last, first_hit),
        MovePlan::HoverAxes => update_axis_hover(last, hovered_axis),
        _ => false,
    }
}

/// The drag a press starts follows the pressed hit: for every list of hits
/// and every pressed hit, the drag target is that hit exactly when it has a
/// drag handler, and there is none when no hit was pressed.
pub proof fn lemma_drag_follows_pressed(hits: Seq<HitHandlers>, pressed: Option<usize>)
    requires
        pressed matches Some(k) ==> k < hits.len(),
    ensures
        drags_pressed_hit(
            hits,
            pressed,
            drag_target_of(hits, pressed),
            drag_target_of(hits, pressed) is None,
        ),
{
}

} // verus!
