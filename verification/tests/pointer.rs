use iced_aksel::action::{
    dispatch_plot_drag, dispatch_release, first_message, plan_axis_hover, plan_move,
    plan_plot_drag, plan_press, update_axis_hover, update_hover_on_move, Action, DragTarget,
    HitHandlers, HoverIdentity, MovePlan, PlotDragPlan, PressPlan, ReleasePlan, update_plot_hover,
};
use iced_aksel::event::{ClickKind, Modifiers, MouseButton};
use iced_aksel::interaction::{select_prioritized, InteractionStatus, DEFAULT_PRIORITY};

const PRESS_ONLY: HitHandlers = HitHandlers { press: true, drag: false };
const PRESS_DRAG: HitHandlers = HitHandlers { press: true, drag: true };
const DRAG_ONLY: HitHandlers = HitHandlers { press: false, drag: true };
const NONE: HitHandlers = HitHandlers { press: false, drag: false };

#[test]
fn press_ignored_while_dragging() {
    assert_eq!(plan_press(false, true, &[PRESS_DRAG], Some(0)), PressPlan::Ignore);
    assert_eq!(plan_press(false, false, &[], Some(1)), PressPlan::Ignore);
}

#[test]
fn press_on_draggable_interaction() {
    assert_eq!(
        plan_press(true, true, &[NONE, DRAG_ONLY, PRESS_DRAG, PRESS_ONLY], None),
        PressPlan::Plot { pressed: Some(2), drag_target: Some(2), notify_plot: false }
    );
}

#[test]
fn press_on_interaction_without_drag_also_notifies_plot() {
    assert_eq!(
        plan_press(true, true, &[PRESS_ONLY, PRESS_DRAG], None),
        PressPlan::Plot { pressed: Some(0), drag_target: None, notify_plot: true }
    );
}

#[test]
fn press_on_empty_plot() {
    assert_eq!(
        plan_press(true, true, &[NONE, DRAG_ONLY], Some(3)),
        PressPlan::Plot { pressed: None, drag_target: None, notify_plot: true }
    );
    assert_eq!(
        plan_press(true, true, &[], None),
        PressPlan::Plot { pressed: None, drag_target: None, notify_plot: true }
    );
}

#[test]
fn press_on_axis_or_nowhere() {
    assert_eq!(plan_press(true, false, &[PRESS_DRAG], Some(1)), PressPlan::Axis(1));
    assert_eq!(plan_press(true, false, &[PRESS_DRAG], None), PressPlan::Ignore);
}

#[test]
fn action_drag_delta() {
    let idle: Action<u8, u8, (f32, f32), f32> = Action::new();
    assert!(idle.is_idle());
    assert_eq!(idle.total_drag_delta(), None);
    let plot: Action<u8, u8, (f32, f32), f32> = Action::DraggingPlot {
        interaction_id: Some(3),
        origin: (1.0, 2.0),
        last_position: (4.0, 6.0),
        total_delta: 5.0,
        button: MouseButton::Left,
        click_kind: ClickKind::Single,
    };
    assert!(!plot.is_idle());
    assert_eq!(plot.total_drag_delta(), Some(5.0));
    let axis: Action<u8, u8, (f32, f32), f32> = Action::DraggingAxis {
        id: 2,
        origin: 1.0,
        last_position: 3.5,
        total_delta: 2.5,
        button: MouseButton::Right,
        click_kind: ClickKind::Double,
    };
    assert_eq!(axis.total_drag_delta(), Some(2.5));
}

#[test]
fn prioritized_picks_least_then_first() {
    assert_eq!(select_prioritized(&[]), None);
    assert_eq!(select_prioritized(&[7]), Some(0));
    assert_eq!(select_prioritized(&[5, 3, 9, 3, 4]), Some(1));
    assert_eq!(select_prioritized(&[DEFAULT_PRIORITY, DEFAULT_PRIORITY]), Some(0));
    assert_eq!(select_prioritized(&[DEFAULT_PRIORITY, 0, 0]), Some(1));
}

#[test]
fn interaction_status_fields() {
    let s = InteractionStatus {
        is_hovered: true,
        is_pressed: false,
        is_dragging: false,
        button_held: None,
        click_kind: Some(ClickKind::Single),
        modifiers: Modifiers::none(),
    };
    assert_eq!(s, s);
    assert_eq!(DEFAULT_PRIORITY, 255);
}

type Gesture = Action<u8, u8, (f32, f32), f32>;

fn plot_drag() -> Gesture {
    Action::DraggingPlot {
        interaction_id: None,
        origin: (0.0, 0.0),
        last_position: (0.0, 0.0),
        total_delta: 0.0,
        button: MouseButton::Left,
        click_kind: ClickKind::Single,
    }
}

fn axis_drag() -> Gesture {
    Action::DraggingAxis {
        id: 1,
        origin: 0.0,
        last_position: 0.0,
        total_delta: 0.0,
        button: MouseButton::Left,
        click_kind: ClickKind::Single,
    }
}

#[test]
fn move_plans() {
    let idle: Gesture = Action::new();
    assert_eq!(plan_move(&idle, true), MovePlan::HoverPlot);
    assert_eq!(plan_move(&idle, false), MovePlan::HoverAxes);
    assert_eq!(plan_move(&plot_drag(), true), MovePlan::DragPlot);
    assert_eq!(plan_move(&plot_drag(), false), MovePlan::Ignore);
    assert_eq!(plan_move(&axis_drag(), true), MovePlan::DragAxis);
    assert_eq!(plan_move(&axis_drag(), false), MovePlan::DragAxis);
}

#[test]
fn plot_drag_plans() {
    let draggable = DragTarget { found: true, has_drag: true };
    assert_eq!(plan_plot_drag(false, Some(draggable)), PlotDragPlan::Wait);
    assert_eq!(plan_plot_drag(false, None), PlotDragPlan::Wait);
    assert_eq!(plan_plot_drag(true, None), PlotDragPlan::Plot);
    assert_eq!(plan_plot_drag(true, Some(draggable)), PlotDragPlan::Target);
    assert_eq!(
        plan_plot_drag(true, Some(DragTarget { found: false, has_drag: true })),
        PlotDragPlan::Swallow
    );
    assert_eq!(
        plan_plot_drag(true, Some(DragTarget { found: true, has_drag: false })),
        PlotDragPlan::Swallow
    );
}

#[test]
fn axis_hover_plans() {
    assert_eq!(plan_axis_hover(&[]), None);
    assert_eq!(plan_axis_hover(&[true, true]), Some(0));
    assert_eq!(plan_axis_hover(&[false, false, true, false]), Some(2));
    assert_eq!(plan_axis_hover(&[false, false, false]), None);
}

#[test]
fn axis_hover_records_only_the_hovered_axis() {
    let mut last: HoverIdentity<u8, u32> = HoverIdentity::Plot;
    // Over no axis: nothing recorded, nothing reported.
    assert!(!update_axis_hover(&mut last, None));
    assert!(matches!(last, HoverIdentity::Plot));
    // Over axis 1 (the second axis holds the pointer).
    let axes = [10u8, 11];
    let hovered = plan_axis_hover(&[false, true]).map(|i| axes[i]);
    assert!(update_axis_hover(&mut last, hovered));
    assert!(matches!(last, HoverIdentity::Axis(11)));
    assert!(!update_axis_hover(&mut last, hovered));
    assert!(update_axis_hover(&mut last, Some(10)));
    assert!(matches!(last, HoverIdentity::Axis(10)));
}

#[test]
fn release_returns_to_idle() {
    let mut g: Gesture = Action::new();
    assert_eq!(g.release(), ReleasePlan::Nothing);
    let mut g = plot_drag();
    assert_eq!(g.release(), ReleasePlan::Plot);
    assert!(g.is_idle());
    let mut g = axis_drag();
    assert_eq!(g.release(), ReleasePlan::Axis);
    assert!(g.is_idle());
}

#[test]
fn plot_hover_changes_once() {
    let mut last: HoverIdentity<u8, u32> = HoverIdentity::Plot;
    assert!(!update_plot_hover(&mut last, None));
    assert!(update_plot_hover(&mut last, Some(7)));
    assert!(matches!(last, HoverIdentity::Interaction(7)));
    assert!(!update_plot_hover(&mut last, Some(7)));
    assert!(update_plot_hover(&mut last, Some(8)));
    assert!(update_plot_hover(&mut last, None));
    assert!(matches!(last, HoverIdentity::Plot));
    let mut last: HoverIdentity<u8, u32> = HoverIdentity::Axis(2);
    assert!(update_plot_hover(&mut last, None));
    assert!(matches!(last, HoverIdentity::Plot));
}

use iced_aksel::event::{Handler, IntoHandler};

fn direct(m: u32) -> Handler<u32, (u8,)> {
    Handler::Direct(m)
}

fn even_only() -> Handler<u32, (u8,)> {
    (|x: u8| if x % 2 == 0 { Some(x as u32 * 10) } else { None }).into_handler()
}

#[test]
fn first_message_stops_at_the_first_yield() {
    let odd = even_only();
    let d = direct(99);
    assert_eq!(first_message(vec![(&odd, (1,)), (&odd, (4,)), (&d, (0,))]), Some((1, 40)));
    assert_eq!(first_message(vec![(&odd, (1,)), (&odd, (3,))]), None);
    assert_eq!(first_message::<u32, (u8,)>(vec![]), None);
}

#[test]
fn release_falls_back_to_the_plot() {
    let odd = even_only();
    let plot: Handler<u32, ()> = Handler::Direct(7);
    assert_eq!(dispatch_release(vec![(&odd, (1,)), (&odd, (2,))], Some(&plot), ()), Some(20));
    assert_eq!(dispatch_release(vec![(&odd, (1,))], Some(&plot), ()), Some(7));
    assert_eq!(dispatch_release(vec![(&odd, (1,))], None::<&Handler<u32, ()>>, ()), None);
}

#[test]
fn plot_drag_dispatch() {
    let odd = even_only();
    let plot: Handler<u32, ()> = Handler::Direct(5);
    assert_eq!(dispatch_plot_drag(PlotDragPlan::Wait, Some((&odd, (2,))), Some(&plot), ()), None);
    assert_eq!(dispatch_plot_drag(PlotDragPlan::Swallow, Some((&odd, (2,))), Some(&plot), ()), None);
    assert_eq!(dispatch_plot_drag(PlotDragPlan::Target, Some((&odd, (2,))), Some(&plot), ()), Some(20));
    assert_eq!(dispatch_plot_drag(PlotDragPlan::Target, Some((&odd, (3,))), Some(&plot), ()), Some(5));
    assert_eq!(dispatch_plot_drag(PlotDragPlan::Plot, Some((&odd, (2,))), Some(&plot), ()), Some(5));
    assert_eq!(dispatch_plot_drag(PlotDragPlan::Plot, Some((&odd, (2,))), None::<&Handler<u32, ()>>, ()), None);
}

#[test]
fn hover_on_move_follows_the_plan() {
    let mut last: HoverIdentity<u8, u32> = HoverIdentity::Plot;
    assert!(update_hover_on_move(&mut last, MovePlan::HoverPlot, Some(4), None));
    assert!(!update_hover_on_move(&mut last, MovePlan::DragPlot, None, Some(1)));
    assert!(matches!(last, HoverIdentity::Interaction(4)));
    assert!(!update_hover_on_move(&mut last, MovePlan::HoverAxes, None, None));
    assert!(update_hover_on_move(&mut last, MovePlan::HoverAxes, None, Some(1)));
    assert!(matches!(last, HoverIdentity::Axis(1)));
    assert!(!update_hover_on_move(&mut last, MovePlan::DragAxis, Some(2), None));
}
