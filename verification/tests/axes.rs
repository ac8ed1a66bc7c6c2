use iced_aksel::chart::{report_errors, verify_layer, AxisPositions, Error};
use iced_aksel::event::{Handler, IntoHandler};
use iced_aksel::layer::Layer;
use iced_aksel::position::{Orientation, Position};

#[test]
fn position_orientation() {
    assert_eq!(Position::Top.orientation(), Orientation::Horizontal);
    assert_eq!(Position::Bottom.orientation(), Orientation::Horizontal);
    assert_eq!(Position::Left.orientation(), Orientation::Vertical);
    assert_eq!(Position::Right.orientation(), Orientation::Vertical);
}

#[test]
fn position_into_orientation() {
    let o: Orientation = Position::Left.into();
    assert_eq!(o, Orientation::Vertical);
    let o: Orientation = Orientation::from(Position::Bottom);
    assert_eq!(o, Orientation::Horizontal);
}

fn chart() -> AxisPositions<&'static str> {
    let mut axes = AxisPositions::new();
    axes.set_axis("x", Position::Bottom);
    axes.set_axis("y", Position::Left);
    axes.set_axis("x2", Position::Top);
    axes
}

#[test]
fn set_axis_keeps_first_place() {
    let mut axes = chart();
    assert_eq!(axes.len(), 3);
    assert_eq!(axes.index_of(&"x"), Some(0));
    assert_eq!(axes.index_of(&"x2"), Some(2));
    // Moving an existing axis keeps its place but changes its orientation.
    axes.set_axis("x", Position::Right);
    assert_eq!(axes.len(), 3);
    assert_eq!(axes.index_of(&"x"), Some(0));
    assert_eq!(axes.orientation_of(&"x"), Some(Orientation::Vertical));
    assert_eq!(axes.orientation_of(&"missing"), None);
    assert_eq!(axes.index_of(&"missing"), None);
}

#[test]
fn verify_layer_accepts_crossed_axes() {
    let axes = chart();
    let data = 0u8;
    let layer = Layer::new(&data, "x", "y");
    let mut errors = Vec::new();
    assert!(verify_layer(&layer, &axes, &mut errors));
    assert!(errors.is_empty());
}

#[test]
fn verify_layer_duplicate_axis() {
    let axes = chart();
    let data = 0u8;
    let layer = Layer::new(&data, "x", "x");
    let mut errors = Vec::new();
    assert!(!verify_layer(&layer, &axes, &mut errors));
    assert_eq!(errors.len(), 1);
    assert!(matches!(errors[0], Error::DuplicateAxis { id: "x" }));
}

#[test]
fn verify_layer_unknown_axis() {
    let axes = chart();
    let data = 0u8;
    let mut errors = Vec::new();
    let layer = Layer::new(&data, "nope", "y");
    assert!(!verify_layer(&layer, &axes, &mut errors));
    let layer = Layer::new(&data, "x", "gone");
    assert!(!verify_layer(&layer, &axes, &mut errors));
    assert_eq!(errors.len(), 2);
    assert!(matches!(errors[0], Error::UnknownAxis { id: "nope" }));
    assert!(matches!(errors[1], Error::UnknownAxis { id: "gone" }));
}

#[test]
fn verify_layer_axis_conflict() {
    let axes = chart();
    let data = 0u8;
    let layer = Layer::new(&data, "x", "x2");
    let mut errors = vec![Error::UnknownAxis { id: "earlier" }];
    assert!(!verify_layer(&layer, &axes, &mut errors));
    assert_eq!(errors.len(), 2);
    assert!(matches!(errors[0], Error::UnknownAxis { id: "earlier" }));
    match &errors[1] {
        Error::AxisConflict {
            horizontal,
            horizontal_orientation,
            vertical,
            vertical_orientation,
        } => {
            assert_eq!(*horizontal, "x");
            assert_eq!(*vertical, "x2");
            assert_eq!(*horizontal_orientation, Orientation::Horizontal);
            assert_eq!(*vertical_orientation, Orientation::Horizontal);
        }
        other => panic!("unexpected error {other:?}"),
    }
}

#[test]
fn verify_layer_duplicate_checked_before_unknown() {
    let axes = chart();
    let data = 0u8;
    let layer = Layer::new(&data, "nope", "nope");
    let mut errors = Vec::new();
    assert!(!verify_layer(&layer, &axes, &mut errors));
    assert!(matches!(errors[0], Error::DuplicateAxis { id: "nope" }));
}

#[test]
fn report_errors_runs_the_handler_on_each_error() {
    let mut errors: Vec<Error<&'static str>> = vec![
        Error::DuplicateAxis { id: "a" },
        Error::UnknownAxis { id: "b" },
        Error::UnknownAxis { id: "c" },
    ];
    let handler: Handler<String, (Error<&'static str>,)> = (|e: Error<&'static str>| match e {
        Error::UnknownAxis { id } => Some(format!("unknown {id}")),
        _ => None,
    })
    .into_handler();
    let messages = report_errors(&mut errors, &handler);
    assert!(errors.is_empty());
    assert_eq!(messages, vec!["unknown b".to_string(), "unknown c".to_string()]);
    let direct: Handler<u8, (Error<&'static str>,)> = Handler::Direct(1);
    let mut errors = vec![Error::UnknownAxis { id: "x" }, Error::DuplicateAxis { id: "y" }];
    assert_eq!(report_errors(&mut errors, &direct), vec![1, 1]);
    assert!(errors.is_empty());
}
