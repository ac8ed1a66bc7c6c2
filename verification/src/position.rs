//! Where an axis sits around a chart, and which way it runs.

use vstd::prelude::*;

verus! {

/// The orientation of an axis (horizontal or vertical).
#[derive(Debug, Clone, Copy, PartialEq, Eq, Structural)]
pub enum Orientation {
    /// Axis runs left-to-right across the chart.
    Horizontal,
    /// Axis runs top-to-bottom along the chart.
    Vertical,
}

/// The position where an axis is rendered on the chart.
#[derive(Debug, Clone, Copy, PartialEq, Eq, Structural)]
pub enum Position {
    /// Axis at the top edge of the chart (horizontal).
    Top,
    /// Axis at the bottom edge of the chart (horizontal).
    Bottom,
    /// Axis at the left edge of the chart (vertical).
    Left,
    /// Axis at the right edge of the chart (vertical).
    Right,
}

/// The orientation implied by a position: top and bottom axes run
/// horizontally, left and right axes run vertically.
pub open spec fn orientation_of(position: Position) -> Orientation {
    match position {
        Position::Top | Position::Bottom => Orientation::Horizontal,
        Position::Left | Position::Right => Orientation::Vertical,
    }
}

impl Position {
    /// Returns the orientation of an axis placed at this position.
    pub fn orientation(&self) -> (o: Orientation)
        ensures
            o == orientation_of(*self),
    {
        match self {
            Position::Top | Position::Bottom => Orientation::Horizontal,
            Position::Left | Position::Right => Orientation::Vertical,
        }
    }
}

impl From<Position> for Orientation {
    fn from(value: Position) -> (o: Self) {
        value.orientation()
    }
}

impl vstd::std_specs::convert::FromSpecImpl<Position> for Orientation {
    open spec fn obeys_from_spec() -> bool {
        true
    }

    open spec fn from_spec(value: Position) -> Self {
        orientation_of(value)
    }
}

} // verus!
