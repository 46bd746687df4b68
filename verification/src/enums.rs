//! The small enumerations of the plot description.
use vstd::prelude::*;

verus! {

/// The coordinate system in which a canvas draws.
#[derive(Clone, Copy, Debug, PartialEq, Eq, Structural)]
pub enum CoordinateSystem {
    Polar,
    Cartesian,
}

/// The horizontal axis that a series is drawn against.
#[derive(Clone, Copy, Debug, PartialEq, Eq, Structural)]
pub enum XAxes2d {
    X1,
    X2,
}

/// The vertical axis that a series is drawn against.
#[derive(Clone, Copy, Debug, PartialEq, Eq, Structural)]
pub enum YAxes2d {
    Y1,
    Y2,
}

impl XAxes2d {
    /// The axis' name in the command language.
    pub open spec fn name(self) -> Seq<char> {
        match self {
            XAxes2d::X1 => "x1"@,
            XAxes2d::X2 => "x2"@,
        }
    }

    /// Gives the axis' name: `x1` or `x2`.
    pub fn to_string(&self) -> (s: String)
        ensures
            s@ == self.name(),
    {
        match self {
            XAxes2d::X1 => "x1".to_owned(),
            XAxes2d::X2 => "x2".to_owned(),
        }
    }
}

impl YAxes2d {
    /// The axis' name in the command language.
    pub open spec fn name(self) -> Seq<char> {
        match self {
            YAxes2d::Y1 => "y1"@,
            YAxes2d::Y2 => "y2"@,
        }
    }

    /// Gives the axis' name: `y1` or `y2`.
    pub fn to_string(&self) -> (s: String)
        ensures
            s@ == self.name(),
    {
        match self {
            YAxes2d::Y1 => "y1".to_owned(),
            YAxes2d::Y2 => "y2".to_owned(),
        }
    }
}

} // verus!
