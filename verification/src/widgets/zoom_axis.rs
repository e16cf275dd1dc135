//! Which axes a plot zooms along.
use vstd::prelude::*;

verus! {

/// The axes along which a plot zooms.
#[derive(Clone, Copy, Debug, PartialEq, Eq)]
pub enum ZoomAxis {
    Both,
    X,
    Y,
}

impl ZoomAxis {
    /// Whether zooming changes the x axis.
    pub open spec fn spec_has_x(self) -> bool {
        self == ZoomAxis::Both || self == ZoomAxis::X
    }

    /// Whether zooming changes the y axis.
    pub open spec fn spec_has_y(self) -> bool {
        self == ZoomAxis::Both || self == ZoomAxis::Y
    }

    /// The next setting of the zoom button: both axes, then x, then y, then both again.
    pub open spec fn spec_next(self) -> ZoomAxis {
        match self {
            ZoomAxis::Both => ZoomAxis::X,
            ZoomAxis::X => ZoomAxis::Y,
            ZoomAxis::Y => ZoomAxis::Both,
        }
    }

    /// Whether zooming changes the horizontal range.
    pub fn has_x(self) -> (res: bool)
        ensures
            res == self.spec_has_x(),
    {
        match self {
            ZoomAxis::Both | ZoomAxis::X => true,
            ZoomAxis::Y => false,
        }
    }

    /// Whether zooming changes the vertical range.
    pub fn has_y(self) -> (res: bool)
        ensures
            res == self.spec_has_y(),
    {
        match self {
            ZoomAxis::Both | ZoomAxis::Y => true,
            ZoomAxis::X => false,
        }
    }

    /// The next setting of the zoom button.
    pub fn next(self) -> (res: ZoomAxis)
        ensures
            res == self.spec_next(),
    {
        match self {
            ZoomAxis::Both => ZoomAxis::X,
            ZoomAxis::X => ZoomAxis::Y,
            ZoomAxis::Y => ZoomAxis::Both,
        }
    }
}

/// Every setting zooms along at least one axis, three presses of the button bring
/// the setting back, and the three settings it passes through are all different.
pub proof fn law_zoom_axis_cycle(z: ZoomAxis)
    ensures
        z.spec_has_x() || z.spec_has_y(),
        z.spec_next().spec_next().spec_next() == z,
        z.spec_next() != z,
        z.spec_next().spec_next() != z,
        z.spec_next().spec_next() != z.spec_next(),
{
}

/// Both zooms the two ranges, X the horizontal range alone, and Y the vertical range
/// alone; only Both zooms the two.
pub proof fn law_zoom_axes(z: ZoomAxis)
    ensures
        ZoomAxis::Both.spec_has_x() && ZoomAxis::Both.spec_has_y(),
        ZoomAxis::X.spec_has_x() && !ZoomAxis::X.spec_has_y(),
        ZoomAxis::Y.spec_has_y() && !ZoomAxis::Y.spec_has_x(),
        z.spec_has_x() && z.spec_has_y() <==> z == ZoomAxis::Both,
{
}

} // verus!
