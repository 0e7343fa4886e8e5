//! The comment model.

use vstd::prelude::*;

verus! {

/// How a comment is shown on the canvas.
#[derive(Clone, Copy, Debug, PartialEq, Eq, Structural)]
pub enum CommentPosition {
    /// Moves from the right edge to the left edge.
    Scroll,
    /// Stands still, stacked from the bottom of the canvas.
    Bottom,
    /// Stands still, stacked from the top of the canvas.
    Top,
    /// Moves from the left edge to the right edge.
    Reversed,
    /// Carries its own trajectory and takes no lane.
    Special,
}

/// One on-screen comment.
#[derive(Clone, Debug, PartialEq, Eq)]
pub struct Comment {
    /// When the comment appears, in milliseconds.
    pub timeline: u64,
    /// The text to show.
    pub comment: String,
    /// The motion class.
    pub pos: CommentPosition,
    /// 24-bit RGB colour.
    pub color: u32,
    /// Font size in points.
    pub size: u32,
    /// Rendered height in pixels, which is the number of lanes it covers.
    pub height: u32,
    /// Rendered width in pixels.
    pub width: u32,
}

impl CommentPosition {
    /// Whether comments of this class stand still.
    pub open spec fn is_still(self) -> bool {
        self == CommentPosition::Top || self == CommentPosition::Bottom
    }

    /// Whether comments of this class cross the canvas.
    pub open spec fn is_moving(self) -> bool {
        self == CommentPosition::Scroll || self == CommentPosition::Reversed
    }

    /// Whether comments of this class are placed in lanes.
    pub open spec fn takes_lane(self) -> bool {
        self.is_still() || self.is_moving()
    }
}

} // verus!
