//! Danmaku to ASS subtitle conversion: lane placement of on-screen comments
//! and the text of the script lines that show them.
//!
//! All quantities are integers. Times are in milliseconds, lengths in whole
//! pixels, font sizes in whole points, and factors (opacity, zoom) in
//! thousandths.

pub mod comment;
pub mod writer;

pub use comment::{Comment, CommentPosition};
pub use writer::ass::{
    convert_type2, write_comment, write_comment_with_animation, write_head, write_normal_comment,
    Projection,
};
pub use writer::rows::{
    find_alternative_row, mark_comment_row, place_comment, test_free_rows, Occupant, Placement,
    Rows,
};
pub use writer::utils::{ass_escape, convert_color, convert_timestamp};
