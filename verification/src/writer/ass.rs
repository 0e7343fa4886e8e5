//! The header and the lines of a script.

use crate::comment::{Comment, CommentPosition};
use crate::writer::rows::{
    after_placement, class_index, is_placement, lemma_placement_is_unique, place_comment,
    placement, Placement, Rows,
};
use crate::writer::utils::{
    color_text, convert_color, decimal, escaped, hex2, push_decimal, push_escaped, push_hex2,
    push_signed_decimal, push_timestamp, round_div, rounded_div, signed_decimal, timestamp_text,
};
use vstd::prelude::*;

verus! {

/// The head of a script, up to the width of the canvas.
pub const HEAD_INFO: &'static str =
    "[Script Info]\n; Script generated by biliass (based on Danmaku2ASS)\n; https://github.com/yutto-dev/yutto/tree/main/packages/biliass\nScript Updated By: biliass (https://github.com/yutto-dev/yutto/tree/main/packages/biliass)\nScriptType: v4.00+\nPlayResX: ";

/// The head of a script, from the canvas to the style's name.
pub const HEAD_STYLES: &'static str =
    "\nCollisions: Normal\nWrapStyle: 2\nScaledBorderAndShadow: yes\nYCbCr Matrix: TV.601\n\n[V4+ Styles]\nFormat: Name, Fontname, Fontsize, PrimaryColour, SecondaryColour, OutlineColour, BackColour, Bold, Italic, Underline, StrikeOut, ScaleX, ScaleY, Spacing, Angle, BorderStyle, Outline, Shadow, Alignment, MarginL, MarginR, MarginV, Encoding\nStyle: ";

/// The style's fields between its last colour and the outline.
pub const HEAD_STYLE_FIELDS: &'static str = "000000, 0, 0, 0, 0, 100, 100, 0.00, 0.00, 1, ";

/// The head of a script, from the outline on.
pub const HEAD_EVENTS: &'static str =
    ", 0, 7, 0, 0, 0, 0\n\n[Events]\nFormat: Layer, Start, End, Style, Name, MarginL, MarginR, MarginV, Effect, Text\n";

/// An animated comment as projected onto the canvas: where it stands, how it
/// is turned and how it is scaled, in whole numbers.
#[derive(Clone, Copy, Debug, PartialEq, Eq, Structural)]
pub struct Projection {
    /// Horizontal position in pixels.
    pub x: i64,
    /// Vertical position in pixels.
    pub y: i64,
    /// Rotation about the horizontal axis, in degrees.
    pub rot_x: i64,
    /// Rotation about the vertical axis, in degrees.
    pub rot_y: i64,
    /// Rotation in the plane of the canvas, in degrees.
    pub rot_z: i64,
    /// Horizontal scale in percent.
    pub scale_x: i64,
    /// Vertical scale in percent.
    pub scale_y: i64,
}

/// The alpha channel of the style's colours for an opacity given in
/// thousandths: 255 less the opacity on the scale of 0 to 255, rounded to the
/// nearest step, a tie going up. An opacity above one counts as one.
pub open spec fn alpha_channel(alpha: u32) -> nat {
    let opacity = rounded_div(alpha as nat * 255, 1000);
    if opacity >= 255 {
        0
    } else {
        (255 - opacity) as nat
    }
}

/// The width of the outline for a font size: a 25th of it, rounded to the
/// nearest pixel, and one pixel at least.
pub open spec fn outline_width(fontsize: u32) -> nat {
    let outline = rounded_div(fontsize as nat, 25);
    if outline < 1 {
        1
    } else {
        outline
    }
}

/// The head of a script: the canvas, one style and the header of the events.
pub open spec fn head_text(
    width: u32,
    height: u32,
    fontface: Seq<char>,
    fontsize: u32,
    alpha: u32,
    styleid: Seq<char>,
) -> Seq<char> {
    let channel = hex2(alpha_channel(alpha));
    HEAD_INFO@ + decimal(width as nat) + "\nPlayResY: "@ + decimal(height as nat)
        + "\nAspect Ratio: "@ + decimal(width as nat) + ":"@ + decimal(height as nat)
        + HEAD_STYLES@ + styleid + ", "@ + fontface + ", "@ + decimal(fontsize as nat) + ", &H"@
        + channel + "FFFFFF, &H"@ + channel + "FFFFFF, &H"@ + channel + "000000, &H"@ + channel
        + HEAD_STYLE_FIELDS@ + decimal(outline_width(fontsize)) + HEAD_EVENTS@
}

/// How long a comment of the class `pos` is shown.
pub open spec fn shown_for(pos: CommentPosition, duration_marquee: u64, duration_still: u64) -> u64 {
    if pos.is_still() {
        duration_still
    } else {
        duration_marquee
    }
}

/// The pixel row at which a standing comment in the lane `row` is anchored:
/// the lane itself for one at the bottom, and the lane counted upward from
/// the reserved margin for one at the top.
pub open spec fn vertical_offset(
    pos: CommentPosition,
    row: nat,
    height: u32,
    bottom_reserved: u32,
) -> nat {
    if pos == CommentPosition::Top {
        (height - bottom_reserved - row) as nat
    } else {
        row
    }
}

/// Where a standing comment is anchored: in the middle of the canvas, at the
/// pixel row of its lane.
pub open spec fn still_tag(
    pos: CommentPosition,
    row: nat,
    width: u32,
    height: u32,
    bottom_reserved: u32,
) -> Seq<char> {
    (if pos == CommentPosition::Top {
        "\\an2\\pos("@
    } else {
        "\\an8\\pos("@
    }) + decimal((width / 2) as nat) + ", "@ + decimal(
        vertical_offset(pos, row, height, bottom_reserved),
    ) + ")"@
}

/// How a moving comment of width `length` crosses the canvas in the lane
/// `row`: from the right edge until it has left on the left, or the other
/// way round for a reversed one.
pub open spec fn moving_tag(pos: CommentPosition, length: u32, row: nat, width: u32) -> Seq<char> {
    if pos == CommentPosition::Reversed {
        "\\move("@ + signed_decimal(-(length as int)) + ", "@ + decimal(row) + ", "@ + decimal(
            width as nat,
        ) + ", "@ + decimal(row) + ")"@
    } else {
        "\\move("@ + decimal(width as nat) + ", "@ + decimal(row) + ", "@ + signed_decimal(
            -(length as int),
        ) + ", "@ + decimal(row) + ")"@
    }
}

/// Where a comment in the lane `row` stands or how it moves.
pub open spec fn position_tag(
    c: Comment,
    row: nat,
    width: u32,
    height: u32,
    bottom_reserved: u32,
) -> Seq<char> {
    if c.pos.is_still() {
        still_tag(c.pos, row, width, height, bottom_reserved)
    } else {
        moving_tag(c.pos, c.width, row, width)
    }
}

/// The font size of a comment, where it differs from that of the style by a
/// point or more.
pub open spec fn size_tag(size: u32, fontsize: u32) -> Seq<char> {
    if size - fontsize >= 1 || fontsize - size >= 1 {
        "\\fs"@ + decimal(size as nat)
    } else {
        Seq::empty()
    }
}

/// The colour of a comment, where it is not white; a black comment gets a
/// white outline as well, to stay visible.
pub open spec fn color_tags(color: u32) -> Seq<char> {
    if color == 0xFFFFFF {
        Seq::empty()
    } else if color == 0 {
        "\\c&H"@ + color_text(color as nat) + "&"@ + "\\3c&HFFFFFF&"@
    } else {
        "\\c&H"@ + color_text(color as nat) + "&"@
    }
}

/// Everything between the braces of an ordinary comment's line.
pub open spec fn overrides(
    c: Comment,
    row: nat,
    width: u32,
    height: u32,
    bottom_reserved: u32,
    fontsize: u32,
) -> Seq<char> {
    position_tag(c, row, width, height, bottom_reserved) + size_tag(c.size, fontsize) + color_tags(
        c.color,
    )
}

/// The line of an ordinary comment in the lane `row`.
pub open spec fn comment_line(
    c: Comment,
    row: nat,
    width: u32,
    height: u32,
    bottom_reserved: u32,
    fontsize: u32,
    duration_marquee: u64,
    duration_still: u64,
    styleid: Seq<char>,
) -> Seq<char> {
    "Dialogue: 2,"@ + timestamp_text(c.timeline as nat) + ","@ + timestamp_text(
        (c.timeline + shown_for(c.pos, duration_marquee, duration_still)) as nat,
    ) + ","@ + styleid + ",,0000,0000,0000,,{"@ + overrides(
        c,
        row,
        width,
        height,
        bottom_reserved,
        fontsize,
    ) + "}"@ + escaped(c.comment@) + "\n"@
}

/// The text that a placement gives: the comment's line in the lane it got,
/// and nothing for a comment that was left out.
pub open spec fn placed_text(
    c: Comment,
    p: Placement,
    width: u32,
    height: u32,
    bottom_reserved: u32,
    fontsize: u32,
    duration_marquee: u64,
    duration_still: u64,
    styleid: Seq<char>,
) -> Seq<char> {
    match p {
        Placement::Placed(row) => comment_line(
            c,
            row as nat,
            width,
            height,
            bottom_reserved,
            fontsize,
            duration_marquee,
            duration_still,
            styleid,
        ),
        Placement::Forced(row) => comment_line(
            c,
            row as nat,
            width,
            height,
            bottom_reserved,
            fontsize,
            duration_marquee,
            duration_still,
            styleid,
        ),
        Placement::Dropped => Seq::empty(),
    }
}

/// The head of a script for a canvas of `width` by `height` pixels and one
/// style `styleid` in the font `fontface` of `fontsize` points. `alpha` is
/// the opacity of the comments in thousandths.
pub fn write_head(
    width: u32,
    height: u32,
    fontface: &str,
    fontsize: u32,
    alpha: u32,
    styleid: &str,
) -> (text: String)
    ensures
        text@ == head_text(width, height, fontface@, fontsize, alpha, styleid@),
{
    let opacity = round_div(alpha as u64 * 255, 1000);
    let channel: u8 = if opacity >= 255 {
        0
    } else {
        (255 - opacity) as u8
    };
    let rounded = round_div(fontsize as u64, 25);
    let outline: u64 = if rounded < 1 {
        1
    } else {
        rounded
    };
    let mut text = String::from_str(HEAD_INFO);
    push_decimal(&mut text, width as u128);
    text.append("\nPlayResY: ");
    push_decimal(&mut text, height as u128);
    text.append("\nAspect Ratio: ");
    push_decimal(&mut text, width as u128);
    text.append(":");
    push_decimal(&mut text, height as u128);
    text.append(HEAD_STYLES);
    text.append(styleid);
    text.append(", ");
    text.append(fontface);
    text.append(", ");
    push_decimal(&mut text, fontsize as u128);
    text.append(", &H");
    push_hex2(&mut text, channel);
    text.append("FFFFFF, &H");
    push_hex2(&mut text, channel);
    text.append("FFFFFF, &H");
    push_hex2(&mut text, channel);
    text.append("000000, &H");
    push_hex2(&mut text, channel);
    text.append(HEAD_STYLE_FIELDS);
    push_decimal(&mut text, outline as u128);
    text.append(HEAD_EVENTS);
    text
}

/// The pixel row of a lane counted upward from the reserved margin at the
/// bottom of the canvas.
pub fn convert_type2(row: usize, height: u32, bottom_reserved: u32) -> (offset: usize)
    requires
        row + bottom_reserved <= height,
    ensures
        offset == height - bottom_reserved - row,
        offset == vertical_offset(CommentPosition::Top, row as nat, height, bottom_reserved),
{
    height as usize - bottom_reserved as usize - row
}

fn position_text(
    comment: &Comment,
    row: usize,
    width: u32,
    height: u32,
    bottom_reserved: u32,
) -> (tag: String)
    requires
        comment.pos == CommentPosition::Top ==> row + bottom_reserved <= height,
    ensures
        tag@ == position_tag(*comment, row as nat, width, height, bottom_reserved),
{
    match comment.pos {
        CommentPosition::Bottom => {
            let mut tag = String::from_str("\\an8\\pos(");
            push_decimal(&mut tag, (width / 2) as u128);
            tag.append(", ");
            push_decimal(&mut tag, row as u128);
            tag.append(")");
            tag
        },
        CommentPosition::Top => {
            let mut tag = String::from_str("\\an2\\pos(");
            push_decimal(&mut tag, (width / 2) as u128);
            tag.append(", ");
            push_decimal(&mut tag, convert_type2(row, height, bottom_reserved) as u128);
            tag.append(")");
            tag
        },
        CommentPosition::Reversed => {
            let mut tag = String::from_str("\\move(");
            push_signed_decimal(&mut tag, -(comment.width as i128));
            tag.append(", ");
            push_decimal(&mut tag, row as u128);
            tag.append(", ");
            push_decimal(&mut tag, width as u128);
            tag.append(", ");
            push_decimal(&mut tag, row as u128);
            tag.append(")");
            tag
        },
        _ => {
            let mut tag = String::from_str("\\move(");
            push_decimal(&mut tag, width as u128);
            tag.append(", ");
            push_decimal(&mut tag, row as u128);
            tag.append(", ");
            push_signed_decimal(&mut tag, -(comment.width as i128));
            tag.append(", ");
            push_decimal(&mut tag, row as u128);
            tag.append(")");
            tag
        },
    }
}

fn size_text(size: u32, fontsize: u32) -> (tag: String)
    ensures
        tag@ == size_tag(size, fontsize),
{
    if size > fontsize || size < fontsize {
        let mut tag = String::from_str("\\fs");
        push_decimal(&mut tag, size as u128);
        tag
    } else {
        String::new()
    }
}

fn color_tags_text(color: u32) -> (tag: String)
    ensures
        tag@ == color_tags(color),
{
    if color == 0xFFFFFF {
        String::new()
    } else {
        let mut tag = String::from_str("\\c&H");
        tag.append(convert_color(color).as_str());
        tag.append("&");
        if color == 0 {
            tag.append("\\3c&HFFFFFF&");
        }
        tag
    }
}

fn overrides_text(
    comment: &Comment,
    row: usize,
    width: u32,
    height: u32,
    bottom_reserved: u32,
    fontsize: u32,
) -> (styles: String)
    requires
        comment.pos == CommentPosition::Top ==> row + bottom_reserved <= height,
    ensures
        styles@ == overrides(*comment, row as nat, width, height, bottom_reserved, fontsize),
{
    let mut styles = position_text(comment, row, width, height, bottom_reserved);
    styles.append(size_text(comment.size, fontsize).as_str());
    styles.append(color_tags_text(comment.color).as_str());
    styles
}

/// The line of an ordinary comment whose lane `row` is settled already.
///
/// A comment at the top counts its lane upward from the reserved margin, so
/// its lane has to lie on the usable canvas.
pub fn write_comment(
    comment: &Comment,
    row: usize,
    width: u32,
    height: u32,
    bottom_reserved: u32,
    fontsize: u32,
    duration_marquee: u64,
    duration_still: u64,
    styleid: &str,
) -> (text: String)
    requires
        comment.pos == CommentPosition::Top ==> row + bottom_reserved <= height,
    ensures
        text@ == comment_line(
            *comment,
            row as nat,
            width,
            height,
            bottom_reserved,
            fontsize,
            duration_marquee,
            duration_still,
            styleid@,
        ),
{
    let duration = match comment.pos {
        CommentPosition::Bottom | CommentPosition::Top => duration_still,
        _ => duration_marquee,
    };
    let mut text = String::from_str("Dialogue: 2,");
    push_timestamp(&mut text, comment.timeline as u128);
    text.append(",");
    push_timestamp(&mut text, comment.timeline as u128 + duration as u128);
    text.append(",");
    text.append(styleid);
    text.append(",,0000,0000,0000,,{");
    text.append(
        overrides_text(comment, row, width, height, bottom_reserved, fontsize).as_str(),
    );
    text.append("}");
    push_escaped(&mut text, comment.comment.as_str());
    text.append("\n");
    text
}

/// Places an ordinary comment and gives its line.
///
/// The comment takes the first lanes where it collides with nothing. Where
/// there are none, it is left out and the result is empty if `reduced` is
/// set; otherwise it is forced into a lane and shown over what is there.
pub fn write_normal_comment(
    rows: &mut Rows,
    comment: &Comment,
    width: u32,
    height: u32,
    bottom_reserved: u32,
    fontsize: u32,
    duration_marquee: u64,
    duration_still: u64,
    styleid: &str,
    reduced: bool,
) -> (text: String)
    requires
        old(rows).wf(),
        comment.pos.takes_lane(),
        bottom_reserved + comment.height <= height,
        height - bottom_reserved <= old(rows).lane_count(),
    ensures
        final(rows).wf(),
        final(rows).lane_count() == old(rows).lane_count(),
        is_placement(
            old(rows).lanes_of(comment.pos),
            *comment,
            width,
            height,
            bottom_reserved,
            duration_marquee,
            duration_still,
            reduced,
            placement(
                old(rows)@,
                *comment,
                width,
                height,
                bottom_reserved,
                duration_marquee,
                duration_still,
                reduced,
            ),
        ),
        final(rows)@ == after_placement(
            old(rows)@,
            *comment,
            placement(
                old(rows)@,
                *comment,
                width,
                height,
                bottom_reserved,
                duration_marquee,
                duration_still,
                reduced,
            ),
        ),
        text@ == placed_text(
            *comment,
            placement(
                old(rows)@,
                *comment,
                width,
                height,
                bottom_reserved,
                duration_marquee,
                duration_still,
                reduced,
            ),
            width,
            height,
            bottom_reserved,
            fontsize,
            duration_marquee,
            duration_still,
            styleid@,
        ),
{
    let p = place_comment(
        rows,
        comment,
        width,
        height,
        bottom_reserved,
        duration_marquee,
        duration_still,
        reduced,
    );
    proof {
        lemma_placement_is_unique(
            old(rows)@[class_index(comment.pos)],
            *comment,
            width,
            height,
            bottom_reserved,
            duration_marquee,
            duration_still,
            reduced,
            p,
            placement(
                old(rows)@,
                *comment,
                width,
                height,
                bottom_reserved,
                duration_marquee,
                duration_still,
                reduced,
            ),
        );
    }
    match p {
        Placement::Placed(row) => write_comment(
            comment,
            row,
            width,
            height,
            bottom_reserved,
            fontsize,
            duration_marquee,
            duration_still,
            styleid,
        ),
        Placement::Forced(row) => write_comment(
            comment,
            row,
            width,
            height,
            bottom_reserved,
            fontsize,
            duration_marquee,
            duration_still,
            styleid,
        ),
        Placement::Dropped => String::new(),
    }
}

/// A number of milliseconds as the format's timed steps take it: kept within
/// 32 bits.
pub open spec fn clamped(v: int) -> int {
    if v < -0x8000_0000 {
        -0x8000_0000
    } else if v > 0x7FFF_FFFF {
        0x7FFF_FFFF
    } else {
        v
    }
}

/// The point about which an animated comment turns: the middle of the
/// canvas.
pub open spec fn origin_tag(width: u32, height: u32) -> Seq<char> {
    "\\org("@ + decimal((width / 2) as nat) + ", "@ + decimal((height / 2) as nat) + ")"@
}

/// Where an animated comment stands, or, where its two ends differ, how it
/// moves from one to the other between `delay` and `delay + duration`.
pub open spec fn travel_tag(from: Projection, to: Projection, delay: i64, duration: i64) -> Seq<
    char,
> {
    if from.x == to.x && from.y == to.y {
        "\\pos("@ + signed_decimal(from.x as int) + ", "@ + signed_decimal(from.y as int) + ")"@
    } else {
        "\\move("@ + signed_decimal(from.x as int) + ", "@ + signed_decimal(from.y as int) + ", "@
            + signed_decimal(to.x as int) + ", "@ + signed_decimal(to.y as int) + ", "@
            + signed_decimal(delay as int) + ", "@ + signed_decimal(delay + duration) + ")"@
    }
}

/// The three rotations and the two scales of a projection.
pub open spec fn rotation_tag(p: Projection) -> Seq<char> {
    "\\frx"@ + signed_decimal(p.rot_x as int) + "\\fry"@ + signed_decimal(p.rot_y as int)
        + "\\frz"@ + signed_decimal(p.rot_z as int) + "\\fscx"@ + signed_decimal(
        p.scale_x as int,
    ) + "\\fscy"@ + signed_decimal(p.scale_y as int)
}

/// The timed step to the rotation and scale of the far end, for a comment
/// that moves.
pub open spec fn transition_tag(moved: bool, to: Projection, delay: i64, duration: i64) -> Seq<
    char,
> {
    if moved {
        "\\t("@ + signed_decimal(clamped(delay as int)) + ", "@ + signed_decimal(
            clamped(delay + duration),
        ) + ", "@ + rotation_tag(to) + ")"@
    } else {
        Seq::empty()
    }
}

/// The font of an animated comment, where it names one.
pub open spec fn font_tag(fontface: Seq<char>) -> Seq<char> {
    if fontface.len() > 0 {
        "\\fn"@ + escaped(fontface)
    } else {
        Seq::empty()
    }
}

/// The font size of an animated comment: its size times the zoom factor,
/// which is given in thousandths, rounded to the nearest point.
pub open spec fn zoomed_size_tag(size: u32, zoom: u32) -> Seq<char> {
    "\\fs"@ + decimal(rounded_div(size as nat * zoom as nat, 1000))
}

/// How an animated comment fades over its `lifetime`: not at all where both
/// ends have one alpha; in or out where it goes from one extreme to the
/// other; else in stages.
pub open spec fn alpha_tag(from_alpha: u8, to_alpha: u8, lifetime: u64) -> Seq<char> {
    if from_alpha == to_alpha {
        "\\alpha&H"@ + hex2(from_alpha as nat)
    } else if from_alpha == 255 && to_alpha == 0 {
        "\\fad("@ + decimal(lifetime as nat) + ",0)"@
    } else if from_alpha == 0 && to_alpha == 255 {
        "\\fad(0, "@ + decimal(lifetime as nat) + ")"@
    } else {
        "\\fade("@ + decimal(from_alpha as nat) + ", "@ + decimal(to_alpha as nat) + ", "@
            + decimal(to_alpha as nat) + ", 0, "@ + decimal(lifetime as nat) + ", "@ + decimal(
            lifetime as nat,
        ) + ", "@ + decimal(lifetime as nat) + ")"@
    }
}

/// The missing outline of a comment without border.
pub open spec fn border_tag(is_border: bool) -> Seq<char> {
    if is_border {
        Seq::empty()
    } else {
        "\\bord0"@
    }
}

/// Everything between the braces of an animated comment's line.
pub open spec fn animation_overrides(
    c: Comment,
    width: u32,
    height: u32,
    from: Projection,
    to: Projection,
    moved: bool,
    from_alpha: u8,
    to_alpha: u8,
    delay: i64,
    lifetime: u64,
    duration: i64,
    fontface: Seq<char>,
    is_border: bool,
    zoom: u32,
) -> Seq<char> {
    origin_tag(width, height) + travel_tag(from, to, delay, duration) + rotation_tag(from)
        + transition_tag(moved, to, delay, duration) + font_tag(fontface) + zoomed_size_tag(
        c.size,
        zoom,
    ) + color_tags(c.color) + alpha_tag(from_alpha, to_alpha, lifetime) + border_tag(is_border)
}

/// The line of an animated comment.
pub open spec fn animation_line(
    c: Comment,
    width: u32,
    height: u32,
    from: Projection,
    to: Projection,
    moved: bool,
    from_alpha: u8,
    to_alpha: u8,
    text: Seq<char>,
    delay: i64,
    lifetime: u64,
    duration: i64,
    fontface: Seq<char>,
    is_border: bool,
    styleid: Seq<char>,
    zoom: u32,
) -> Seq<char> {
    "Dialogue: -1,"@ + timestamp_text(c.timeline as nat) + ","@ + timestamp_text(
        (c.timeline + lifetime) as nat,
    ) + ","@ + styleid + ",,0,0,0,,{"@ + animation_overrides(
        c,
        width,
        height,
        from,
        to,
        moved,
        from_alpha,
        to_alpha,
        delay,
        lifetime,
        duration,
        fontface,
        is_border,
        zoom,
    ) + "}"@ + escaped(text) + "\n"@
}

fn clamp(v: i128) -> (r: i128)
    ensures
        r == clamped(v as int),
{
    if v < -0x8000_0000 {
        -0x8000_0000
    } else if v > 0x7FFF_FFFF {
        0x7FFF_FFFF
    } else {
        v
    }
}

fn origin_text(width: u32, height: u32) -> (tag: String)
    ensures
        tag@ == origin_tag(width, height),
{
    let mut tag = String::from_str("\\org(");
    push_decimal(&mut tag, (width / 2) as u128);
    tag.append(", ");
    push_decimal(&mut tag, (height / 2) as u128);
    tag.append(")");
    tag
}

fn travel_text(from: Projection, to: Projection, delay: i64, duration: i64) -> (tag: String)
    ensures
        tag@ == travel_tag(from, to, delay, duration),
{
    if from.x == to.x && from.y == to.y {
        let mut tag = String::from_str("\\pos(");
        push_signed_decimal(&mut tag, from.x as i128);
        tag.append(", ");
        push_signed_decimal(&mut tag, from.y as i128);
        tag.append(")");
        tag
    } else {
        let mut tag = String::from_str("\\move(");
        push_signed_decimal(&mut tag, from.x as i128);
        tag.append(", ");
        push_signed_decimal(&mut tag, from.y as i128);
        tag.append(", ");
        push_signed_decimal(&mut tag, to.x as i128);
        tag.append(", ");
        push_signed_decimal(&mut tag, to.y as i128);
        tag.append(", ");
        push_signed_decimal(&mut tag, delay as i128);
        tag.append(", ");
        push_signed_decimal(&mut tag, delay as i128 + duration as i128);
        tag.append(")");
        tag
    }
}

fn rotation_text(p: Projection) -> (tag: String)
    ensures
        tag@ == rotation_tag(p),
{
    let mut tag = String::from_str("\\frx");
    push_signed_decimal(&mut tag, p.rot_x as i128);
    tag.append("\\fry");
    push_signed_decimal(&mut tag, p.rot_y as i128);
    tag.append("\\frz");
    push_signed_decimal(&mut tag, p.rot_z as i128);
    tag.append("\\fscx");
    push_signed_decimal(&mut tag, p.scale_x as i128);
    tag.append("\\fscy");
    push_signed_decimal(&mut tag, p.scale_y as i128);
    tag
}

fn transition_text(moved: bool, to: Projection, delay: i64, duration: i64) -> (tag: String)
    ensures
        tag@ == transition_tag(moved, to, delay, duration),
{
    if moved {
        let mut tag = String::from_str("\\t(");
        push_signed_decimal(&mut tag, clamp(delay as i128));
        tag.append(", ");
        push_signed_decimal(&mut tag, clamp(delay as i128 + duration as i128));
        tag.append(", ");
        tag.append(rotation_text(to).as_str());
        tag.append(")");
        tag
    } else {
        String::new()
    }
}

fn font_text(fontface: &str) -> (tag: String)
    ensures
        tag@ == font_tag(fontface@),
{
    if fontface.is_empty() {
        String::new()
    } else {
        let mut tag = String::from_str("\\fn");
        push_escaped(&mut tag, fontface);
        tag
    }
}

fn zoomed_size_text(size: u32, zoom: u32) -> (tag: String)
    ensures
        tag@ == zoomed_size_tag(size, zoom),
{
    assert(size * zoom <= 0xFFFF_FFFF * 0xFFFF_FFFF) by (nonlinear_arith)
        requires
            0 <= size <= 0xFFFF_FFFF,
            0 <= zoom <= 0xFFFF_FFFF,
    ;
    let mut tag = String::from_str("\\fs");
    push_decimal(&mut tag, round_div(size as u64 * zoom as u64, 1000) as u128);
    tag
}

fn alpha_text(from_alpha: u8, to_alpha: u8, lifetime: u64) -> (tag: String)
    ensures
        tag@ == alpha_tag(from_alpha, to_alpha, lifetime),
{
    if from_alpha == to_alpha {
        let mut tag = String::from_str("\\alpha&H");
        push_hex2(&mut tag, from_alpha);
        tag
    } else if from_alpha == 255 && to_alpha == 0 {
        let mut tag = String::from_str("\\fad(");
        push_decimal(&mut tag, lifetime as u128);
        tag.append(",0)");
        tag
    } else if from_alpha == 0 && to_alpha == 255 {
        let mut tag = String::from_str("\\fad(0, ");
        push_decimal(&mut tag, lifetime as u128);
        tag.append(")");
        tag
    } else {
        let mut tag = String::from_str("\\fade(");
        push_decimal(&mut tag, from_alpha as u128);
        tag.append(", ");
        push_decimal(&mut tag, to_alpha as u128);
        tag.append(", ");
        push_decimal(&mut tag, to_alpha as u128);
        tag.append(", 0, ");
        push_decimal(&mut tag, lifetime as u128);
        tag.append(", ");
        push_decimal(&mut tag, lifetime as u128);
        tag.append(", ");
        push_decimal(&mut tag, lifetime as u128);
        tag.append(")");
        tag
    }
}

fn border_text(is_border: bool) -> (tag: String)
    ensures
        tag@ == border_tag(is_border),
{
    if is_border {
        String::new()
    } else {
        String::from_str("\\bord0")
    }
}

fn animation_overrides_text(
    comment: &Comment,
    width: u32,
    height: u32,
    from: Projection,
    to: Projection,
    moved: bool,
    from_alpha: u8,
    to_alpha: u8,
    delay: i64,
    lifetime: u64,
    duration: i64,
    fontface: &str,
    is_border: bool,
    zoom: u32,
) -> (styles: String)
    ensures
        styles@ == animation_overrides(
            *comment,
            width,
            height,
            from,
            to,
            moved,
            from_alpha,
            to_alpha,
            delay,
            lifetime,
            duration,
            fontface@,
            is_border,
            zoom,
        ),
{
    let mut styles = origin_text(width, height);
    styles.append(travel_text(from, to, delay, duration).as_str());
    styles.append(rotation_text(from).as_str());
    styles.append(transition_text(moved, to, delay, duration).as_str());
    styles.append(font_text(fontface).as_str());
    styles.append(zoomed_size_text(comment.size, zoom).as_str());
    styles.append(color_tags_text(comment.color).as_str());
    styles.append(alpha_text(from_alpha, to_alpha, lifetime).as_str());
    styles.append(border_text(is_border).as_str());
    styles
}

/// The line of an animated comment, which carries its own placement and
/// takes no lane.
///
/// `from_rotarg` and `to_rotarg` are the projections of its two ends onto
/// the canvas; where either could not be computed, the comment is left out
/// and the result is empty. The comment moves where `(from_x, from_y)` and
/// `(to_x, to_y)` differ. `delay`, `duration` and `lifetime` are in
/// milliseconds; of `zoom_factor` the first part is the scale in
/// thousandths.
pub fn write_comment_with_animation(
    comment: &Comment,
    width: u32,
    height: u32,
    from_rotarg: Option<Projection>,
    to_rotarg: Option<Projection>,
    from_x: i64,
    from_y: i64,
    to_x: i64,
    to_y: i64,
    from_alpha: u8,
    to_alpha: u8,
    text: &str,
    delay: i64,
    lifetime: u64,
    duration: i64,
    fontface: &str,
    is_border: bool,
    styleid: &str,
    zoom_factor: (u32, i32, i32),
) -> (line: String)
    ensures
        from_rotarg is None || to_rotarg is None ==> line@ == Seq::<char>::empty(),
        from_rotarg is Some && to_rotarg is Some ==> line@ == animation_line(
            *comment,
            width,
            height,
            from_rotarg->0,
            to_rotarg->0,
            from_x != to_x || from_y != to_y,
            from_alpha,
            to_alpha,
            text@,
            delay,
            lifetime,
            duration,
            fontface@,
            is_border,
            styleid@,
            zoom_factor.0,
        ),
{
    match (from_rotarg, to_rotarg) {
        (Some(from), Some(to)) => {
            let moved = from_x != to_x || from_y != to_y;
            let mut line = String::from_str("Dialogue: -1,");
            push_timestamp(&mut line, comment.timeline as u128);
            line.append(",");
            push_timestamp(&mut line, comment.timeline as u128 + lifetime as u128);
            line.append(",");
            line.append(styleid);
            line.append(",,0,0,0,,{");
            let styles = animation_overrides_text(
                comment,
                width,
                height,
                from,
                to,
                moved,
                from_alpha,
                to_alpha,
                delay,
                lifetime,
                duration,
                fontface,
                is_border,
                zoom_factor.0,
            );
            line.append(styles.as_str());
            line.append("}");
            push_escaped(&mut line, text);
            line.append("\n");
            line
        },
        _ => String::new(),
    }
}

/// Where a standing comment is anchored depends on its class, its lane and
/// the canvas alone: two comments of one class in one lane get the same
/// position, whatever their text, time, size or colour.
pub proof fn lemma_standing_position_is_fixed_by_lane(
    a: Comment,
    b: Comment,
    row: nat,
    width: u32,
    height: u32,
    bottom_reserved: u32,
)
    requires
        a.pos.is_still(),
        a.pos == b.pos,
    ensures
        position_tag(a, row, width, height, bottom_reserved) == position_tag(
            b,
            row,
            width,
            height,
            bottom_reserved,
        ),
        position_tag(a, row, width, height, bottom_reserved) == still_tag(
            a.pos,
            row,
            width,
            height,
            bottom_reserved,
        ),
{
}

/// A white comment carries no colour of its own, whatever else it carries; a
/// black one carries its colour and, after it, a white outline.
pub proof fn lemma_color_overrides(
    c: Comment,
    row: nat,
    width: u32,
    height: u32,
    bottom_reserved: u32,
    fontsize: u32,
)
    ensures
        c.color == 0xFFFFFF ==> overrides(c, row, width, height, bottom_reserved, fontsize)
            == position_tag(c, row, width, height, bottom_reserved) + size_tag(c.size, fontsize),
        c.color == 0 ==> overrides(c, row, width, height, bottom_reserved, fontsize)
            == position_tag(c, row, width, height, bottom_reserved) + size_tag(c.size, fontsize)
            + ("\\c&H"@ + color_text(0) + "&"@ + "\\3c&HFFFFFF&"@),
{
    if c.color == 0xFFFFFF {
        assert(overrides(c, row, width, height, bottom_reserved, fontsize) =~= position_tag(
            c,
            row,
            width,
            height,
            bottom_reserved,
        ) + size_tag(c.size, fontsize));
    }
}

} // verus!
