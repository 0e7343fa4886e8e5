//! The lanes of the canvas and what occupies them.
//!
//! A lane is one pixel row of the usable canvas. Each class of comments that
//! takes lanes has a set of its own, so that a standing comment and a moving
//! one never compete for a lane.

use crate::comment::{Comment, CommentPosition};
use vstd::prelude::*;

verus! {

/// What a lane remembers of the comment that took it last.
#[derive(Clone, Copy, Debug, PartialEq, Eq, Structural)]
pub struct Occupant {
    /// When that comment appeared, in milliseconds.
    pub timeline: u64,
    /// Its rendered width in pixels.
    pub width: u32,
}

/// The number of classes that take lanes.
pub const LANE_CLASSES: usize = 4;

/// The lanes of every class, for one run over a list of comments.
pub struct Rows {
    lanes: Vec<Vec<Option<Occupant>>>,
}

/// Which set of lanes a class of comments uses. `Special` comments take no
/// lane, and their index is that of no set.
pub open spec fn class_index(pos: CommentPosition) -> int {
    match pos {
        CommentPosition::Scroll => 0,
        CommentPosition::Bottom => 1,
        CommentPosition::Top => 2,
        CommentPosition::Reversed => 3,
        CommentPosition::Special => 4,
    }
}

/// The record that a comment leaves in the lanes it takes.
pub open spec fn occupant_of(c: Comment) -> Occupant {
    Occupant { timeline: c.timeline, width: c.width }
}

/// Whether a moving comment of width `w` and another one that enters `gap`
/// milliseconds after or before it are too close at one edge of a canvas
/// `width` wide: the comment needs `duration * w / (width + w)` to travel its
/// own width, and the gap is shorter than that.
pub open spec fn too_close(gap: int, width: int, w: int, duration: int) -> bool {
    gap * (width + w) < duration * w
}

/// Whether the last comment of a lane keeps the comment `c` out of it.
///
/// Two standing comments collide while the earlier one is still shown. A
/// moving comment travels the canvas and its own width within
/// `duration_marquee`; two of them collide if the earlier one has not yet
/// come clear of the edge where they enter when the later one appears, or if
/// the later one would reach the far edge before the earlier one has left
/// the canvas.
pub open spec fn blocks(
    occupant: Occupant,
    c: Comment,
    width: u32,
    duration_marquee: u64,
    duration_still: u64,
) -> bool {
    let gap = c.timeline - occupant.timeline;
    if c.pos.is_still() {
        gap < duration_still
    } else {
        ||| too_close(gap, width as int, occupant.width as int, duration_marquee as int)
        ||| too_close(gap, width as int, c.width as int, duration_marquee as int)
    }
}

/// Whether a lane is closed to the comment `c`.
pub open spec fn lane_blocked(
    lane: Option<Occupant>,
    c: Comment,
    width: u32,
    duration_marquee: u64,
    duration_still: u64,
) -> bool {
    match lane {
        Some(occupant) => blocks(occupant, c, width, duration_marquee, duration_still),
        None => false,
    }
}

/// The number of lanes in a row, from `row` on, that are open to `c`: at most
/// `need` of them, and none at or beyond `limit`.
pub open spec fn free_span(
    lanes: Seq<Option<Occupant>>,
    c: Comment,
    row: int,
    need: nat,
    limit: int,
    width: u32,
    duration_marquee: u64,
    duration_still: u64,
) -> nat
    decreases need,
{
    if need == 0 || row < 0 || row >= limit || row >= lanes.len() || lane_blocked(
        lanes[row],
        c,
        width,
        duration_marquee,
        duration_still,
    ) {
        0
    } else {
        1 + free_span(
            lanes,
            c,
            row + 1,
            (need - 1) as nat,
            limit,
            width,
            duration_marquee,
            duration_still,
        )
    }
}

/// The lanes of one class after `c` has taken those from `row` on that its
/// height covers. Lanes that do not exist are passed over.
pub open spec fn marked_lanes(lanes: Seq<Option<Occupant>>, c: Comment, row: int) -> Seq<
    Option<Occupant>,
> {
    Seq::new(
        lanes.len(),
        |i: int|
            if row <= i < row + c.height {
                Some(occupant_of(c))
            } else {
                lanes[i]
            },
    )
}

/// All lanes after `c` has taken its lanes from `row` on: only the lanes of
/// its own class change.
pub open spec fn marked(all: Seq<Seq<Option<Occupant>>>, c: Comment, row: int) -> Seq<
    Seq<Option<Occupant>>,
> {
    all.update(class_index(c.pos), marked_lanes(all[class_index(c.pos)], c, row))
}

/// Whether `row` is the lane to force a comment into, among the first `n`
/// lanes: the first lane that nothing has taken yet; where every lane is
/// taken, the one whose comment appeared earliest, and of several such the
/// first; lane 0 where `n` is 0.
pub open spec fn is_alternative_row(lanes: Seq<Option<Occupant>>, n: int, row: int) -> bool {
    if n <= 0 {
        row == 0
    } else if exists|j: int| 0 <= j < n && lanes[j] is None {
        &&& 0 <= row < n
        &&& lanes[row] is None
        &&& forall|j: int| 0 <= j < row ==> lanes[j] is Some
    } else {
        &&& 0 <= row < n
        &&& forall|j: int| 0 <= j < n ==> lanes[row]->0.timeline <= (#[trigger] lanes[j])->0.timeline
        &&& forall|j: int| 0 <= j < row ==> lanes[row]->0.timeline < (#[trigger] lanes[j])->0.timeline
    }
}

/// Whether the comment can take the lanes from `row` on that its height
/// covers: they lie below `limit`, and none of them is closed to it.
pub open spec fn fits(
    lanes: Seq<Option<Occupant>>,
    c: Comment,
    row: int,
    limit: int,
    width: u32,
    duration_marquee: u64,
    duration_still: u64,
) -> bool {
    &&& 0 <= row
    &&& row + c.height <= limit
    &&& forall|i: int|
        row <= i < row + c.height ==> !lane_blocked(
            #[trigger] lanes[i],
            c,
            width,
            duration_marquee,
            duration_still,
        )
}

/// Whether `row` is the first lane from which the comment fits.
pub open spec fn first_fit(
    lanes: Seq<Option<Occupant>>,
    c: Comment,
    row: int,
    limit: int,
    width: u32,
    duration_marquee: u64,
    duration_still: u64,
) -> bool {
    &&& fits(lanes, c, row, limit, width, duration_marquee, duration_still)
    &&& forall|r: int|
        0 <= r < row ==> !#[trigger] fits(
            lanes,
            c,
            r,
            limit,
            width,
            duration_marquee,
            duration_still,
        )
}

/// Whether the comment fits nowhere.
pub open spec fn nothing_fits(
    lanes: Seq<Option<Occupant>>,
    c: Comment,
    limit: int,
    width: u32,
    duration_marquee: u64,
    duration_still: u64,
) -> bool {
    forall|r: int| !#[trigger] fits(lanes, c, r, limit, width, duration_marquee, duration_still)
}

/// What became of a comment that asked for lanes.
#[derive(Clone, Copy, Debug, PartialEq, Eq, Structural)]
pub enum Placement {
    /// It took the lanes from this one on, and collides with nothing there.
    Placed(usize),
    /// It fitted nowhere and was put on the lanes from this one on, over
    /// what is shown there.
    Forced(usize),
    /// It fitted nowhere and was left out.
    Dropped,
}

/// Whether `p` is what becomes of the comment `c` on the lanes of its class:
/// it takes the first lanes where it fits; where it fits nowhere it is left
/// out if `reduced` is set, and forced into the alternative lane otherwise.
pub open spec fn is_placement(
    lanes: Seq<Option<Occupant>>,
    c: Comment,
    width: u32,
    height: u32,
    bottom_reserved: u32,
    duration_marquee: u64,
    duration_still: u64,
    reduced: bool,
    p: Placement,
) -> bool {
    let limit = height - bottom_reserved;
    match p {
        Placement::Placed(row) => first_fit(
            lanes,
            c,
            row as int,
            limit,
            width,
            duration_marquee,
            duration_still,
        ),
        Placement::Forced(row) => {
            &&& !reduced
            &&& nothing_fits(lanes, c, limit, width, duration_marquee, duration_still)
            &&& is_alternative_row(lanes, limit - c.height, row as int)
        },
        Placement::Dropped => {
            &&& reduced
            &&& nothing_fits(lanes, c, limit, width, duration_marquee, duration_still)
        },
    }
}

/// What becomes of the comment `c` on the lanes `all`.
pub open spec fn placement(
    all: Seq<Seq<Option<Occupant>>>,
    c: Comment,
    width: u32,
    height: u32,
    bottom_reserved: u32,
    duration_marquee: u64,
    duration_still: u64,
    reduced: bool,
) -> Placement {
    choose|p: Placement|
        is_placement(
            all[class_index(c.pos)],
            c,
            width,
            height,
            bottom_reserved,
            duration_marquee,
            duration_still,
            reduced,
            p,
        )
}

/// All lanes after the placement `p` of the comment `c`.
pub open spec fn after_placement(all: Seq<Seq<Option<Occupant>>>, c: Comment, p: Placement) -> Seq<
    Seq<Option<Occupant>>,
> {
    match p {
        Placement::Placed(row) => marked(all, c, row as int),
        Placement::Forced(row) => marked(all, c, row as int),
        Placement::Dropped => all,
    }
}


impl View for Rows {
    type V = Seq<Seq<Option<Occupant>>>;

    closed spec fn view(&self) -> Seq<Seq<Option<Occupant>>> {
        Seq::new(self.lanes@.len(), |k: int| self.lanes@[k]@)
    }
}

impl Rows {
    /// Every class has its set of lanes, and all sets are of one length.
    pub open spec fn wf(&self) -> bool {
        &&& self@.len() == LANE_CLASSES
        &&& forall|k: int| 0 <= k < LANE_CLASSES ==> (#[trigger] self@[k]).len() == self@[0].len()
    }

    /// The number of lanes of each class.
    pub open spec fn lane_count(&self) -> nat {
        self@[0].len()
    }

    /// The lanes of the class `pos`.
    pub open spec fn lanes_of(&self, pos: CommentPosition) -> Seq<Option<Occupant>> {
        self@[class_index(pos)]
    }

    /// Lanes for a canvas with `capacity` usable pixel rows, all of them
    /// free.
    pub fn new(capacity: usize) -> (rows: Rows)
        ensures
            rows.wf(),
            rows.lane_count() == capacity,
            forall|k: int, i: int|
                0 <= k < LANE_CLASSES && 0 <= i < capacity ==> (#[trigger] rows@[k][i]) is None,
    {
        let mut lanes: Vec<Vec<Option<Occupant>>> = Vec::new();
        let mut k: usize = 0;
        while k < LANE_CLASSES
            invariant
                k <= LANE_CLASSES,
                lanes@.len() == k,
                forall|j: int| 0 <= j < k ==> (#[trigger] lanes@[j])@.len() == capacity,
                forall|j: int, i: int|
                    0 <= j < k && 0 <= i < capacity ==> (#[trigger] lanes@[j]@[i]) is None,
            decreases LANE_CLASSES - k,
        {
            let mut class: Vec<Option<Occupant>> = Vec::new();
            let mut i: usize = 0;
            while i < capacity
                invariant
                    i <= capacity,
                    class@.len() == i,
                    forall|j: int| 0 <= j < i ==> (#[trigger] class@[j]) is None,
                decreases capacity - i,
            {
                class.push(None);
                i += 1;
            }
            lanes.push(class);
            k += 1;
        }
        Rows { lanes }
    }

    /// The number of lanes of each class.
    pub fn capacity(&self) -> (n: usize)
        requires
            self.wf(),
        ensures
            n == self.lane_count(),
    {
        self.lanes[0].len()
    }

    /// What the lane `row` of the class `pos` holds; nothing where there is
    /// no such lane.
    pub fn occupant(&self, pos: CommentPosition, row: usize) -> (lane: Option<Occupant>)
        requires
            self.wf(),
        ensures
            lane == if pos.takes_lane() && row < self.lane_count() {
                self.lanes_of(pos)[row as int]
            } else {
                None
            },
    {
        match class_of(pos) {
            Some(k) => {
                if row < self.lanes[k].len() {
                    self.lanes[k][row]
                } else {
                    None
                }
            },
            None => None,
        }
    }
}

/// The index of the set of lanes that a class uses.
fn class_of(pos: CommentPosition) -> (k: Option<usize>)
    ensures
        pos.takes_lane() ==> k == Some(class_index(pos) as usize) && class_index(pos) < LANE_CLASSES,
        !pos.takes_lane() ==> k is None,
{
    match pos {
        CommentPosition::Scroll => Some(0),
        CommentPosition::Bottom => Some(1),
        CommentPosition::Top => Some(2),
        CommentPosition::Reversed => Some(3),
        CommentPosition::Special => None,
    }
}

fn is_too_close(gap: i128, width: u32, w: u32, duration: u64) -> (b: bool)
    requires
        -0x1_0000_0000_0000_0000 < gap < 0x1_0000_0000_0000_0000,
    ensures
        b == too_close(gap as int, width as int, w as int, duration as int),
{
    let span: i128 = width as i128 + w as i128;
    assert(-0x2_0000_0000_0000_0000_0000_0000 < gap * span < 0x2_0000_0000_0000_0000_0000_0000)
        by (nonlinear_arith)
        requires
            -0x1_0000_0000_0000_0000 < gap < 0x1_0000_0000_0000_0000,
            0 <= span < 0x2_0000_0000,
    ;
    assert(0 <= duration * w < 0x1_0000_0000_0000_0000_0000_0000) by (nonlinear_arith)
        requires
            0 <= duration < 0x1_0000_0000_0000_0000,
            0 <= w < 0x1_0000_0000,
    ;
    gap * span < (duration as i128) * (w as i128)
}

fn is_blocked(
    lane: Option<Occupant>,
    c: &Comment,
    width: u32,
    duration_marquee: u64,
    duration_still: u64,
) -> (b: bool)
    ensures
        b == lane_blocked(lane, *c, width, duration_marquee, duration_still),
{
    match lane {
        None => false,
        Some(occupant) => {
            let gap: i128 = c.timeline as i128 - occupant.timeline as i128;
            match c.pos {
                CommentPosition::Top | CommentPosition::Bottom => gap < duration_still as i128,
                _ => is_too_close(gap, width, occupant.width, duration_marquee) || is_too_close(
                    gap,
                    width,
                    c.width,
                    duration_marquee,
                ),
            }
        },
    }
}

/// The number of lanes in a row, from `row` on, that are open to the
/// comment: at most as many as its height, and none beyond the usable
/// canvas.
pub fn test_free_rows(
    rows: &Rows,
    comment: &Comment,
    row: usize,
    width: u32,
    height: u32,
    bottom_reserved: u32,
    duration_marquee: u64,
    duration_still: u64,
) -> (free: usize)
    requires
        rows.wf(),
        comment.pos.takes_lane(),
        bottom_reserved <= height,
        height - bottom_reserved <= rows.lane_count(),
    ensures
        free == free_span(
            rows.lanes_of(comment.pos),
            *comment,
            row as int,
            comment.height as nat,
            height - bottom_reserved,
            width,
            duration_marquee,
            duration_still,
        ),
{
    let k = class_of(comment.pos).unwrap();
    let limit: usize = (height - bottom_reserved) as usize;
    let need: usize = comment.height as usize;
    let ghost lanes = rows.lanes_of(comment.pos);
    let mut free: usize = 0;
    let mut stopped = false;
    while !stopped && free < need && row < limit && free < limit - row
        invariant
            rows.wf(),
            k == class_index(comment.pos),
            0 <= k < LANE_CLASSES,
            lanes == rows@[k as int],
            limit == height - bottom_reserved,
            limit <= lanes.len(),
            need == comment.height,
            free <= need,
            free_span(
                lanes,
                *comment,
                row as int,
                need as nat,
                limit as int,
                width,
                duration_marquee,
                duration_still,
            ) == free + free_span(
                lanes,
                *comment,
                row + free,
                (need - free) as nat,
                limit as int,
                width,
                duration_marquee,
                duration_still,
            ),
            stopped ==> free_span(
                lanes,
                *comment,
                row + free,
                (need - free) as nat,
                limit as int,
                width,
                duration_marquee,
                duration_still,
            ) == 0,
        decreases (if stopped { 0int } else { 1int }), need - free,
    {
        if is_blocked(rows.lanes[k][row + free], comment, width, duration_marquee, duration_still) {
            stopped = true;
        } else {
            free += 1;
        }
    }
    free
}

/// Records the comment as the last one of every lane that it covers from
/// `row` on. Lanes beyond the last one are passed over.
pub fn mark_comment_row(rows: &mut Rows, comment: &Comment, row: usize)
    requires
        old(rows).wf(),
        comment.pos.takes_lane(),
    ensures
        final(rows).wf(),
        final(rows).lane_count() == old(rows).lane_count(),
        final(rows)@ == marked(old(rows)@, *comment, row as int),
{
    let k = class_of(comment.pos).unwrap();
    let n = rows.lanes[k].len();
    let need: usize = comment.height as usize;
    let end: usize = if row >= n {
        row
    } else if n - row > need {
        row + need
    } else {
        n
    };
    let mark = Some(Occupant { timeline: comment.timeline, width: comment.width });
    let mut i: usize = row;
    while i < end
        invariant
            row <= i <= end,
            end <= n || end == row,
            0 <= k < LANE_CLASSES,
            rows.lanes@.len() == LANE_CLASSES,
            rows.lanes@[k as int]@.len() == n,
            forall|j: int| 0 <= j < LANE_CLASSES && j != k ==> rows.lanes@[j] == old(rows).lanes@[j],
            forall|j: int|
                0 <= j < n ==> (#[trigger] rows.lanes@[k as int]@[j]) == if row <= j < i {
                    mark
                } else {
                    old(rows).lanes@[k as int]@[j]
                },
        decreases end - i,
    {
        rows.lanes[k][i] = mark;
        i += 1;
    }
    proof {
        let after = marked(old(rows)@, *comment, row as int);
        assert(rows@.len() == after.len());
        assert forall|j: int| 0 <= j < LANE_CLASSES implies rows@[j] =~= after[j] by {
            if j == k {
                assert forall|l: int| 0 <= l < n implies rows@[j][l] == after[j][l] by {
                    assert(rows@[j][l] == rows.lanes@[k as int]@[l]);
                }
            }
        }
        assert(rows@ =~= after);
    }
}

/// The lane to force the comment into where it fits nowhere: among the lanes
/// that leave room for its height, the first that nothing has taken yet,
/// else the one whose comment appeared earliest.
pub fn find_alternative_row(
    rows: &Rows,
    comment: &Comment,
    height: u32,
    bottom_reserved: u32,
) -> (row: usize)
    requires
        rows.wf(),
        comment.pos.takes_lane(),
        bottom_reserved + comment.height <= height,
        height - bottom_reserved <= rows.lane_count(),
    ensures
        is_alternative_row(
            rows.lanes_of(comment.pos),
            height - bottom_reserved - comment.height,
            row as int,
        ),
{
    let k = class_of(comment.pos).unwrap();
    let n: usize = (height - bottom_reserved - comment.height) as usize;
    let ghost lanes = rows.lanes_of(comment.pos);
    let mut best: usize = 0;
    let mut row: usize = 0;
    while row < n
        invariant
            rows.wf(),
            0 <= k < LANE_CLASSES,
            lanes == rows@[k as int],
            k == class_index(comment.pos),
            n == height - bottom_reserved - comment.height,
            n <= lanes.len(),
            row <= n,
            row == 0 ==> best == 0,
            row > 0 ==> best < row,
            forall|j: int| 0 <= j < row ==> (#[trigger] lanes[j]) is Some,
            forall|j: int|
                0 <= j < row ==> lanes[best as int]->0.timeline <= (#[trigger] lanes[j])->0.timeline,
            forall|j: int|
                0 <= j < best ==> lanes[best as int]->0.timeline < (#[trigger] lanes[j])->0.timeline,
        decreases n - row,
    {
        match rows.lanes[k][row] {
            None => {
                assert(lanes[row as int] is None);
                return row;
            },
            Some(occupant) => {
                if let Some(earliest) = rows.lanes[k][best] {
                    if occupant.timeline < earliest.timeline {
                        best = row;
                    }
                }
            },
        }
        row += 1;
    }
    best
}

/// What the count of free lanes says of the lanes themselves: the lanes it
/// counts are open and lie below `limit`; where it stays under `need`, the
/// next lane is closed or there is none.
pub proof fn lemma_free_span(
    lanes: Seq<Option<Occupant>>,
    c: Comment,
    row: int,
    need: nat,
    limit: int,
    width: u32,
    duration_marquee: u64,
    duration_still: u64,
)
    requires
        0 <= row,
        limit <= lanes.len(),
    ensures
        ({
            let f = free_span(lanes, c, row, need, limit, width, duration_marquee, duration_still);
            &&& f <= need
            &&& (f > 0 ==> row + f <= limit)
            &&& forall|i: int|
                row <= i < row + f ==> !lane_blocked(
                    #[trigger] lanes[i],
                    c,
                    width,
                    duration_marquee,
                    duration_still,
                )
            &&& (f < need ==> row + f >= limit || lane_blocked(
                lanes[row + f],
                c,
                width,
                duration_marquee,
                duration_still,
            ))
        }),
    decreases need,
{
    if need == 0 || row >= limit || lane_blocked(
        lanes[row],
        c,
        width,
        duration_marquee,
        duration_still,
    ) {
    } else {
        lemma_free_span(
            lanes,
            c,
            row + 1,
            (need - 1) as nat,
            limit,
            width,
            duration_marquee,
            duration_still,
        );
    }
}

/// Where fewer lanes are free from `row` on than the comment is high, it
/// fits neither at `row` nor at any of the lanes counted, nor at the one
/// after them.
proof fn lemma_short_span_fits_nowhere(
    lanes: Seq<Option<Occupant>>,
    c: Comment,
    row: int,
    limit: int,
    width: u32,
    duration_marquee: u64,
    duration_still: u64,
    r: int,
)
    requires
        0 <= row,
        limit <= lanes.len(),
        free_span(lanes, c, row, c.height as nat, limit, width, duration_marquee, duration_still)
            < c.height,
        row <= r <= row + free_span(
            lanes,
            c,
            row,
            c.height as nat,
            limit,
            width,
            duration_marquee,
            duration_still,
        ),
    ensures
        !fits(lanes, c, r, limit, width, duration_marquee, duration_still),
{
    let f = free_span(
        lanes,
        c,
        row,
        c.height as nat,
        limit,
        width,
        duration_marquee,
        duration_still,
    );
    lemma_free_span(lanes, c, row, c.height as nat, limit, width, duration_marquee, duration_still);
    if row + f < limit {
        assert(lane_blocked(lanes[row + f], c, width, duration_marquee, duration_still));
    }
}

/// Finds lanes for the comment and records it there: the first lanes where
/// it collides with nothing; where there are none, the comment is left out
/// if `reduced` is set and forced into the alternative lane otherwise.
pub fn place_comment(
    rows: &mut Rows,
    comment: &Comment,
    width: u32,
    height: u32,
    bottom_reserved: u32,
    duration_marquee: u64,
    duration_still: u64,
    reduced: bool,
) -> (p: Placement)
    requires
        old(rows).wf(),
        comment.pos.takes_lane(),
        bottom_reserved + comment.height <= height,
        height - bottom_reserved <= old(rows).lane_count(),
    ensures
        final(rows).wf(),
        final(rows).lane_count() == old(rows).lane_count(),
        is_placement(
            old(rows).lanes_of(comment.pos),
            *comment,
            width,
            height,
            bottom_reserved,
            duration_marquee,
            duration_still,
            reduced,
            p,
        ),
        final(rows)@ == after_placement(old(rows)@, *comment, p),
{
    let ghost lanes = rows.lanes_of(comment.pos);
    let ghost limit = height - bottom_reserved;
    let need: u64 = comment.height as u64;
    let rowmax: u64 = (height - bottom_reserved - comment.height) as u64;
    let mut row: u64 = 0;
    while row <= rowmax
        invariant
            rows.wf(),
            *rows == *old(rows),
            comment.pos.takes_lane(),
            bottom_reserved + comment.height <= height,
            limit == height - bottom_reserved,
            limit <= rows.lane_count(),
            lanes == rows.lanes_of(comment.pos),
            need == comment.height,
            rowmax == limit - need,
            row <= rowmax + need + 1,
            forall|r: int|
                0 <= r < row ==> !#[trigger] fits(
                    lanes,
                    *comment,
                    r,
                    limit,
                    width,
                    duration_marquee,
                    duration_still,
                ),
        decreases rowmax + need + 1 - row,
    {
        let free = test_free_rows(
            rows,
            comment,
            row as usize,
            width,
            height,
            bottom_reserved,
            duration_marquee,
            duration_still,
        ) as u64;
        proof {
            lemma_free_span(
                lanes,
                *comment,
                row as int,
                need as nat,
                limit,
                width,
                duration_marquee,
                duration_still,
            );
        }
        if free >= need {
            mark_comment_row(rows, comment, row as usize);
            return Placement::Placed(row as usize);
        }
        let step: u64 = if free == 0 {
            1
        } else {
            free
        };
        proof {
            assert forall|r: int| row <= r < row + step implies !#[trigger] fits(
                lanes,
                *comment,
                r,
                limit,
                width,
                duration_marquee,
                duration_still,
            ) by {
                lemma_short_span_fits_nowhere(
                    lanes,
                    *comment,
                    row as int,
                    limit,
                    width,
                    duration_marquee,
                    duration_still,
                    r,
                );
            }
        }
        row += step;
    }
    if reduced {
        Placement::Dropped
    } else {
        let forced = find_alternative_row(rows, comment, height, bottom_reserved);
        mark_comment_row(rows, comment, forced);
        Placement::Forced(forced)
    }
}

/// At most one placement is right for a comment: what becomes of it is
/// decided by the lanes, the comment and the settings alone.
pub proof fn lemma_placement_is_unique(
    lanes: Seq<Option<Occupant>>,
    c: Comment,
    width: u32,
    height: u32,
    bottom_reserved: u32,
    duration_marquee: u64,
    duration_still: u64,
    reduced: bool,
    p: Placement,
    q: Placement,
)
    requires
        is_placement(
            lanes,
            c,
            width,
            height,
            bottom_reserved,
            duration_marquee,
            duration_still,
            reduced,
            p,
        ),
        is_placement(
            lanes,
            c,
            width,
            height,
            bottom_reserved,
            duration_marquee,
            duration_still,
            reduced,
            q,
        ),
    ensures
        p == q,
{
    let limit = height - bottom_reserved;
    match (p, q) {
        (Placement::Placed(a), Placement::Placed(b)) => {
            assert(fits(lanes, c, a as int, limit, width, duration_marquee, duration_still));
            assert(fits(lanes, c, b as int, limit, width, duration_marquee, duration_still));
        },
        (Placement::Placed(a), _) => {
            assert(fits(lanes, c, a as int, limit, width, duration_marquee, duration_still));
        },
        (_, Placement::Placed(b)) => {
            assert(fits(lanes, c, b as int, limit, width, duration_marquee, duration_still));
        },
        _ => {},
    }
}

/// Whether a comment that appears at `start` and stays for `duration` is
/// shown at the time `t`.
pub open spec fn shown_at(start: int, duration: int, t: int) -> bool {
    start <= t < start + duration
}

/// Whether at the time `t` the moving comment `c` is wholly behind `a`, which
/// entered before it: the front of `c` has not come farther from the edge
/// where both entered than the back of `a`. A comment of width `w` that
/// entered at `start` has its front at `(width + w) * (t - start) / duration`
/// from that edge, and its back `w` behind. Both sides are taken `duration`
/// times, which keeps them whole.
pub open spec fn apart_at(a: Occupant, c: Comment, width: int, duration: int, t: int) -> bool {
    (width + c.width) * (t - c.timeline) + duration * a.width <= (width + a.width) * (t
        - a.timeline)
}

proof fn lemma_apart_between(w: int, wa: int, wc: int, d: int, gap: int, s: int)
    requires
        w >= 0,
        wa >= 0,
        wc >= 0,
        gap >= 0,
        s >= 0,
        s + gap <= d,
        gap * (w + wa) >= d * wa,
        gap * (w + wc) >= d * wc,
    ensures
        (w + wc) * s + d * wa <= (w + wa) * (s + gap),
{
    if wa >= wc {
        assert((w + wc) * s <= (w + wa) * s) by (nonlinear_arith)
            requires
                s >= 0,
                wc <= wa,
        ;
        assert((w + wa) * (s + gap) == (w + wa) * s + gap * (w + wa)) by (nonlinear_arith);
    } else {
        let u = d - s - gap;
        assert(u * (wc - wa) >= 0) by (nonlinear_arith)
            requires
                u >= 0,
                wc - wa >= 0,
        ;
        assert((w + wa) * (s + gap) - (w + wc) * s - d * wa == u * (wc - wa) + (gap * (w + wc) - d
            * wc)) by (nonlinear_arith)
            requires
                u == d - s - gap,
        ;
    }
}

proof fn lemma_late_is_clear(w: int, wa: int, d: int, gap: int)
    requires
        w >= 0,
        wa >= 0,
        d >= 0,
        gap >= d,
    ensures
        gap * (w + wa) >= d * wa,
{
    assert(gap * (w + wa) >= d * (w + wa)) by (nonlinear_arith)
        requires
            gap >= d,
            w + wa >= 0,
    ;
    assert(d * (w + wa) >= d * wa) by (nonlinear_arith)
        requires
            d >= 0,
            w >= 0,
    ;
}

/// A lane is open to a moving comment exactly if it never touches the
/// comment that took the lane before it: from the moment it appears until the
/// earlier one has left the canvas, it stays wholly behind.
pub proof fn lemma_moving_clear_iff_apart(
    a: Occupant,
    c: Comment,
    width: u32,
    duration_marquee: u64,
    duration_still: u64,
)
    requires
        a.timeline <= c.timeline,
        !c.pos.is_still(),
    ensures
        !blocks(a, c, width, duration_marquee, duration_still) <==> (forall|t: int|
            c.timeline <= t <= a.timeline + duration_marquee ==> #[trigger] apart_at(
                a,
                c,
                width as int,
                duration_marquee as int,
                t,
            )),
{
    let w = width as int;
    let wa = a.width as int;
    let wc = c.width as int;
    let d = duration_marquee as int;
    let gap = c.timeline - a.timeline;
    if !blocks(a, c, width, duration_marquee, duration_still) {
        assert forall|t: int| c.timeline <= t <= a.timeline + d implies #[trigger] apart_at(
            a,
            c,
            w,
            d,
            t,
        ) by {
            lemma_apart_between(w, wa, wc, d, gap, t - c.timeline);
        }
    }
    if forall|t: int| c.timeline <= t <= a.timeline + d ==> #[trigger] apart_at(a, c, w, d, t) {
        if gap <= d {
            assert(apart_at(a, c, w, d, c.timeline as int));
            assert(apart_at(a, c, w, d, a.timeline + d));
            assert((w + wc) * (c.timeline - c.timeline) == 0) by (nonlinear_arith);
            assert(gap * (w + wa) == (w + wa) * (c.timeline - a.timeline)) by (nonlinear_arith)
                requires
                    gap == c.timeline - a.timeline,
            ;
            assert((w + wa) * (a.timeline + d - a.timeline) - (w + wc) * (a.timeline + d
                - c.timeline) - d * wa == gap * (w + wc) - d * wc) by (nonlinear_arith)
                requires
                    gap == c.timeline - a.timeline,
            ;
        } else {
            lemma_late_is_clear(w, wa, d, gap);
            lemma_late_is_clear(w, wc, d, gap);
        }
    }
}

/// A lane is open to a standing comment exactly if the comment that took the
/// lane before it is never shown at the same time.
pub proof fn lemma_still_clear_iff_disjoint(
    a: Occupant,
    c: Comment,
    width: u32,
    duration_marquee: u64,
    duration_still: u64,
)
    requires
        a.timeline <= c.timeline,
        c.pos.is_still(),
    ensures
        !blocks(a, c, width, duration_marquee, duration_still) <==> (forall|t: int|
            !(shown_at(a.timeline as int, duration_still as int, t) && #[trigger] shown_at(
                c.timeline as int,
                duration_still as int,
                t,
            ))),
{
    if blocks(a, c, width, duration_marquee, duration_still) {
        assert(shown_at(c.timeline as int, duration_still as int, c.timeline as int));
    }
}

/// Looking at the last comment of a lane is enough: a comment that is clear
/// of it is clear of every comment that took the lane before, as long as
/// comments come in the order of their times.
pub proof fn lemma_clear_of_last_is_clear_of_earlier(
    a: Occupant,
    b: Comment,
    c: Comment,
    width: u32,
    duration_marquee: u64,
    duration_still: u64,
)
    requires
        a.timeline <= b.timeline <= c.timeline,
        b.pos.is_still() == c.pos.is_still(),
        !blocks(a, b, width, duration_marquee, duration_still),
        !blocks(occupant_of(b), c, width, duration_marquee, duration_still),
    ensures
        !blocks(a, c, width, duration_marquee, duration_still),
{
    if !c.pos.is_still() {
        let w = width as int;
        let d = duration_marquee as int;
        let ab = b.timeline - a.timeline;
        let bc = c.timeline - b.timeline;
        let ac = c.timeline - a.timeline;
        assert(ac * (w + a.width) >= ab * (w + a.width)) by (nonlinear_arith)
            requires
                ac >= ab,
                w + a.width >= 0,
        ;
        assert(ac * (w + c.width) >= bc * (w + c.width)) by (nonlinear_arith)
            requires
                ac >= bc,
                w + c.width >= 0,
        ;
    }
}

/// The classes keep their lanes apart: a comment changes the lanes of its
/// own class only, so what becomes of a comment of another class does not
/// depend on it. A standing comment and a moving one are never of one class.
pub proof fn lemma_classes_keep_apart(
    all: Seq<Seq<Option<Occupant>>>,
    a: Comment,
    row: int,
    b: Comment,
    width: u32,
    height: u32,
    bottom_reserved: u32,
    duration_marquee: u64,
    duration_still: u64,
    reduced: bool,
)
    requires
        all.len() == LANE_CLASSES,
        a.pos.takes_lane(),
        b.pos.takes_lane(),
        a.pos != b.pos,
    ensures
        class_index(a.pos) != class_index(b.pos),
        marked(all, a, row)[class_index(b.pos)] == all[class_index(b.pos)],
        placement(
            marked(all, a, row),
            b,
            width,
            height,
            bottom_reserved,
            duration_marquee,
            duration_still,
            reduced,
        ) == placement(
            all,
            b,
            width,
            height,
            bottom_reserved,
            duration_marquee,
            duration_still,
            reduced,
        ),
{
}

/// Whether the comments of `chain` can have taken one lane one after the
/// other without being forced: they are of one kind, come in the order of
/// their times, and each was clear of the one before it.
pub open spec fn is_clear_chain(
    chain: Seq<Comment>,
    width: u32,
    duration_marquee: u64,
    duration_still: u64,
) -> bool {
    forall|k: int|
        0 <= k < chain.len() - 1 ==> {
            &&& (#[trigger] chain[k]).timeline <= chain[k + 1].timeline
            &&& chain[k].pos.is_still() == chain[k + 1].pos.is_still()
            &&& !blocks(occupant_of(chain[k]), chain[k + 1], width, duration_marquee, duration_still)
        }
}

/// Of the comments that took one lane without being forced, no two collide,
/// however many came between them.
pub proof fn lemma_chain_is_pairwise_clear(
    chain: Seq<Comment>,
    width: u32,
    duration_marquee: u64,
    duration_still: u64,
    i: int,
    j: int,
)
    requires
        is_clear_chain(chain, width, duration_marquee, duration_still),
        0 <= i < j < chain.len(),
    ensures
        chain[i].timeline <= chain[j].timeline,
        chain[i].pos.is_still() == chain[j].pos.is_still(),
        !blocks(occupant_of(chain[i]), chain[j], width, duration_marquee, duration_still),
    decreases j - i,
{
    assert(chain[j - 1].timeline <= chain[j - 1 + 1].timeline);
    if i < j - 1 {
        lemma_chain_is_pairwise_clear(chain, width, duration_marquee, duration_still, i, j - 1);
        lemma_clear_of_last_is_clear_of_earlier(
            occupant_of(chain[i]),
            chain[j - 1],
            chain[j],
            width,
            duration_marquee,
            duration_still,
        );
    }
}

/// A comment that was placed, not forced, touches nothing: in every lane
/// that it covers, the comment that was there before is never on screen
/// where it is. Only a forced comment may lie over another, and a comment is
/// forced only where it fits nowhere and `reduced` is not set.
pub proof fn lemma_placed_comment_touches_nothing(
    lanes: Seq<Option<Occupant>>,
    c: Comment,
    width: u32,
    height: u32,
    bottom_reserved: u32,
    duration_marquee: u64,
    duration_still: u64,
    reduced: bool,
    row: usize,
    lane: int,
)
    requires
        is_placement(
            lanes,
            c,
            width,
            height,
            bottom_reserved,
            duration_marquee,
            duration_still,
            reduced,
            Placement::Placed(row),
        ),
        row <= lane < row + c.height,
        lanes[lane] is Some,
        lanes[lane]->0.timeline <= c.timeline,
    ensures
        lane < height - bottom_reserved,
        c.pos.is_still() ==> forall|t: int|
            !(shown_at(lanes[lane]->0.timeline as int, duration_still as int, t)
                && #[trigger] shown_at(c.timeline as int, duration_still as int, t)),
        !c.pos.is_still() ==> forall|t: int|
            c.timeline <= t <= lanes[lane]->0.timeline + duration_marquee ==> #[trigger] apart_at(
                lanes[lane]->0,
                c,
                width as int,
                duration_marquee as int,
                t,
            ),
{
    let a = lanes[lane]->0;
    assert(!lane_blocked(lanes[lane], c, width, duration_marquee, duration_still));
    if c.pos.is_still() {
        lemma_still_clear_iff_disjoint(a, c, width, duration_marquee, duration_still);
    } else {
        lemma_moving_clear_iff_apart(a, c, width, duration_marquee, duration_still);
    }
}

} // verus!
