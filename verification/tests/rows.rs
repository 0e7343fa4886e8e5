use biliass::{
    find_alternative_row, mark_comment_row, place_comment, test_free_rows, Comment,
    CommentPosition, Occupant, Placement, Rows,
};

fn comment(pos: CommentPosition, timeline: u64, width: u32, height: u32) -> Comment {
    Comment {
        timeline,
        comment: String::from("text"),
        pos,
        color: 0xFFFFFF,
        size: 25,
        height,
        width,
    }
}

fn snapshot(rows: &Rows) -> Vec<Option<Occupant>> {
    let mut all = Vec::new();
    for pos in [
        CommentPosition::Scroll,
        CommentPosition::Bottom,
        CommentPosition::Top,
        CommentPosition::Reversed,
    ] {
        for row in 0..rows.capacity() {
            all.push(rows.occupant(pos, row));
        }
    }
    all
}

#[test]
fn new_rows_are_free() {
    let rows = Rows::new(7);
    assert_eq!(rows.capacity(), 7);
    assert!(snapshot(&rows).iter().all(|lane| lane.is_none()));
    assert_eq!(snapshot(&rows).len(), 28);
    assert_eq!(rows.occupant(CommentPosition::Scroll, 7), None);
    assert_eq!(rows.occupant(CommentPosition::Special, 0), None);
}

#[test]
fn rows_without_lanes() {
    let mut rows = Rows::new(0);
    assert_eq!(rows.capacity(), 0);
    let c = comment(CommentPosition::Scroll, 0, 10, 0);
    assert_eq!(test_free_rows(&rows, &c, 0, 100, 0, 0, 5000, 5000), 0);
    assert_eq!(place_comment(&mut rows, &c, 100, 0, 0, 5000, 5000, true), Placement::Placed(0));
}

#[test]
fn mark_covers_the_height() {
    let mut rows = Rows::new(10);
    let c = comment(CommentPosition::Scroll, 1234, 77, 3);
    mark_comment_row(&mut rows, &c, 4);
    let taken = Some(Occupant { timeline: 1234, width: 77 });
    for row in 0..10 {
        let expected = if (4..7).contains(&row) { taken } else { None };
        assert_eq!(rows.occupant(CommentPosition::Scroll, row), expected);
        assert_eq!(rows.occupant(CommentPosition::Reversed, row), None);
        assert_eq!(rows.occupant(CommentPosition::Top, row), None);
        assert_eq!(rows.occupant(CommentPosition::Bottom, row), None);
    }
}

#[test]
fn mark_stops_at_the_last_lane() {
    let mut rows = Rows::new(5);
    let c = comment(CommentPosition::Top, 10, 50, 4);
    mark_comment_row(&mut rows, &c, 3);
    let taken = Some(Occupant { timeline: 10, width: 50 });
    assert_eq!(rows.occupant(CommentPosition::Top, 2), None);
    assert_eq!(rows.occupant(CommentPosition::Top, 3), taken);
    assert_eq!(rows.occupant(CommentPosition::Top, 4), taken);
    mark_comment_row(&mut rows, &c, 5);
    mark_comment_row(&mut rows, &c, usize::MAX);
    assert_eq!(rows.occupant(CommentPosition::Top, 0), None);
    assert_eq!(rows.capacity(), 5);
}

#[test]
fn mark_replaces_the_earlier_comment() {
    let mut rows = Rows::new(4);
    mark_comment_row(&mut rows, &comment(CommentPosition::Bottom, 10, 50, 4), 0);
    mark_comment_row(&mut rows, &comment(CommentPosition::Bottom, 20, 60, 2), 1);
    let first = Some(Occupant { timeline: 10, width: 50 });
    let second = Some(Occupant { timeline: 20, width: 60 });
    assert_eq!(rows.occupant(CommentPosition::Bottom, 0), first);
    assert_eq!(rows.occupant(CommentPosition::Bottom, 1), second);
    assert_eq!(rows.occupant(CommentPosition::Bottom, 2), second);
    assert_eq!(rows.occupant(CommentPosition::Bottom, 3), first);
}

#[test]
fn free_rows_on_an_empty_canvas() {
    let rows = Rows::new(100);
    let c = comment(CommentPosition::Scroll, 0, 100, 25);
    assert_eq!(test_free_rows(&rows, &c, 0, 1000, 100, 0, 5000, 5000), 25);
    assert_eq!(test_free_rows(&rows, &c, 75, 1000, 100, 0, 5000, 5000), 25);
    assert_eq!(test_free_rows(&rows, &c, 90, 1000, 100, 0, 5000, 5000), 10);
    assert_eq!(test_free_rows(&rows, &c, 100, 1000, 100, 0, 5000, 5000), 0);
    assert_eq!(test_free_rows(&rows, &c, 500, 1000, 100, 0, 5000, 5000), 0);
    assert_eq!(test_free_rows(&rows, &c, 70, 1000, 100, 20, 5000, 5000), 10);
}

#[test]
fn free_rows_stop_at_a_collision() {
    let mut rows = Rows::new(100);
    mark_comment_row(&mut rows, &comment(CommentPosition::Scroll, 0, 200, 5), 10);
    let c = comment(CommentPosition::Scroll, 100, 200, 25);
    assert_eq!(test_free_rows(&rows, &c, 0, 1000, 100, 0, 6000, 5000), 10);
    assert_eq!(test_free_rows(&rows, &c, 3, 1000, 100, 0, 6000, 5000), 7);
    assert_eq!(test_free_rows(&rows, &c, 10, 1000, 100, 0, 6000, 5000), 0);
    assert_eq!(test_free_rows(&rows, &c, 14, 1000, 100, 0, 6000, 5000), 0);
    assert_eq!(test_free_rows(&rows, &c, 15, 1000, 100, 0, 6000, 5000), 25);
}

#[test]
fn moving_comments_of_one_width() {
    // On a canvas of 1000 pixels a comment of 200 pixels needs a sixth of its
    // 6000 ms to come clear of the edge.
    let mut rows = Rows::new(10);
    mark_comment_row(&mut rows, &comment(CommentPosition::Scroll, 0, 200, 10), 0);
    let early = comment(CommentPosition::Scroll, 999, 200, 1);
    let late = comment(CommentPosition::Scroll, 1000, 200, 1);
    assert_eq!(test_free_rows(&rows, &early, 0, 1000, 10, 0, 6000, 5000), 0);
    assert_eq!(test_free_rows(&rows, &late, 0, 1000, 10, 0, 6000, 5000), 1);
}

#[test]
fn a_faster_comment_must_not_catch_up() {
    // A comment as wide as the canvas crosses it in half of its 6000 ms.
    let mut rows = Rows::new(10);
    mark_comment_row(&mut rows, &comment(CommentPosition::Scroll, 0, 200, 10), 0);
    let early = comment(CommentPosition::Scroll, 2999, 1000, 1);
    let late = comment(CommentPosition::Scroll, 3000, 1000, 1);
    assert_eq!(test_free_rows(&rows, &early, 0, 1000, 10, 0, 6000, 5000), 0);
    assert_eq!(test_free_rows(&rows, &late, 0, 1000, 10, 0, 6000, 5000), 1);
}

#[test]
fn a_slower_comment_waits_for_the_tail() {
    let mut rows = Rows::new(10);
    mark_comment_row(&mut rows, &comment(CommentPosition::Reversed, 0, 1000, 10), 0);
    let early = comment(CommentPosition::Reversed, 2999, 10, 1);
    let late = comment(CommentPosition::Reversed, 3000, 10, 1);
    assert_eq!(test_free_rows(&rows, &early, 0, 1000, 10, 0, 6000, 5000), 0);
    assert_eq!(test_free_rows(&rows, &late, 0, 1000, 10, 0, 6000, 5000), 1);
}

#[test]
fn a_comment_out_of_order_is_kept_out() {
    let mut rows = Rows::new(10);
    mark_comment_row(&mut rows, &comment(CommentPosition::Scroll, 5000, 200, 10), 0);
    let before = comment(CommentPosition::Scroll, 0, 200, 1);
    assert_eq!(test_free_rows(&rows, &before, 0, 1000, 10, 0, 6000, 5000), 0);
}

#[test]
fn standing_comments_collide_while_shown() {
    for pos in [CommentPosition::Top, CommentPosition::Bottom] {
        let mut rows = Rows::new(10);
        mark_comment_row(&mut rows, &comment(pos, 1000, 200, 10), 0);
        let early = comment(pos, 4999, 900, 1);
        let late = comment(pos, 5000, 900, 1);
        assert_eq!(test_free_rows(&rows, &early, 0, 1000, 10, 0, 9000, 4000), 0);
        assert_eq!(test_free_rows(&rows, &late, 0, 1000, 10, 0, 9000, 4000), 1);
    }
}

#[test]
fn classes_do_not_share_lanes() {
    let mut rows = Rows::new(10);
    mark_comment_row(&mut rows, &comment(CommentPosition::Top, 0, 200, 10), 0);
    mark_comment_row(&mut rows, &comment(CommentPosition::Bottom, 0, 200, 10), 0);
    for pos in [CommentPosition::Scroll, CommentPosition::Reversed] {
        let c = comment(pos, 0, 200, 10);
        assert_eq!(test_free_rows(&rows, &c, 0, 1000, 10, 0, 6000, 5000), 10);
        assert_eq!(
            place_comment(&mut rows, &c, 1000, 10, 0, 6000, 5000, true),
            Placement::Placed(0)
        );
    }
    let top = comment(CommentPosition::Top, 1, 200, 10);
    assert_eq!(test_free_rows(&rows, &top, 0, 1000, 10, 0, 6000, 5000), 0);
    assert_eq!(
        rows.occupant(CommentPosition::Top, 0),
        Some(Occupant { timeline: 0, width: 200 })
    );
}

#[test]
fn alternative_row_is_the_first_free_one() {
    let mut rows = Rows::new(10);
    mark_comment_row(&mut rows, &comment(CommentPosition::Scroll, 10, 200, 3), 0);
    mark_comment_row(&mut rows, &comment(CommentPosition::Scroll, 5, 200, 3), 4);
    let c = comment(CommentPosition::Scroll, 20, 200, 2);
    assert_eq!(find_alternative_row(&rows, &c, 10, 0), 3);
}

#[test]
fn alternative_row_is_the_earliest_one() {
    let mut rows = Rows::new(10);
    mark_comment_row(&mut rows, &comment(CommentPosition::Scroll, 30, 200, 10), 0);
    mark_comment_row(&mut rows, &comment(CommentPosition::Scroll, 10, 200, 2), 3);
    mark_comment_row(&mut rows, &comment(CommentPosition::Scroll, 10, 100, 1), 6);
    mark_comment_row(&mut rows, &comment(CommentPosition::Scroll, 5, 200, 1), 9);
    let c = comment(CommentPosition::Scroll, 40, 200, 2);
    // Lane 9 holds the earliest comment but leaves no room for two lanes.
    assert_eq!(find_alternative_row(&rows, &c, 10, 0), 3);
    let thin = comment(CommentPosition::Scroll, 40, 200, 0);
    assert_eq!(find_alternative_row(&rows, &thin, 10, 0), 9);
}

#[test]
fn alternative_row_without_room() {
    let mut rows = Rows::new(10);
    mark_comment_row(&mut rows, &comment(CommentPosition::Scroll, 30, 200, 10), 0);
    let c = comment(CommentPosition::Scroll, 40, 200, 10);
    assert_eq!(find_alternative_row(&rows, &c, 10, 0), 0);
    let d = comment(CommentPosition::Scroll, 40, 200, 4);
    assert_eq!(find_alternative_row(&rows, &d, 10, 6), 0);
}

#[test]
fn placement_takes_the_first_fit() {
    let mut rows = Rows::new(100);
    let first = comment(CommentPosition::Scroll, 0, 200, 25);
    let second = comment(CommentPosition::Scroll, 10, 200, 25);
    let third = comment(CommentPosition::Scroll, 20, 200, 30);
    assert_eq!(place_comment(&mut rows, &first, 1000, 100, 0, 6000, 5000, false), Placement::Placed(0));
    assert_eq!(place_comment(&mut rows, &second, 1000, 100, 0, 6000, 5000, false), Placement::Placed(25));
    assert_eq!(place_comment(&mut rows, &third, 1000, 100, 0, 6000, 5000, false), Placement::Placed(50));
    let later = comment(CommentPosition::Scroll, 1010, 200, 30);
    assert_eq!(place_comment(&mut rows, &later, 1000, 100, 0, 6000, 5000, false), Placement::Placed(0));
    assert_eq!(
        rows.occupant(CommentPosition::Scroll, 29),
        Some(Occupant { timeline: 1010, width: 200 })
    );
    assert_eq!(
        rows.occupant(CommentPosition::Scroll, 30),
        Some(Occupant { timeline: 10, width: 200 })
    );
}

#[test]
fn placement_skips_a_gap_that_is_too_small() {
    let mut rows = Rows::new(100);
    mark_comment_row(&mut rows, &comment(CommentPosition::Scroll, 0, 200, 10), 10);
    mark_comment_row(&mut rows, &comment(CommentPosition::Scroll, 0, 200, 10), 40);
    let c = comment(CommentPosition::Scroll, 10, 200, 20);
    assert_eq!(place_comment(&mut rows, &c, 1000, 100, 0, 6000, 5000, true), Placement::Placed(20));
    let d = comment(CommentPosition::Scroll, 20, 200, 20);
    assert_eq!(place_comment(&mut rows, &d, 1000, 100, 0, 6000, 5000, true), Placement::Placed(50));
    let e = comment(CommentPosition::Scroll, 30, 200, 10);
    assert_eq!(place_comment(&mut rows, &e, 1000, 100, 0, 6000, 5000, true), Placement::Placed(0));
}

#[test]
fn placement_respects_the_reserved_margin() {
    let mut rows = Rows::new(100);
    let c = comment(CommentPosition::Scroll, 0, 200, 30);
    assert_eq!(place_comment(&mut rows, &c, 1000, 100, 40, 6000, 5000, true), Placement::Placed(0));
    assert_eq!(place_comment(&mut rows, &c, 1000, 100, 40, 6000, 5000, true), Placement::Placed(30));
    let before = snapshot(&rows);
    assert_eq!(place_comment(&mut rows, &c, 1000, 100, 40, 6000, 5000, true), Placement::Dropped);
    assert_eq!(snapshot(&rows), before);
}

#[test]
fn full_canvas_drops_when_reduced() {
    let mut rows = Rows::new(50);
    let first = comment(CommentPosition::Scroll, 0, 200, 25);
    let second = comment(CommentPosition::Scroll, 100, 200, 25);
    assert_eq!(place_comment(&mut rows, &first, 1000, 50, 0, 6000, 5000, true), Placement::Placed(0));
    assert_eq!(place_comment(&mut rows, &second, 1000, 50, 0, 6000, 5000, true), Placement::Placed(25));
    let before = snapshot(&rows);
    let third = comment(CommentPosition::Scroll, 200, 200, 25);
    assert_eq!(place_comment(&mut rows, &third, 1000, 50, 0, 6000, 5000, true), Placement::Dropped);
    assert_eq!(snapshot(&rows), before);
}

#[test]
fn full_canvas_forces_when_not_reduced() {
    let mut rows = Rows::new(50);
    let first = comment(CommentPosition::Scroll, 0, 200, 20);
    let second = comment(CommentPosition::Scroll, 100, 200, 30);
    assert_eq!(place_comment(&mut rows, &first, 1000, 50, 0, 6000, 5000, false), Placement::Placed(0));
    assert_eq!(place_comment(&mut rows, &second, 1000, 50, 0, 6000, 5000, false), Placement::Placed(20));
    let third = comment(CommentPosition::Scroll, 200, 300, 25);
    assert_eq!(place_comment(&mut rows, &third, 1000, 50, 0, 6000, 5000, false), Placement::Forced(0));
    let forced = Some(Occupant { timeline: 200, width: 300 });
    assert_eq!(rows.occupant(CommentPosition::Scroll, 0), forced);
    assert_eq!(rows.occupant(CommentPosition::Scroll, 24), forced);
    assert_eq!(
        rows.occupant(CommentPosition::Scroll, 25),
        Some(Occupant { timeline: 100, width: 200 })
    );
}
