use bhiera::{Element, Geometry};

const HIGHLIGHT: (u8, u8, u8) = (0, 220, 220);

fn sample() -> Geometry {
    Geometry::new(10, 20, 18, 90)
}

fn rect(x: i32, y: i32, width: i32, height: i32) -> Element {
    Element::Rectangle { x, y, width, height, bg: HIGHLIGHT }
}

fn selected(g: &Geometry, start: u32, height: u32, begin: usize, end: usize) -> Vec<Element> {
    g.selection(start, height, begin, end).into_iter().collect()
}

#[test]
fn empty_selection_has_no_rectangles() {
    let g = sample();
    for at in [0usize, 1, 15, 16, 20, 1000, usize::MAX] {
        assert!(g.selection(0, 40, at, at).is_empty());
        assert!(g.selection(20, 400, at, at).is_empty());
    }
}

#[test]
fn selection_within_one_row_has_one_rectangle_per_column() {
    let g = sample();
    assert_eq!(
        selected(&g, 0, 40, 2, 5),
        vec![rect(146, 0, 74, 20), rect(578, 0, 30, 20)]
    );
}

#[test]
fn selection_ends_may_come_in_either_order() {
    let g = sample();
    assert_eq!(selected(&g, 0, 40, 5, 2), selected(&g, 0, 40, 2, 5));
    assert_eq!(selected(&g, 0, 100, 70, 3), selected(&g, 0, 100, 3, 70));
}

#[test]
fn selection_of_one_byte_covers_its_cells() {
    let g = sample();
    assert_eq!(
        selected(&g, 0, 40, 20, 21),
        vec![rect(202, 20, 18, 20), rect(598, 20, 10, 20)]
    );
}

#[test]
fn selection_across_the_middle_gap_includes_the_gap() {
    let g = sample();
    // bytes 7 and 8: the hex cells are 10 pixels further apart
    assert_eq!(
        selected(&g, 0, 40, 7, 9),
        vec![rect(286, 0, 324 + 18 - 286, 20), rect(628, 0, 20, 20)]
    );
}

#[test]
fn selection_of_a_full_row_spans_the_columns() {
    let g = sample();
    assert_eq!(
        selected(&g, 0, 40, 0, 16),
        vec![rect(90, 0, 448, 20), rect(558, 0, 160, 20)]
    );
}

#[test]
fn selection_over_two_rows_has_two_rectangles_per_column() {
    let g = sample();
    assert_eq!(
        selected(&g, 0, 40, 14, 18),
        vec![
            rect(492, 0, 538 - 492, 20),
            rect(90, 20, 118 + 18 - 90, 20),
            rect(698, 0, 718 - 698, 20),
            rect(558, 20, 568 + 10 - 558, 20),
        ]
    );
}

#[test]
fn selection_over_three_rows_has_three_rectangles_per_column() {
    let g = sample();
    assert_eq!(
        selected(&g, 0, 60, 2, 40),
        vec![
            rect(146, 0, 392, 20),
            rect(90, 20, 448, 20),
            rect(90, 40, 214, 20),
            rect(578, 0, 140, 20),
            rect(558, 20, 160, 20),
            rect(558, 40, 80, 20),
        ]
    );
}

#[test]
fn middle_rectangle_is_as_high_as_the_rows_between() {
    let g = sample();
    for rows in 3..10usize {
        let end = (rows - 1) * 16 + 4;
        let got = selected(&g, 0, 400, 5, end);
        assert_eq!(got.len(), 6);
        let expected = ((rows - 2) * 20) as i32;
        assert_eq!(got[1], rect(90, 20, 448, expected));
        assert_eq!(got[4], rect(558, 20, 160, expected));
        assert_eq!(got[2], rect(90, ((rows - 1) * 20) as i32, 3 * 28 + 18, 20));
    }
}

#[test]
fn selection_is_cut_to_the_viewport() {
    let g = sample();
    // Two rows are visible; the selection goes on behind them.
    assert_eq!(
        selected(&g, 0, 40, 2, 1000),
        vec![
            rect(146, 0, 392, 20),
            rect(90, 20, 448, 20),
            rect(578, 0, 140, 20),
            rect(558, 20, 160, 20),
        ]
    );
    // A viewport lower than one row shows nothing.
    assert!(g.selection(0, 19, 2, 1000).is_empty());
}

#[test]
fn selection_is_relative_to_the_first_visible_row() {
    let g = sample();
    // Scrolled by one row: byte 16 is the first visible one.
    assert_eq!(
        selected(&g, 20, 40, 18, 21),
        vec![rect(146, 0, 74, 20), rect(578, 0, 30, 20)]
    );
    // Scrolled by a part of a row: row 1 is the first that is entirely visible.
    assert_eq!(selected(&g, 1, 40, 18, 21), selected(&g, 20, 40, 18, 21));
    // The selection begins above the viewport.
    assert_eq!(
        selected(&g, 20, 40, 2, 21),
        vec![rect(90, 0, 130, 20), rect(558, 0, 50, 20)]
    );
}

#[test]
fn selection_outside_the_viewport_has_no_rectangles() {
    let g = sample();
    assert!(g.selection(40, 40, 0, 32).is_empty());
    assert!(g.selection(0, 40, 32, 64).is_empty());
    assert!(g.selection(0, 0, 0, 64).is_empty());
}

#[test]
fn cursor_in_a_visible_row_has_two_markers() {
    let g = sample();
    assert_eq!(g.calc_cursor(0, 40, 20), vec![(202, 20, 2, 20), (598, 20, 2, 20)]);
    assert_eq!(g.calc_cursor(0, 40, 0), vec![(90, 0, 2, 20), (558, 0, 2, 20)]);
    assert_eq!(g.calc_cursor(0, 40, 31), vec![(520, 20, 2, 20), (708, 20, 2, 20)]);
}

#[test]
fn cursor_in_a_hidden_row_has_no_marker() {
    let g = sample();
    assert!(g.calc_cursor(0, 15, 20).is_empty());
    assert!(g.calc_cursor(0, 39, 20).is_empty());
    assert!(g.calc_cursor(0, 40, 32).is_empty());
    assert!(g.calc_cursor(40, 40, 20).is_empty());
    assert!(g.calc_cursor(0, 0, 0).is_empty());
    assert!(g.calc_cursor(0, 40, usize::MAX).is_empty());
}

#[test]
fn cursor_is_relative_to_the_first_visible_row() {
    let g = sample();
    assert_eq!(g.calc_cursor(20, 40, 20), vec![(202, 0, 2, 20), (598, 0, 2, 20)]);
    assert_eq!(g.calc_cursor(5, 40, 36), vec![(202, 20, 2, 20), (598, 20, 2, 20)]);
    assert!(g.calc_cursor(21, 40, 20).is_empty());
}

#[test]
fn highlight_stays_within_its_column_and_the_viewport() {
    let g = sample();
    for (start, height, begin, end) in [
        (0u32, 40u32, 2usize, 5usize),
        (0, 40, 2, 1000),
        (0, 100, 15, 17),
        (30, 95, 1, 500),
        (500, 61, 100, 700),
        (0, 400, 31, 32),
    ] {
        let rects = selected(&g, start, height, begin, end);
        assert!(!rects.is_empty());
        let half = rects.len() / 2;
        for (i, r) in rects.iter().enumerate() {
            let (left, right) = if i < half { (90, 538) } else { (558, 718) };
            match r {
                Element::Rectangle { x, y, width, height: h, bg } => {
                    assert!(left <= *x && *width >= 0 && x + width <= right);
                    assert!(0 <= *y && *h > 0 && y + h <= height as i32);
                    assert_eq!(*bg, HIGHLIGHT);
                }
                other => panic!("not a rectangle: {other:?}"),
            }
        }
    }
}
