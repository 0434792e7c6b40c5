use bhiera::Geometry;

fn sample() -> Geometry {
    Geometry::new(10, 20, 18, 90)
}

#[test]
fn try_new_accepts_font_metrics() {
    let g = Geometry::try_new(10, 20, 18, 90).expect("a usable layout");
    assert_eq!(g.width(), 728);
    assert_eq!(g.char_view_width(), 160);
}

#[test]
fn try_new_rejects_zero_cell_width() {
    assert!(Geometry::try_new(0, 20, 18, 90).is_none());
}

#[test]
fn try_new_rejects_zero_cell_height() {
    assert!(Geometry::try_new(10, 0, 18, 90).is_none());
}

#[test]
fn try_new_accepts_zero_hex_and_offset_width() {
    let g = Geometry::try_new(1, 1, 0, 0).expect("a usable layout");
    assert_eq!(g.width(), 16 + 2 + 16 + 1);
}

#[test]
fn try_new_rejects_width_beyond_signed_pixels() {
    assert!(Geometry::try_new(u32::MAX, 1, 0, 0).is_none());
    assert!(Geometry::try_new(1, 1, u32::MAX, 0).is_none());
    assert!(Geometry::try_new(1, 1, 0, u32::MAX).is_none());
    // (1 + hex) * 16 + 19 + offset == i32::MAX exactly
    let hex = (i32::MAX as u32 - 19) / 16 - 1;
    let offset = i32::MAX as u32 - 19 - (1 + hex) * 16;
    let g = Geometry::try_new(1, 1, hex, offset).expect("widest layout");
    assert_eq!(g.width(), i32::MAX as u32);
    assert!(Geometry::try_new(1, 1, hex, offset + 1).is_none());
}

#[test]
fn column_boundaries_are_ordered() {
    let g = sample();
    let hex_start = g.hex_coordinate(0).0;
    let last_hex = g.hex_coordinate(15);
    let hex_end = last_hex.0 + last_hex.2;
    let char_start = g.char_coordinate(0).0;
    let last_char = g.char_coordinate(15);
    let char_end = last_char.0 + last_char.2;
    assert_eq!(hex_start, 90);
    assert_eq!(hex_end, 538);
    assert_eq!(char_start, 558);
    assert_eq!(char_end, 718);
    assert_eq!(g.width(), 728);
    assert!(hex_start < hex_end);
    assert!(hex_end < char_start);
    assert!(char_start < char_end);
    assert!(char_end <= g.width());
}

#[test]
fn content_height_rounds_rows_up() {
    let g = sample();
    assert_eq!(g.height(0), 0);
    assert_eq!(g.height(1), 20);
    assert_eq!(g.height(16), 20);
    assert_eq!(g.height(17), 40);
    assert_eq!(g.height(32), 40);
    assert_eq!(g.height(33), 60);
}

#[test]
fn content_height_of_huge_counts() {
    let g = Geometry::new(1, 1, 1, 1);
    let most = 16 * (u32::MAX as u64);
    if most <= usize::MAX as u64 {
        assert_eq!(g.height(most as usize), u32::MAX);
        assert_eq!(g.height((most - 15) as usize), u32::MAX);
        assert_eq!(g.height((most - 16) as usize), u32::MAX - 1);
    }
}

#[test]
fn first_visible_row_is_the_first_entirely_visible() {
    let g = sample();
    assert_eq!(g.line_index(0), 0);
    assert_eq!(g.line_index(1), 1);
    assert_eq!(g.line_index(19), 1);
    assert_eq!(g.line_index(20), 1);
    assert_eq!(g.line_index(21), 2);
    assert_eq!(g.line_index(40), 2);
    assert_eq!(g.line_index(u32::MAX), 214748365);
}

#[test]
fn byte_offset_is_sixteen_times_the_first_row() {
    let g = sample();
    assert_eq!(g.byte_offset(0), 0);
    assert_eq!(g.byte_offset(1), 16);
    assert_eq!(g.byte_offset(20), 16);
    assert_eq!(g.byte_offset(21), 32);
    assert_eq!(g.byte_offset(400), 320);
}

#[test]
fn line_count_counts_whole_rows() {
    let g = sample();
    assert_eq!(g.line_count(0), 0);
    assert_eq!(g.line_count(15), 0);
    assert_eq!(g.line_count(19), 0);
    assert_eq!(g.line_count(20), 1);
    assert_eq!(g.line_count(39), 1);
    assert_eq!(g.line_count(40), 2);
    assert_eq!(g.line_count(u32::MAX), 214748364);
}

#[test]
fn hex_rectangles_have_a_gap_after_eight_columns() {
    let g = sample();
    assert_eq!(g.hex_coordinate(0), (90, 0, 18, 20));
    assert_eq!(g.hex_coordinate(1), (118, 0, 18, 20));
    assert_eq!(g.hex_coordinate(7), (286, 0, 18, 20));
    assert_eq!(g.hex_coordinate(8), (324, 0, 18, 20));
    assert_eq!(g.hex_coordinate(15), (520, 0, 18, 20));
    assert_eq!(g.hex_coordinate(16), (90, 20, 18, 20));
    assert_eq!(g.hex_coordinate(20), (202, 20, 18, 20));
    assert_eq!(g.hex_coordinate(40), (324, 40, 18, 20));
}

#[test]
fn char_rectangles_are_evenly_spaced() {
    let g = sample();
    assert_eq!(g.char_coordinate(0), (558, 0, 10, 20));
    assert_eq!(g.char_coordinate(1), (568, 0, 10, 20));
    assert_eq!(g.char_coordinate(8), (638, 0, 10, 20));
    assert_eq!(g.char_coordinate(15), (708, 0, 10, 20));
    assert_eq!(g.char_coordinate(16), (558, 20, 10, 20));
    assert_eq!(g.char_coordinate(20), (598, 20, 10, 20));
}

#[test]
fn hex_rectangle_round_trip() {
    let g = sample();
    for i in 0..200usize {
        let (x, y, _, _) = g.hex_coordinate(i);
        assert_eq!(g.coordinate_to_byte(0, x, y), i, "byte {i}");
    }
}

#[test]
fn char_rectangle_round_trip() {
    let g = sample();
    for i in 0..200usize {
        let (x, y, _, _) = g.char_coordinate(i);
        assert_eq!(g.coordinate_to_byte(0, x, y), i, "byte {i}");
    }
}

#[test]
fn char_rectangle_round_trip_with_cell_of_one_pixel() {
    let g = Geometry::new(1, 1, 0, 0);
    for i in 0..64usize {
        let (x, y, _, _) = g.char_coordinate(i);
        assert_eq!(g.coordinate_to_byte(0, x, y), i, "byte {i}");
    }
}

#[test]
fn hex_round_trip_without_hex_width_shifts_second_half() {
    let g = Geometry::new(10, 20, 0, 90);
    for column in 0..8usize {
        let (x, y, _, _) = g.hex_coordinate(column);
        assert_eq!(g.coordinate_to_byte(0, x, y), column);
    }
    for column in 8..15usize {
        let (x, y, _, _) = g.hex_coordinate(column);
        assert_eq!(g.coordinate_to_byte(0, x, y), column + 1);
    }
    let (x, y, _, _) = g.hex_coordinate(15);
    assert_eq!(g.coordinate_to_byte(0, x, y), 15);
}

#[test]
fn hit_test_left_of_hex_column_selects_first_column() {
    let g = sample();
    assert_eq!(g.coordinate_to_byte(0, 0, 0), 0);
    assert_eq!(g.coordinate_to_byte(0, 89, 0), 0);
    assert_eq!(g.coordinate_to_byte(0, 89, 25), 16);
}

#[test]
fn hit_test_inside_hex_column() {
    let g = sample();
    assert_eq!(g.coordinate_to_byte(0, 90, 0), 0);
    assert_eq!(g.coordinate_to_byte(0, 117, 0), 0);
    assert_eq!(g.coordinate_to_byte(0, 118, 0), 1);
    assert_eq!(g.coordinate_to_byte(0, 313, 0), 7);
    assert_eq!(g.coordinate_to_byte(0, 314, 0), 8);
    assert_eq!(g.coordinate_to_byte(0, 537, 0), 15);
    assert_eq!(g.coordinate_to_byte(0, 537, 59), 47);
}

#[test]
fn hit_test_in_the_gutter_goes_to_the_nearer_column() {
    let g = sample();
    assert_eq!(g.coordinate_to_byte(0, 538, 0), 15);
    assert_eq!(g.coordinate_to_byte(0, 547, 0), 15);
    assert_eq!(g.coordinate_to_byte(0, 548, 0), 0);
    assert_eq!(g.coordinate_to_byte(0, 557, 0), 0);
    assert_eq!(g.coordinate_to_byte(0, 562, 0), 0);
}

#[test]
fn hit_test_inside_char_column_rounds_to_nearest_cell() {
    let g = sample();
    assert_eq!(g.coordinate_to_byte(0, 563, 0), 1);
    assert_eq!(g.coordinate_to_byte(0, 572, 0), 1);
    assert_eq!(g.coordinate_to_byte(0, 573, 0), 2);
    assert_eq!(g.coordinate_to_byte(0, 712, 0), 15);
    // The rounding reaches one past the last column near the right edge.
    assert_eq!(g.coordinate_to_byte(0, 713, 0), 16);
    assert_eq!(g.coordinate_to_byte(0, 717, 0), 16);
}

#[test]
fn hit_test_right_of_char_column_clamps_to_last_column() {
    let g = sample();
    assert_eq!(g.coordinate_to_byte(0, 718, 0), 15);
    assert_eq!(g.coordinate_to_byte(0, 728, 0), 15);
    assert_eq!(g.coordinate_to_byte(0, 100_000, 0), 15);
    assert_eq!(g.coordinate_to_byte(0, u32::MAX, 0), 15);
}

#[test]
fn hit_test_adds_the_scroll_offset() {
    let g = sample();
    assert_eq!(g.coordinate_to_byte(20, 90, 0), 16);
    assert_eq!(g.coordinate_to_byte(19, 90, 0), 0);
    assert_eq!(g.coordinate_to_byte(19, 90, 1), 16);
    assert_eq!(g.coordinate_to_byte(100, 118, 45), 7 * 16 + 1);
    assert_eq!(
        g.coordinate_to_byte(u32::MAX, 90, u32::MAX) as u64,
        (2 * (u32::MAX as u64) / 20) * 16
    );
}

#[test]
fn every_pixel_of_a_hex_cell_selects_its_byte() {
    for g in [sample(), Geometry::new(9, 7, 5, 3), Geometry::new(1, 1, 1, 0)] {
        for i in [0usize, 7, 8, 14, 15, 16, 40, 255] {
            let (x, y, w, h) = g.hex_coordinate(i);
            for dx in 0..w {
                for dy in 0..h {
                    assert_eq!(g.coordinate_to_byte(0, x + dx, y + dy), i, "byte {i}");
                }
            }
        }
    }
}

#[test]
fn char_cell_halves_round_to_the_nearest_left_edge() {
    for g in [sample(), Geometry::new(9, 7, 5, 3), Geometry::new(1, 1, 1, 0)] {
        for i in [0usize, 1, 7, 8, 14, 15, 16, 40, 255] {
            let (x, y, w, h) = g.char_coordinate(i);
            for dx in 0..w {
                let expected = if dx < w - w / 2 { i } else { i + 1 };
                for dy in 0..h {
                    assert_eq!(g.coordinate_to_byte(0, x + dx, y + dy), expected, "byte {i}");
                }
            }
        }
    }
}
