use bhiera::{Element, Geometry, View};
use std::collections::VecDeque;

fn sample() -> Geometry {
    Geometry::new(10, 20, 18, 90)
}

fn label(text: &str, x: i32, y: i32, fg: (u8, u8, u8)) -> Element {
    Element::Byte { text: text.to_string(), x, y, fg }
}

fn row_zero() -> Vec<u8> {
    let mut bytes = vec![0x41, 0x0A];
    bytes.extend(2..16u8);
    bytes
}

#[test]
fn element_constructors_fill_the_variants() {
    assert_eq!(
        Element::byte("7F".to_string(), 1, 2, (3, 4, 5)),
        Element::Byte { text: "7F".to_string(), x: 1, y: 2, fg: (3, 4, 5) }
    );
    assert_eq!(
        Element::rectangle(-1, 2, 3, 4, (5, 6, 7)),
        Element::Rectangle { x: -1, y: 2, width: 3, height: 4, bg: (5, 6, 7) }
    );
    assert_eq!(
        Element::line(1, 2, 3, 4, (5, 6, 7), 8),
        Element::Line { from_x: 1, from_y: 2, to_x: 3, to_y: 4, color: (5, 6, 7), width: 8 }
    );
}

#[test]
fn backgrounds_span_the_viewport_height() {
    let g = sample();
    assert_eq!(
        g.bg(40),
        Element::Rectangle { x: 0, y: 0, width: 728, height: 40, bg: (255, 255, 255) }
    );
    assert_eq!(
        g.offset_view_bg(40),
        Element::Rectangle { x: 0, y: 0, width: 90, height: 40, bg: (224, 224, 224) }
    );
    assert_eq!(
        g.bg(i32::MAX as u32),
        Element::Rectangle { x: 0, y: 0, width: 728, height: i32::MAX, bg: (255, 255, 255) }
    );
}

#[test]
fn offsets_label_each_row_that_holds_a_byte() {
    let g = sample();
    let grey = (117, 117, 117);
    assert!(g.offsets(0, 0).is_empty());
    assert_eq!(
        g.offsets(0, 1).into_iter().collect::<Vec<_>>(),
        vec![label("00000000", 0, 0, grey)]
    );
    assert_eq!(
        g.offsets(0, 16).into_iter().collect::<Vec<_>>(),
        vec![label("00000000", 0, 0, grey)]
    );
    assert_eq!(
        g.offsets(0, 17).into_iter().collect::<Vec<_>>(),
        vec![label("00000000", 0, 0, grey), label("00000010", 0, 20, grey)]
    );
    assert_eq!(
        g.offsets(0x1234_5670, 33).into_iter().collect::<Vec<_>>(),
        vec![
            label("12345670", 0, 0, grey),
            label("12345680", 0, 20, grey),
            label("12345690", 0, 40, grey),
        ]
    );
}

#[test]
fn offsets_beyond_eight_digits_grow() {
    let g = sample();
    if usize::BITS >= 64 {
        let far = 0xF_FFFF_FFF0u64 as usize;
        assert_eq!(
            g.offsets(far, 32).into_iter().collect::<Vec<_>>(),
            vec![
                label("FFFFFFFF0", 0, 0, (117, 117, 117)),
                label("1000000000", 0, 20, (117, 117, 117)),
            ]
        );
    }
}

#[test]
fn text_has_hex_labels_then_character_labels() {
    let g = sample();
    let black = (0, 0, 0);
    assert!(g.text(&[]).is_empty());
    assert_eq!(
        g.text(&[0x41, 0x0A]).into_iter().collect::<Vec<_>>(),
        vec![
            label("41", 90, 0, black),
            label("0A", 118, 0, black),
            label("A", 558, 0, black),
            label(".", 568, 0, black),
        ]
    );
}

#[test]
fn text_places_each_byte_in_its_cells() {
    let g = sample();
    let bytes: Vec<u8> = (0..=40u8).map(|b| b.wrapping_mul(7)).collect();
    let labels: Vec<Element> = g.text(&bytes).into_iter().collect();
    assert_eq!(labels.len(), 82);
    for (i, b) in bytes.iter().enumerate() {
        let hex = g.hex_coordinate(i);
        let chr = g.char_coordinate(i);
        let glyph = if b.is_ascii_graphic() { *b as char } else { '.' };
        assert_eq!(labels[i], label(&format!("{:02X}", b), hex.0 as i32, hex.1 as i32, (0, 0, 0)));
        assert_eq!(
            labels[41 + i],
            label(&glyph.to_string(), chr.0 as i32, chr.1 as i32, (0, 0, 0))
        );
    }
}

#[test]
fn text_does_not_fill_up_a_short_last_row() {
    let g = sample();
    assert_eq!(g.text(&[0u8; 17]).len(), 34);
    assert_eq!(g.text(&[0u8; 31]).len(), 62);
    assert_eq!(g.offsets(0, 31).len(), 2);
}

#[test]
fn view_keeps_elements_and_cursors_in_order() {
    let mut elements = VecDeque::new();
    elements.push_back(Element::rectangle(0, 0, 1, 1, (1, 1, 1)));
    elements.push_back(Element::byte("A".to_string(), 2, 3, (0, 0, 0)));
    let view = View::new(elements, vec![(1, 2, 3, 4), (5, 6, 7, 8)]);
    assert_eq!(
        view.elements().collect::<Vec<_>>(),
        vec![
            &Element::rectangle(0, 0, 1, 1, (1, 1, 1)),
            &Element::byte("A".to_string(), 2, 3, (0, 0, 0)),
        ]
    );
    assert_eq!(view.cursors().copied().collect::<Vec<_>>(), vec![(1, 2, 3, 4), (5, 6, 7, 8)]);
}

#[test]
fn render_of_two_rows() {
    let g = sample();
    let mut bytes = row_zero();
    bytes.extend(16..32u8);
    let view = g.render(0, 40, 0, 0, &bytes);
    let elements: Vec<&Element> = view.elements().collect();
    assert_eq!(elements.len(), 2 + 2 + 32 + 32);
    assert_eq!(elements[0], &g.bg(40));
    assert_eq!(elements[1], &g.offset_view_bg(40));
    assert_eq!(elements[2], &label("00000000", 0, 0, (117, 117, 117)));
    assert_eq!(elements[3], &label("00000010", 0, 20, (117, 117, 117)));
    // hex labels of row 0
    assert_eq!(elements[4], &label("41", 90, 0, (0, 0, 0)));
    assert_eq!(elements[5], &label("0A", 118, 0, (0, 0, 0)));
    for i in 0..16usize {
        match elements[4 + i] {
            Element::Byte { text, x, y, .. } => {
                assert_eq!(text, &format!("{:02X}", bytes[i]));
                assert_eq!((*x as u32, *y as u32), (g.hex_coordinate(i).0, 0));
            }
            other => panic!("not a label: {other:?}"),
        }
    }
    // character labels of row 0
    assert_eq!(elements[36], &label("A", 558, 0, (0, 0, 0)));
    assert_eq!(elements[37], &label(".", 568, 0, (0, 0, 0)));
    for i in 0..16usize {
        match elements[36 + i] {
            Element::Byte { x, y, .. } => {
                assert_eq!((*x as u32, *y as u32), (g.char_coordinate(i).0, 0));
            }
            other => panic!("not a label: {other:?}"),
        }
    }
    assert_eq!(view.cursors().copied().collect::<Vec<_>>(), vec![(90, 0, 2, 20), (558, 0, 2, 20)]);
}

#[test]
fn render_puts_the_selection_between_backgrounds_and_labels() {
    let g = sample();
    let bytes = row_zero();
    let view = g.render(0, 40, 2, 5, &bytes);
    let elements: Vec<&Element> = view.elements().collect();
    assert_eq!(elements.len(), 2 + 2 + 1 + 16 + 16);
    assert_eq!(elements[0], &g.bg(40));
    assert_eq!(elements[1], &g.offset_view_bg(40));
    assert_eq!(elements[2], &Element::rectangle(146, 0, 74, 20, (0, 220, 220)));
    assert_eq!(elements[3], &Element::rectangle(578, 0, 30, 20, (0, 220, 220)));
    assert_eq!(elements[4], &label("00000000", 0, 0, (117, 117, 117)));
    assert_eq!(elements[5], &label("41", 90, 0, (0, 0, 0)));
    assert_eq!(view.cursors().copied().collect::<Vec<_>>(), vec![(230, 0, 2, 20), (608, 0, 2, 20)]);
}

#[test]
fn render_without_bytes_has_backgrounds_only() {
    let g = sample();
    let view = g.render(0, 40, 0, 0, &[]);
    assert_eq!(view.elements().collect::<Vec<_>>(), vec![&g.bg(40), &g.offset_view_bg(40)]);
    assert_eq!(view.cursors().count(), 2);
}

#[test]
fn render_labels_offsets_from_the_first_visible_byte() {
    let g = sample();
    let view = g.render(41, 40, 0, 0, &[1, 2, 3]);
    let elements: Vec<&Element> = view.elements().collect();
    assert_eq!(elements[2], &label("00000030", 0, 0, (117, 117, 117)));
    assert_eq!(elements[3], &label("01", 90, 0, (0, 0, 0)));
    assert_eq!(view.cursors().count(), 0);
}
