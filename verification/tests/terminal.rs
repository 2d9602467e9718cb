use kernel_core::terminal::{Color, Cursor, Vga};

const COLORS: [Color; 16] = [
    Color::Black,
    Color::Blue,
    Color::Green,
    Color::Cyan,
    Color::Red,
    Color::Magenta,
    Color::Brown,
    Color::LightGrey,
    Color::DarkGrey,
    Color::LightBlue,
    Color::LightGreen,
    Color::LightCyan,
    Color::LightRed,
    Color::LightMagenta,
    Color::LightBrown,
    Color::White,
];

#[test]
fn test_new_vga() {
    let v = Vga::new();

    assert!(v.x() == 0);
    assert!(v.y() == 0);

    let expected_color = Color::Black.to_background() | Color::White.to_foreground();
    assert!(v.color() == expected_color);
}

#[test]
fn write_cell_and_read_back_every_position() {
    let mut v = Vga::new();
    v.set_foreground_color(Color::Green);
    v.set_background_color(Color::Blue);
    let attr = v.color();
    for row in 0..25u8 {
        for col in 0..80u8 {
            let ch = (1 + (row as u16 * 80 + col as u16) % 255) as u8;
            assert!(v.write_char_at(row, col, ch).is_ok());
            let cell = v.cell_at(row, col);
            assert_eq!((cell & 0xFF) as u8, ch);
            assert_eq!((cell >> 8) as u8, attr);
        }
    }
}

#[test]
fn write_out_of_bounds_is_rejected_and_harmless() {
    let mut v = Vga::new();
    assert!(v.write_char_at(0, 0, b'a').is_ok());
    assert!(v.write_char_at(25, 0, b'x').is_err());
    assert!(v.write_char_at(0, 80, b'x').is_err());
    assert!(v.write_char_at(255, 255, b'x').is_err());
    assert_eq!(v.x(), 0);
    assert_eq!(v.y(), 0);
    assert_eq!(v.cell_at(0, 0) & 0xFF, b'a' as u16);
}

#[test]
fn eighty_advances_reach_start_of_second_row() {
    let mut v = Vga::new();
    for _ in 0..80 {
        v.inc_cursor();
    }
    assert_eq!(v.x(), 0);
    assert_eq!(v.y(), 1);
    assert_eq!(v.cursor_position(), 80);
}

#[test]
fn two_thousand_advances_wrap_to_origin() {
    let mut v = Vga::new();
    for _ in 0..2000 {
        v.inc_cursor();
    }
    assert_eq!(v.x(), 0);
    assert_eq!(v.y(), 0);
    assert_eq!(v.cursor_position(), 0);
}

#[test]
fn retreat_at_origin_is_a_no_op() {
    let mut v = Vga::new();
    v.dec_cursor();
    assert_eq!(v.x(), 0);
    assert_eq!(v.y(), 0);
    assert_eq!(v.cursor_position(), 0);
}

#[test]
fn retreat_from_column_zero_lands_after_previous_row_content() {
    let mut v = Vga::new();
    for col in 0..6u8 {
        assert!(v.write_char_at(3, col, b'h').is_ok());
    }
    for _ in 0..4 {
        v.new_line();
    }
    assert_eq!(v.x(), 0);
    assert_eq!(v.y(), 4);
    v.dec_cursor();
    assert_eq!(v.x(), 5);
    assert_eq!(v.y(), 3);
    assert_eq!(v.cursor_position(), 3 * 80 + 5);
}

#[test]
fn retreat_onto_blank_row_lands_at_column_zero() {
    let mut v = Vga::new();
    v.new_line();
    assert_eq!(v.y(), 1);
    v.dec_cursor();
    assert_eq!(v.x(), 0);
    assert_eq!(v.y(), 0);
}

#[test]
fn write_bytes_halts_at_zero_byte() {
    let mut v = Vga::new();
    v.write_u8_arr(&[b'a', b'b', b'c', 0, b'd', b'e']);
    assert_eq!(v.x(), 3);
    assert_eq!(v.y(), 0);
    assert_eq!(v.cell_at(0, 0) & 0xFF, b'a' as u16);
    assert_eq!(v.cell_at(0, 1) & 0xFF, b'b' as u16);
    assert_eq!(v.cell_at(0, 2) & 0xFF, b'c' as u16);
    assert_eq!(v.cell_at(0, 3) & 0xFF, 0);
    assert_eq!(v.cell_at(0, 4) & 0xFF, 0);
}

#[test]
fn write_bytes_without_zero_writes_everything() {
    let mut v = Vga::new();
    v.write_u8_arr(&[b'h', b'i']);
    assert_eq!(v.x(), 2);
    assert_eq!(v.cell_at(0, 0) & 0xFF, b'h' as u16);
    assert_eq!(v.cell_at(0, 1) & 0xFF, b'i' as u16);
}

#[test]
fn write_char_advances_and_wraps_at_row_end() {
    let mut v = Vga::new();
    for i in 0..80u16 {
        v.write_char(b'a' + (i % 26) as u8);
    }
    assert_eq!(v.x(), 0);
    assert_eq!(v.y(), 1);
    assert_eq!(v.cell_at(0, 79) & 0xFF, (b'a' + 79 % 26) as u16);
}

#[test]
fn delete_char_blanks_the_previous_cell() {
    let mut v = Vga::new();
    v.write_char(b'a');
    v.write_char(b'b');
    v.delete_char();
    assert_eq!(v.x(), 1);
    assert_eq!(v.y(), 0);
    assert_eq!(v.cell_at(0, 1) & 0xFF, 0);
    assert_eq!(v.cell_at(0, 0) & 0xFF, b'a' as u16);
}

#[test]
fn clear_screen_blanks_cells_and_keeps_position() {
    let mut v = Vga::new();
    v.write_u8_arr(&[b'x', b'y', b'z']);
    v.new_line();
    v.write_char(b'w');
    let x = v.x();
    let y = v.y();
    let attr = v.color();
    v.clear_screen();
    assert_eq!(v.x(), x);
    assert_eq!(v.y(), y);
    for row in 0..25u8 {
        for col in 0..80u8 {
            let cell = v.cell_at(row, col);
            assert_eq!(cell & 0xFF, 0);
            assert_eq!((cell >> 8) as u8, attr);
        }
    }
}

#[test]
fn new_line_reaches_column_zero_of_next_row() {
    let mut v = Vga::new();
    v.write_u8_arr(&[b'a', b'b', b'c']);
    v.new_line();
    assert_eq!(v.x(), 0);
    assert_eq!(v.y(), 1);
    assert_eq!(v.cursor_position(), 80);
}

#[test]
fn new_line_wraps_past_bottom_row() {
    let mut v = Vga::new();
    for expected_row in 1..25u8 {
        v.new_line();
        assert_eq!(v.y(), expected_row);
    }
    v.new_line();
    assert_eq!(v.x(), 0);
    assert_eq!(v.y(), 0);
}

#[test]
fn foreground_and_background_nibbles_are_independent() {
    for &f in COLORS.iter() {
        for &b in COLORS.iter() {
            let mut v = Vga::new();
            v.set_foreground_color(f);
            v.set_background_color(b);
            assert_eq!(v.color() & 0x0F, f.to_foreground());
            assert_eq!(v.color() >> 4, b.to_foreground());

            let mut w = Vga::new();
            w.set_background_color(b);
            w.set_foreground_color(f);
            assert_eq!(w.color(), v.color());
        }
    }
}

#[test]
fn color_conversions_match_the_palette() {
    assert_eq!(Color::Black.to_foreground(), 0);
    assert_eq!(Color::White.to_foreground(), 15);
    assert_eq!(Color::LightBrown.to_foreground(), 14);
    assert_eq!(Color::Black.to_background(), 0);
    assert_eq!(Color::Blue.to_background(), 0x10);
    assert_eq!(Color::White.to_background(), 0xF0);
}

#[test]
fn default_driver_matches_fresh_driver() {
    let v = Vga::default();
    assert_eq!(v.x(), 0);
    assert_eq!(v.y(), 0);
    assert_eq!(v.color(), 0x0F);
    assert_eq!(v.cursor_position(), 0);
    assert_eq!(v.cell_at(12, 40), 0);
}

#[test]
fn cursor_protocol_bytes_follow_the_position() {
    let mut c = Cursor::new();
    c.update(5, 3);
    let (low, high) = c.position_bytes();
    assert_eq!(low, 245);
    assert_eq!(high, 0);

    c.update(79, 24);
    let (low, high) = c.position_bytes();
    assert_eq!(low, 0xCF);
    assert_eq!(high, 0x07);

    c.update(80, 0);
    c.update(0, 25);
    let (low, high) = c.position_bytes();
    assert_eq!(low, 0xCF);
    assert_eq!(high, 0x07);
}

#[test]
fn written_attribute_follows_color_changes() {
    let mut v = Vga::new();
    v.write_char(b'a');
    v.set_foreground_color(Color::Red);
    v.write_char(b'b');
    assert_eq!((v.cell_at(0, 0) >> 8) as u8, 0x0F);
    assert_eq!((v.cell_at(0, 1) >> 8) as u8, 0x04);
}
