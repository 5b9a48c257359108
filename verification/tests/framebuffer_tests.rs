use fanga::io::framebuffer::{FbOp, FramebufferWriter};

fn screen() -> (FramebufferWriter, Vec<FbOp>) {
    let mut fb = FramebufferWriter::new();
    // 80x25 characters of 8x16 pixels
    let ops = fb.init(true, 640, 400, 2560, 32, 8, 16);
    (fb, ops)
}

#[test]
fn fb_new_is_uninitialized() {
    let fb = FramebufferWriter::new();
    assert!(!fb.is_initialized());
    assert_eq!(fb.get_col(), 0);
    assert_eq!(fb.get_row(), 0);
    assert_eq!(fb.fg_color, 0xFFFFFFFF);
    assert_eq!(fb.bg_color, 0xFF000000);
}

#[test]
fn fb_init_clears_screen() {
    let (fb, ops) = screen();
    assert!(fb.is_initialized());
    assert_eq!(ops, vec![FbOp::Fill { color: 0xFF000000 }]);
}

#[test]
fn fb_init_without_32_bpp_draws_nothing() {
    let mut fb = FramebufferWriter::new();
    let ops = fb.init(true, 640, 400, 1920, 24, 8, 16);
    assert!(ops.is_empty());
    let mut fb2 = FramebufferWriter::new();
    let ops2 = fb2.init(false, 640, 400, 2560, 32, 8, 16);
    assert!(ops2.is_empty());
    assert!(!fb2.is_initialized());
}

#[test]
fn fb_write_char_draws_and_advances() {
    let (mut fb, _) = screen();
    let ops = fb.write_byte(b'A');
    assert_eq!(ops, vec![FbOp::Draw { ch: 'A', col: 0, row: 0, fg: 0xFFFFFFFF, bg: 0xFF000000 }]);
    assert_eq!(fb.get_col(), 1);
    assert_eq!(fb.get_row(), 0);
}

#[test]
fn fb_newline_and_carriage_return() {
    let (mut fb, _) = screen();
    fb.write_string("ab");
    assert!(fb.write_byte(b'\n').is_empty());
    assert_eq!((fb.get_col(), fb.get_row()), (0, 1));
    fb.write_string("xyz");
    assert!(fb.write_byte(b'\r').is_empty());
    assert_eq!((fb.get_col(), fb.get_row()), (0, 1));
}

#[test]
fn fb_tab_writes_four_spaces() {
    let (mut fb, _) = screen();
    let ops = fb.write_byte(b'\t');
    assert_eq!(ops.len(), 4);
    assert_eq!(ops[3], FbOp::Draw { ch: ' ', col: 3, row: 0, fg: 0xFFFFFFFF, bg: 0xFF000000 });
    assert_eq!(fb.get_col(), 4);
}

#[test]
fn fb_backspace_blanks_previous_cell() {
    let (mut fb, _) = screen();
    fb.write_string("hi");
    let ops = fb.write_byte(0x08);
    assert_eq!(ops, vec![FbOp::Draw { ch: ' ', col: 1, row: 0, fg: 0xFFFFFFFF, bg: 0xFF000000 }]);
    assert_eq!(fb.get_col(), 1);
    fb.set_position(0, 0);
    assert!(fb.write_byte(0x08).is_empty());
    assert_eq!(fb.get_col(), 0);
}

#[test]
fn fb_wraps_at_end_of_line() {
    let (mut fb, _) = screen();
    fb.set_position(80, 3);
    let ops = fb.write_byte(b'z');
    assert_eq!(ops, vec![FbOp::Draw { ch: 'z', col: 0, row: 4, fg: 0xFFFFFFFF, bg: 0xFF000000 }]);
    assert_eq!((fb.get_col(), fb.get_row()), (1, 4));
}

#[test]
fn fb_scrolls_at_bottom() {
    let (mut fb, _) = screen();
    fb.set_position(5, 24);
    let ops = fb.write_byte(b'\n');
    assert_eq!(ops, vec![FbOp::ScrollUp]);
    assert_eq!((fb.get_col(), fb.get_row()), (0, 24));
}

#[test]
fn fb_nonprintable_is_ignored() {
    let (mut fb, _) = screen();
    assert!(fb.write_byte(0x07).is_empty());
    assert_eq!(fb.get_col(), 0);
}

#[test]
fn fb_set_position_clamps() {
    let (mut fb, _) = screen();
    fb.set_position(1000, 1000);
    assert_eq!((fb.get_col(), fb.get_row()), (80, 24));
    fb.set_position(7, 9);
    assert_eq!((fb.get_col(), fb.get_row()), (7, 9));
}

#[test]
fn fb_clear_to_eol_keeps_cursor() {
    let (mut fb, _) = screen();
    fb.set_position(77, 2);
    let ops = fb.clear_to_eol();
    assert_eq!(ops.len(), 3);
    assert_eq!(ops[0], FbOp::Draw { ch: ' ', col: 77, row: 2, fg: 0xFFFFFFFF, bg: 0xFF000000 });
    assert_eq!(ops[2], FbOp::Draw { ch: ' ', col: 79, row: 2, fg: 0xFFFFFFFF, bg: 0xFF000000 });
    assert_eq!((fb.get_col(), fb.get_row()), (77, 2));
}

#[test]
fn fb_redraw_line_text_then_blanks() {
    let (mut fb, _) = screen();
    fb.set_position(10, 1);
    let ops = fb.redraw_line(76, &['o', 'k']);
    assert_eq!(
        ops,
        vec![
            FbOp::Draw { ch: 'o', col: 76, row: 1, fg: 0xFFFFFFFF, bg: 0xFF000000 },
            FbOp::Draw { ch: 'k', col: 77, row: 1, fg: 0xFFFFFFFF, bg: 0xFF000000 },
            FbOp::Draw { ch: ' ', col: 78, row: 1, fg: 0xFFFFFFFF, bg: 0xFF000000 },
            FbOp::Draw { ch: ' ', col: 79, row: 1, fg: 0xFFFFFFFF, bg: 0xFF000000 },
        ]
    );
    assert_eq!((fb.get_col(), fb.get_row()), (10, 1));
    let long: Vec<char> = "abcdef".chars().collect();
    assert_eq!(fb.redraw_line(78, &long).len(), 2);
    assert!(fb.redraw_line(80, &long).is_empty());
}

#[test]
fn fb_draw_cursor_swaps_colors() {
    let (mut fb, _) = screen();
    fb.set_fg_color(0xFF00FF00);
    fb.set_bg_color(0xFF0000FF);
    fb.set_position(3, 4);
    let ops = fb.draw_cursor();
    assert_eq!(ops, vec![FbOp::Draw { ch: ' ', col: 3, row: 4, fg: 0xFF0000FF, bg: 0xFF00FF00 }]);
    assert_eq!(fb.fg_color, 0xFF00FF00);
    assert_eq!(fb.bg_color, 0xFF0000FF);
}

#[test]
fn fb_clear_resets_cursor() {
    let (mut fb, _) = screen();
    fb.set_bg_color(0xFF112233);
    fb.write_string("hello\nworld");
    let ops = fb.clear();
    assert_eq!(ops, vec![FbOp::Fill { color: 0xFF112233 }]);
    assert_eq!((fb.get_col(), fb.get_row()), (0, 0));
}
