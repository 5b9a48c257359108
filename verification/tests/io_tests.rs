use fanga::arch::keyboard::{KeyCode, KeyEvent, Keyboard};
use fanga::io::console::Console;
use fanga::io::input::InputBuffer;
use fanga::io::keyboard_handler::{complete_line, completion_word, handle_key_event, handle_key_press, KeyAction};
use fanga::io::line_editor::LineEditor;
use fanga::io::logger::{level_from_code, should_log, LogLevel};
use fanga::io::framebuffer::FbOp;
use fanga::io::vt::{VirtualTerminal, VtManager};

#[test]
fn test_insert_char() {
    let mut editor = LineEditor::new();
    editor.init();

    assert!(editor.insert_char('a'));
    assert_eq!(editor.len(), 1);
    assert_eq!(editor.cursor(), 1);
    assert_eq!(editor.get_line(), "a");
}

#[test]
fn test_backspace() {
    let mut editor = LineEditor::new();
    editor.init();

    editor.insert_char('a');
    editor.insert_char('b');
    assert!(editor.backspace());
    assert_eq!(editor.len(), 1);
    assert_eq!(editor.get_line(), "a");
}

#[test]
fn test_cursor_movement() {
    let mut editor = LineEditor::new();
    editor.init();

    editor.insert_char('a');
    editor.insert_char('b');
    editor.insert_char('c');

    assert!(editor.move_left());
    assert_eq!(editor.cursor(), 2);

    assert!(editor.move_left());
    assert_eq!(editor.cursor(), 1);

    assert!(editor.move_right());
    assert_eq!(editor.cursor(), 2);
}

#[test]
fn test_home_end() {
    let mut editor = LineEditor::new();
    editor.init();

    editor.insert_char('a');
    editor.insert_char('b');
    editor.insert_char('c');

    assert!(editor.move_home());
    assert_eq!(editor.cursor(), 0);

    assert!(editor.move_end());
    assert_eq!(editor.cursor(), 3);
}

#[test]
fn line_editor_inserts_at_cursor_and_limits_length() {
    let mut editor = LineEditor::new();
    editor.insert_char('a');
    editor.insert_char('c');
    editor.move_left();
    editor.insert_char('b');
    assert_eq!(editor.get_line(), "abc");
    assert!(editor.delete_char());
    assert_eq!(editor.get_line(), "ab");
    assert!(!editor.delete_char());
    editor.clear();
    for _ in 0..256 {
        assert!(editor.insert_char('x'));
    }
    assert!(!editor.insert_char('y'));
    assert_eq!(editor.len(), 256);
    assert_eq!(editor.buffer().len(), 256);
}

#[test]
fn input_buffer_is_fifo_and_bounded() {
    let mut b = InputBuffer::new();
    assert!(b.is_empty());
    b.push_char('a');
    b.push_char('b');
    assert_eq!(b.pop_char(), Some('a'));
    assert_eq!(b.pop_char(), Some('b'));
    assert_eq!(b.pop_char(), None);
    for _ in 0..1100 {
        b.push_char('z');
    }
    let mut n = 0;
    while b.pop_char().is_some() {
        n += 1;
    }
    assert_eq!(n, 1024);
    b.push_char('q');
    b.clear();
    assert!(b.is_empty());
}

#[test]
fn log_levels() {
    assert_eq!(LogLevel::Warn.as_str(), "WARN");
    assert_eq!(LogLevel::Error.color(), 0xFFFF0000);
    assert!(should_log(LogLevel::Error, LogLevel::Info));
    assert!(!should_log(LogLevel::Debug, LogLevel::Info));
    assert_eq!(level_from_code(2), LogLevel::Warn);
    assert_eq!(level_from_code(9), LogLevel::Info);
}

#[test]
fn console_outputs() {
    let mut c = Console::new();
    assert!(c.serial_enabled() && c.framebuffer_enabled());
    c.set_serial_enabled(false);
    assert!(!c.serial_enabled());
    assert!(c.framebuffer_enabled());
}

fn row_text(vt: &VirtualTerminal, row: usize, cols: usize) -> String {
    vt.screen_buffer()[row * cols..(row + 1) * cols].iter().map(|c| c.0).collect()
}

#[test]
fn virtual_terminal_writes_wraps_and_scrolls() {
    let mut vt = VirtualTerminal::new(0, 4, 2);
    vt.write_str("ab\ncdefg");
    assert_eq!(row_text(&vt, 0, 4), "cdef");
    assert_eq!(row_text(&vt, 1, 4), "g   ");
    assert_eq!(vt.position(), (1, 1));
    vt.write_char('\r');
    assert_eq!(vt.position(), (0, 1));
    vt.set_position(10, 10);
    assert_eq!(vt.position(), (3, 1));
    vt.clear();
    assert_eq!(row_text(&vt, 0, 4), "    ");
    assert_eq!(vt.position(), (0, 0));
}

#[test]
fn virtual_terminal_tab_and_backspace() {
    let mut vt = VirtualTerminal::new(3, 10, 2);
    vt.write_str("ab\t");
    assert_eq!(vt.position(), (6, 0));
    vt.write_char('\x08');
    assert_eq!(vt.position(), (4, 0));
    assert_eq!(vt.id(), 3);
}

#[test]
fn vt_manager_switches_terminals() {
    let mut m = VtManager::new();
    m.init(true, 640, 480, 2560, 8, 16);
    assert_eq!(m.current_id(), 0);
    assert!(m.terminal(0).unwrap().is_active());
    assert!(m.switch_to(3));
    assert_eq!(m.current_id(), 3);
    assert!(!m.terminal(0).unwrap().is_active());
    assert!(m.terminal(3).unwrap().is_active());
    assert!(!m.switch_to(12));
    assert_eq!(m.current_id(), 3);
    let t = m.current_terminal().unwrap();
    assert_eq!(t.id(), 3);
    assert!(m.terminal(12).is_none());
}

#[test]
fn key_handler_edits_line_and_reports_actions() {
    let mut kbd = Keyboard::new();
    let mut editor = LineEditor::new();
    assert_eq!(handle_key_press(KeyCode::Char('h'), &kbd, &mut editor), KeyAction::Redraw);
    assert_eq!(handle_key_press(KeyCode::Char('i'), &kbd, &mut editor), KeyAction::Redraw);
    assert_eq!(editor.get_line(), "hi");
    assert_eq!(handle_key_press(KeyCode::Left, &kbd, &mut editor), KeyAction::MoveCursor);
    assert_eq!(handle_key_press(KeyCode::Backspace, &kbd, &mut editor), KeyAction::Redraw);
    assert_eq!(editor.get_line(), "i");
    assert_eq!(handle_key_press(KeyCode::Home, &kbd, &mut editor), KeyAction::Nothing);
    assert_eq!(handle_key_press(KeyCode::Enter, &kbd, &mut editor), KeyAction::Submit);
    assert_eq!(handle_key_event(KeyEvent::Release(KeyCode::Char('x')), &kbd, &mut editor), KeyAction::Nothing);
    kbd.process_scancode(0x38);
    assert_eq!(handle_key_press(KeyCode::F3, &kbd, &mut editor), KeyAction::SwitchTerminal(2));
    kbd.process_scancode(0xB8);
    kbd.process_scancode(0x1D);
    assert_eq!(handle_key_press(KeyCode::Char('c'), &kbd, &mut editor), KeyAction::Interrupt);
    assert_eq!(editor.len(), 0);
    assert_eq!(handle_key_press(KeyCode::Char('d'), &kbd, &mut editor), KeyAction::EndOfInput);
}

#[test]
fn vt_render_current_draws_visible_cells_and_cursor() {
    let mut m = VtManager::new();
    // 3 columns by 2 rows of 8x16 characters
    m.init(true, 24, 32, 96, 8, 16);
    assert_eq!(m.dims(), (3, 2));
    m.current_terminal().unwrap().write_str("ab\nc");
    let ops = m.render_current();
    assert_eq!(
        ops,
        vec![
            FbOp::Fill { color: 0xFF000000 },
            FbOp::Draw { ch: 'a', col: 0, row: 0, fg: 0xFFFFFFFF, bg: 0xFF000000 },
            FbOp::Draw { ch: 'b', col: 1, row: 0, fg: 0xFFFFFFFF, bg: 0xFF000000 },
            FbOp::Draw { ch: 'c', col: 0, row: 1, fg: 0xFFFFFFFF, bg: 0xFF000000 },
            FbOp::Draw { ch: ' ', col: 1, row: 1, fg: 0xFFFFFFFF, bg: 0xFFFFFFFF },
        ]
    );

    let mut unmapped = VtManager::new();
    unmapped.init(false, 24, 32, 96, 8, 16);
    assert!(unmapped.render_current().is_empty());
}

#[test]
fn completion_word_trims_and_refuses_arguments() {
    let line: Vec<char> = "  he \t".chars().collect();
    assert_eq!(completion_word(&line), Some(vec!['h', 'e']));
    let with_args: Vec<char> = " echo hi ".chars().collect();
    assert_eq!(completion_word(&with_args), None);
    let blank: Vec<char> = "   ".chars().collect();
    assert_eq!(completion_word(&blank), Some(Vec::new()));
    let nbsp: Vec<char> = "\u{a0}ls\u{3000}".chars().collect();
    assert_eq!(completion_word(&nbsp), Some(vec!['l', 's']));
}

#[test]
fn complete_line_replaces_on_single_match() {
    let mut editor = LineEditor::new();
    for ch in "he".chars() {
        editor.insert_char(ch);
    }
    let help: Vec<char> = "help".chars().collect();
    assert!(complete_line(&mut editor, Some(&help)));
    assert_eq!(editor.get_line(), "help");
    assert_eq!(editor.cursor(), 4);
    assert!(!complete_line(&mut editor, None));
    assert_eq!(editor.get_line(), "help");
}

#[test]
fn replace_line_keeps_what_fits() {
    let mut editor = LineEditor::new();
    editor.insert_char('x');
    let long: Vec<char> = std::iter::repeat('a').take(300).collect();
    editor.replace_line(&long);
    assert_eq!(editor.len(), 256);
    assert_eq!(editor.cursor(), 256);
    let short: Vec<char> = "ls -l".chars().collect();
    editor.replace_line(&short);
    assert_eq!(editor.get_line(), "ls -l");
    assert_eq!(editor.cursor(), 5);
}
