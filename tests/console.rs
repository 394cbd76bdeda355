use mini_console::keyboard::{
    decode_scancode, parse_command, process_input, Command, KeyboardDriver, LineBuffer,
    INPUT_CAPACITY, SCANCODE_BACKSPACE, SCANCODE_ENTER,
};
use mini_console::pic::{EOI, PIC1_COMMAND};
use mini_console::port::PortWrite;
use mini_console::vga_buffer::{
    Buffer, Color, ColorCode, ScreenChar, Writer, BUFFER_HEIGHT, BUFFER_WIDTH,
};
use volatile::Volatile;

fn white() -> ColorCode {
    ColorCode::new(Color::White, Color::Black)
}

fn fresh_writer() -> Writer {
    let blank = ScreenChar { ascii_character: b' ', color_code: white() };
    let chars: [[Volatile<ScreenChar>; BUFFER_WIDTH]; BUFFER_HEIGHT] =
        core::array::from_fn(|_| core::array::from_fn(|_| Volatile::new(blank)));
    let buffer: &'static mut Buffer = Box::leak(Box::new(Buffer { chars }));
    Writer::new(white(), buffer)
}

fn scancode_of(c: u8) -> u8 {
    match c {
        b'a' => 0x1E,
        b'b' => 0x30,
        b'c' => 0x2E,
        b'd' => 0x20,
        b'e' => 0x12,
        b'f' => 0x21,
        b'g' => 0x22,
        b'h' => 0x23,
        b'i' => 0x17,
        b'j' => 0x24,
        b'k' => 0x25,
        b'l' => 0x26,
        b'm' => 0x32,
        b'n' => 0x31,
        b'o' => 0x18,
        b'p' => 0x19,
        b'q' => 0x10,
        b'r' => 0x13,
        b's' => 0x1F,
        b't' => 0x14,
        b'u' => 0x16,
        b'v' => 0x2F,
        b'w' => 0x11,
        b'x' => 0x2D,
        b'y' => 0x15,
        b'z' => 0x2C,
        b'1' => 0x02,
        b'0' => 0x0B,
        b' ' => 0x39,
        _ => panic!("no scancode for {}", c),
    }
}

fn type_line(kb: &mut KeyboardDriver, w: &mut Writer, text: &str) {
    for &c in text.as_bytes() {
        kb.handle_scancode(scancode_of(c), w);
    }
    kb.handle_scancode(SCANCODE_ENTER, w);
}

fn row_text(w: &Writer, row: usize) -> String {
    let mut s = String::new();
    for col in 0..BUFFER_WIDTH {
        s.push(w.read_char(row, col).ascii_character as char);
    }
    s.trim_end().to_string()
}

#[test]
fn color_code_packs_background_and_foreground() {
    assert_eq!(ColorCode::new(Color::White, Color::Black).0, 0x0F);
    assert_eq!(ColorCode::new(Color::Yellow, Color::Blue).0, 0x1E);
    assert_eq!(ColorCode::new(Color::Black, Color::White).0, 0xF0);
}

#[test]
fn write_string_round_trip() {
    let mut w = fresh_writer();
    let green = ColorCode::new(Color::Green, Color::Black);
    let blank = ScreenChar { ascii_character: b' ', color_code: white() };
    let chars: [[Volatile<ScreenChar>; BUFFER_WIDTH]; BUFFER_HEIGHT] =
        core::array::from_fn(|_| core::array::from_fn(|_| Volatile::new(blank)));
    let mut g = Writer::new(green, Box::leak(Box::new(Buffer { chars })));
    g.write_string("ab\ncd");
    assert_eq!(g.read_char(0, 0), ScreenChar { ascii_character: b'a', color_code: green });
    assert_eq!(g.read_char(0, 1), ScreenChar { ascii_character: b'b', color_code: green });
    assert_eq!(g.read_char(1, 0), ScreenChar { ascii_character: b'c', color_code: green });
    assert_eq!(g.read_char(1, 1), ScreenChar { ascii_character: b'd', color_code: green });
    assert_eq!((g.row_position(), g.column_position()), (1, 2));
    w.write_string("Hi!");
    assert_eq!(row_text(&w, 0), "Hi!");
}

#[test]
fn write_string_substitutes_placeholder() {
    let mut w = fresh_writer();
    w.write_string("a\u{e9}b\tc");
    // the accented letter is two bytes in UTF-8
    assert_eq!(row_text(&w, 0), "a??b?c");
}

#[test]
fn write_byte_wraps_at_width() {
    let mut w = fresh_writer();
    for _ in 0..BUFFER_WIDTH - 1 {
        w.write_byte(b'x');
    }
    assert_eq!((w.row_position(), w.column_position()), (0, 79));
    let r = w.write_byte(b'x');
    // the cursor wraps as soon as the last column is written
    assert_eq!((w.row_position(), w.column_position()), (1, 0));
    assert_eq!(r[1], PortWrite { port: 0x3D5, value: 80 });
    w.write_byte(b'y');
    assert_eq!((w.row_position(), w.column_position()), (1, 1));
    assert_eq!(w.read_char(1, 0).ascii_character, b'y');
}

#[test]
fn last_row_does_not_scroll() {
    let mut w = fresh_writer();
    for _ in 0..40 {
        w.write_byte(b'\n');
    }
    assert_eq!((w.row_position(), w.column_position()), (24, 0));
    w.write_string("end");
    w.write_byte(b'\n');
    w.write_string("up");
    assert_eq!(row_text(&w, 24), "upd");
}

#[test]
fn write_line_ends_with_line_feed() {
    let mut w = fresh_writer();
    w.write_line("abc");
    assert_eq!((w.row_position(), w.column_position()), (1, 0));
    assert_eq!(row_text(&w, 0), "abc");
}

#[test]
fn backspace_erases_and_wraps_back() {
    let mut w = fresh_writer();
    w.write_string("ab");
    w.backspace_on_vga();
    assert_eq!((w.row_position(), w.column_position()), (0, 1));
    assert_eq!(row_text(&w, 0), "a");
    w.write_byte(b'\n');
    w.backspace_on_vga();
    assert_eq!((w.row_position(), w.column_position()), (0, 79));
}

#[test]
fn clear_screen_blanks_everything() {
    let mut w = fresh_writer();
    w.write_line("some text");
    w.write_string("more");
    w.clear_screen();
    assert_eq!((w.row_position(), w.column_position()), (0, 0));
    for row in 0..BUFFER_HEIGHT {
        for col in 0..BUFFER_WIDTH {
            assert_eq!(w.read_char(row, col), ScreenChar { ascii_character: b' ', color_code: white() });
        }
    }
}

#[test]
fn cursor_writes_split_offset() {
    let mut w = fresh_writer();
    for _ in 0..4 {
        w.write_byte(b'\n');
    }
    w.write_string("abcdef");
    // offset 4 * 80 + 6 = 326 = 0x0146
    assert_eq!(
        w.cursor_writes(),
        vec![
            PortWrite { port: 0x3D4, value: 0x0F },
            PortWrite { port: 0x3D5, value: 0x46 },
            PortWrite { port: 0x3D4, value: 0x0E },
            PortWrite { port: 0x3D5, value: 0x01 },
        ]
    );
}

#[test]
fn decode_scancodes() {
    assert_eq!(decode_scancode(0x1E), Some(b'a'));
    assert_eq!(decode_scancode(0x2C), Some(b'z'));
    assert_eq!(decode_scancode(0x0B), Some(b'0'));
    assert_eq!(decode_scancode(0x39), Some(b' '));
    assert_eq!(decode_scancode(0x1C), None);
    assert_eq!(decode_scancode(0x7F), None);
    for s in 0..=255u8 {
        assert_eq!(decode_scancode(s), decode_scancode(s));
    }
}

#[test]
fn line_buffer_push_pop() {
    let mut b = LineBuffer::new();
    assert!(!b.pop());
    assert_eq!(b.len(), 0);
    for i in 0..INPUT_CAPACITY {
        assert!(b.push(b'a' + (i % 26) as u8));
    }
    assert!(!b.push(b'z'));
    assert_eq!(b.len(), INPUT_CAPACITY);
    assert!(b.pop());
    assert_eq!(b.len(), INPUT_CAPACITY - 1);
    b.clear();
    assert_eq!(b.contents(), Vec::<u8>::new());
}

#[test]
fn parse_commands() {
    assert_eq!(parse_command(b"hola"), Command::Greet);
    assert_eq!(parse_command(b"clear"), Command::Clear);
    assert_eq!(parse_command(b"echo hi"), Command::Echo);
    assert_eq!(parse_command(b"echo "), Command::Echo);
    assert_eq!(parse_command(b"echo"), Command::Unrecognized);
    assert_eq!(parse_command(b"holas"), Command::Unrecognized);
    assert_eq!(parse_command(b""), Command::Unrecognized);
}

#[test]
fn process_input_echo_empty_rest() {
    let mut w = fresh_writer();
    process_input(b"echo ", &mut w);
    assert_eq!(row_text(&w, 0), "");
    assert_eq!(row_text(&w, 1), ">");
    assert_eq!((w.row_position(), w.column_position()), (1, 2));
}

#[test]
fn scenario_hola() {
    let mut w = fresh_writer();
    let mut kb = KeyboardDriver::new();
    type_line(&mut kb, &mut w, "hola");
    assert_eq!(row_text(&w, 0), "hola");
    assert_eq!(row_text(&w, 1), "> Hola dev!");
    assert_eq!(row_text(&w, 2), ">");
    assert_eq!(w.read_char(2, 1).ascii_character, b' ');
    assert_eq!((w.row_position(), w.column_position()), (2, 2));
    assert_eq!(kb.line(), Vec::<u8>::new());
}

#[test]
fn scenario_echo() {
    let mut w = fresh_writer();
    let mut kb = KeyboardDriver::new();
    type_line(&mut kb, &mut w, "echo test");
    assert_eq!(row_text(&w, 0), "echo test");
    assert_eq!(row_text(&w, 1), "test");
    assert_eq!(row_text(&w, 2), ">");
    assert_eq!((w.row_position(), w.column_position()), (2, 2));
}

#[test]
fn scenario_unrecognized() {
    let mut w = fresh_writer();
    let mut kb = KeyboardDriver::new();
    type_line(&mut kb, &mut w, "xyz");
    assert_eq!(row_text(&w, 0), "xyz");
    assert_eq!(row_text(&w, 1), "> Comando no reconocido");
    assert_eq!(row_text(&w, 2), ">");
    assert_eq!((w.row_position(), w.column_position()), (2, 2));
}

#[test]
fn scenario_clear() {
    let mut w = fresh_writer();
    let mut kb = KeyboardDriver::new();
    type_line(&mut kb, &mut w, "clear");
    assert_eq!(row_text(&w, 0), ">");
    for row in 1..BUFFER_HEIGHT {
        assert_eq!(row_text(&w, row), "");
    }
    assert_eq!((w.row_position(), w.column_position()), (0, 2));
}

#[test]
fn scenario_overlong_line() {
    let mut w = fresh_writer();
    let mut kb = KeyboardDriver::new();
    let letters = b"abcdefghijklmnopqrstuvwxyz";
    let mut typed = Vec::new();
    for i in 0..130 {
        let c = letters[i % 26];
        typed.push(c);
        kb.handle_scancode(scancode_of(c), &mut w);
    }
    let line = kb.line();
    assert_eq!(line.len(), 128);
    assert_eq!(line[..], typed[..128]);
    // only the accepted keys were echoed: 128 cells, so the cursor is at (1, 48)
    assert_eq!((w.row_position(), w.column_position()), (1, 48));
}

#[test]
fn backspace_on_empty_line_is_noop() {
    let mut w = fresh_writer();
    let mut kb = KeyboardDriver::new();
    w.write_string("> ");
    let r = kb.handle_scancode(SCANCODE_BACKSPACE, &mut w);
    assert_eq!(r, vec![PortWrite { port: PIC1_COMMAND, value: EOI }]);
    assert_eq!(kb.line(), Vec::<u8>::new());
    assert_eq!((w.row_position(), w.column_position()), (0, 2));
    assert_eq!(row_text(&w, 0), ">");
}

#[test]
fn full_line_ignores_keys() {
    let mut w = fresh_writer();
    let mut kb = KeyboardDriver::new();
    for _ in 0..INPUT_CAPACITY {
        kb.handle_scancode(scancode_of(b'a'), &mut w);
    }
    let r = kb.handle_scancode(scancode_of(b'b'), &mut w);
    assert_eq!(r, vec![PortWrite { port: PIC1_COMMAND, value: EOI }]);
    assert_eq!(kb.line(), vec![b'a'; INPUT_CAPACITY]);
    assert_eq!((w.row_position(), w.column_position()), (1, 48));
}

#[test]
fn typed_key_moves_hardware_cursor() {
    let mut w = fresh_writer();
    let mut kb = KeyboardDriver::new();
    let r = kb.handle_scancode(scancode_of(b'a'), &mut w);
    assert_eq!(
        r,
        vec![
            PortWrite { port: 0x3D4, value: 0x0F },
            PortWrite { port: 0x3D5, value: 1 },
            PortWrite { port: 0x3D4, value: 0x0E },
            PortWrite { port: 0x3D5, value: 0 },
            PortWrite { port: PIC1_COMMAND, value: EOI },
        ]
    );
}

#[test]
fn clear_screen_moves_hardware_cursor_home() {
    let mut w = fresh_writer();
    w.write_string("abc");
    let r = w.clear_screen();
    assert_eq!(
        r,
        vec![
            PortWrite { port: 0x3D4, value: 0x0F },
            PortWrite { port: 0x3D5, value: 0 },
            PortWrite { port: 0x3D4, value: 0x0E },
            PortWrite { port: 0x3D5, value: 0 },
        ]
    );
}

#[test]
fn backspace_removes_last_character() {
    let mut w = fresh_writer();
    let mut kb = KeyboardDriver::new();
    kb.handle_scancode(scancode_of(b'a'), &mut w);
    kb.handle_scancode(scancode_of(b'b'), &mut w);
    kb.handle_scancode(SCANCODE_BACKSPACE, &mut w);
    assert_eq!(kb.line(), b"a".to_vec());
    assert_eq!(row_text(&w, 0), "a");
    assert_eq!((w.row_position(), w.column_position()), (0, 1));
}

#[test]
fn release_and_unmapped_keys_only_acknowledge() {
    let mut w = fresh_writer();
    let mut kb = KeyboardDriver::new();
    let r = kb.handle_scancode(0x9E, &mut w);
    assert_eq!(r, vec![PortWrite { port: PIC1_COMMAND, value: EOI }]);
    let r = kb.handle_scancode(0x3B, &mut w);
    assert_eq!(r, vec![PortWrite { port: 0x20, value: 0x20 }]);
    assert_eq!(kb.line(), Vec::<u8>::new());
    assert_eq!((w.row_position(), w.column_position()), (0, 0));
}
