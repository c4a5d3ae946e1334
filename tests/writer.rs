use ach_vga::{
    _print, ACHCharacter, ACHColor, ACHColorCode, ACHWriter, BUFFER_HEIGHT, BUFFER_WIDTH,
    PLACEHOLDER,
};

const BOTTOM: usize = BUFFER_HEIGHT - 1;

fn writer() -> ACHWriter {
    ACHWriter::new(ACHColor::Yellow, ACHColor::Black)
}

fn row_text(w: &ACHWriter, row: usize) -> Vec<u8> {
    (0..BUFFER_WIDTH).map(|c| w.cell(row, c).ascii).collect()
}

fn padded(s: &str) -> Vec<u8> {
    let mut v = s.as_bytes().to_vec();
    v.resize(BUFFER_WIDTH, b' ');
    v
}

fn blank_row() -> Vec<u8> {
    vec![b' '; BUFFER_WIDTH]
}

#[test]
fn color_code_packs_background_high() {
    assert_eq!(ACHColorCode::new(ACHColor::Yellow, ACHColor::Black), ACHColorCode(0x0e));
    assert_eq!(ACHColorCode::new(ACHColor::White, ACHColor::Blue), ACHColorCode(0x1f));
    assert_eq!(ACHColorCode::new(ACHColor::Black, ACHColor::White), ACHColorCode(0xf0));
    assert_eq!(ACHColorCode::new(ACHColor::Pink, ACHColor::Cyan), ACHColorCode(0x3d));
}

#[test]
fn color_values() {
    assert_eq!(ACHColor::Black.value(), 0);
    assert_eq!(ACHColor::LightGray.value(), 7);
    assert_eq!(ACHColor::Yellow.value(), 14);
    assert_eq!(ACHColor::White.value(), 15);
}

#[test]
fn new_writer_is_blank() {
    let w = writer();
    assert_eq!(w.column(), 0);
    assert_eq!(w.color(), ACHColorCode(0x0e));
    for r in 0..BUFFER_HEIGHT {
        for c in 0..BUFFER_WIDTH {
            assert_eq!(w.cell(r, c), ACHCharacter { ascii: b' ', color: ACHColorCode(0x0e) });
        }
    }
}

#[test]
fn printable_byte_is_stored_at_cursor() {
    for b in 0x20u8..=0x7e {
        let mut w = writer();
        w.write_string("abc");
        let s = [b];
        w.write_string(std::str::from_utf8(&s).unwrap());
        assert_eq!(w.cell(BOTTOM, 3), ACHCharacter { ascii: b, color: w.color() });
        assert_eq!(w.column(), 4);
    }
}

#[test]
fn unprintable_bytes_become_placeholder() {
    let mut w = writer();
    w.write_string("\x07\t\x7f");
    assert_eq!(w.cell(BOTTOM, 0).ascii, PLACEHOLDER);
    assert_eq!(w.cell(BOTTOM, 1).ascii, PLACEHOLDER);
    assert_eq!(w.cell(BOTTOM, 2).ascii, PLACEHOLDER);
    assert_eq!(w.column(), 3);
}

#[test]
fn multibyte_character_gives_one_placeholder_per_byte() {
    let mut w = writer();
    w.write_string("a\u{e9}b");
    assert_eq!(w.cell(BOTTOM, 0).ascii, b'a');
    assert_eq!(w.cell(BOTTOM, 1).ascii, PLACEHOLDER);
    assert_eq!(w.cell(BOTTOM, 2).ascii, PLACEHOLDER);
    assert_eq!(w.cell(BOTTOM, 3).ascii, b'b');
    assert_eq!(w.column(), 4);
}

#[test]
fn write_byte_stores_any_byte_unchanged() {
    let mut w = writer();
    w.write_byte(0x07);
    assert_eq!(w.cell(BOTTOM, 0).ascii, 0x07);
    assert_eq!(w.column(), 1);
}

#[test]
fn full_row_then_one_more_scrolls_once() {
    let mut w = writer();
    let full = "a".repeat(BUFFER_WIDTH);
    w.write_string(&full);
    assert_eq!(w.column(), BUFFER_WIDTH);
    assert_eq!(row_text(&w, BOTTOM), full.as_bytes().to_vec());
    assert_eq!(row_text(&w, BOTTOM - 1), blank_row());
    w.write_string("b");
    assert_eq!(w.column(), 1);
    assert_eq!(row_text(&w, BOTTOM - 1), full.as_bytes().to_vec());
    assert_eq!(row_text(&w, BOTTOM), padded("b"));
    assert_eq!(row_text(&w, BOTTOM - 2), blank_row());
}

#[test]
fn newline_scrolls_at_any_column() {
    let mut w = writer();
    w.write_string("abc\n");
    assert_eq!(w.column(), 0);
    assert_eq!(row_text(&w, BOTTOM - 1), padded("abc"));
    assert_eq!(row_text(&w, BOTTOM), blank_row());
    w.write_string("\n");
    assert_eq!(row_text(&w, BOTTOM - 2), padded("abc"));
    assert_eq!(row_text(&w, BOTTOM - 1), blank_row());
}

#[test]
fn newline_on_full_row_scrolls_once() {
    let mut w = writer();
    let full = "z".repeat(BUFFER_WIDTH);
    w.write_string(&full);
    w.write_string("\n");
    assert_eq!(w.column(), 0);
    assert_eq!(row_text(&w, BOTTOM - 1), full.as_bytes().to_vec());
    assert_eq!(row_text(&w, BOTTOM), blank_row());
    assert_eq!(row_text(&w, BOTTOM - 2), blank_row());
}

#[test]
fn history_beyond_window_is_discarded() {
    let mut w = writer();
    w.write_string("old");
    for k in 0..BUFFER_HEIGHT - 1 {
        w.new_line();
        assert_eq!(row_text(&w, BOTTOM - 1 - k), padded("old"));
    }
    assert_eq!(row_text(&w, 0), padded("old"));
    w.new_line();
    for r in 0..BUFFER_HEIGHT {
        assert_eq!(row_text(&w, r), blank_row());
    }
}

#[test]
fn short_line_reads_back_exactly() {
    let mut w = writer();
    let text = "The quick brown fox jumps over the lazy dog 0123456789!?";
    w.write_string(text);
    assert_eq!(w.column(), text.len());
    assert_eq!(row_text(&w, BOTTOM), padded(text));
}

#[test]
fn hello_world_scenario() {
    let mut w = writer();
    w.write_string("Hello, world!\nMy name is Ferris");
    assert_eq!(row_text(&w, BOTTOM), padded("My name is Ferris"));
    assert_eq!(row_text(&w, BOTTOM - 1), padded("Hello, world!"));
    assert_eq!(w.column(), "My name is Ferris".len());
    assert_eq!(w.cell(BOTTOM, 0).color, ACHColorCode(0x0e));
}

#[test]
fn clear_row_blanks_one_row() {
    let mut w = writer();
    w.write_string("keep\nclear");
    w.clear_row(BOTTOM);
    assert_eq!(row_text(&w, BOTTOM), blank_row());
    assert_eq!(row_text(&w, BOTTOM - 1), padded("keep"));
    assert_eq!(w.column(), 5);
}

#[test]
fn print_writes_formatted_text() {
    let mut w = writer();
    _print(&mut w, &format!("{}+{}={}\n{}", 2, 2, 4, "ok"));
    assert_eq!(row_text(&w, BOTTOM - 1), padded("2+2=4"));
    assert_eq!(row_text(&w, BOTTOM), padded("ok"));
    assert_eq!(w.column(), 2);
}
