use sshtui::interp::EscapeInterpreter;
use sshtui::panel::{RawTerminalPanel, Rect};
use sshtui::screen::{ClearRegion, ScreenBuffer};
use sshtui::style::{Cell, Color, Style};

fn fresh(w: u16, h: u16) -> (EscapeInterpreter, ScreenBuffer) {
    (EscapeInterpreter::new(), ScreenBuffer::new(w, h))
}

fn ch(s: &ScreenBuffer, r: u16, c: u16) -> char {
    s.cell(r, c).unwrap().ch
}

fn row_text(s: &ScreenBuffer, r: u16) -> String {
    (0..s.width()).map(|c| ch(s, r, c)).collect()
}

#[test]
fn crlf_moves_to_next_line_start() {
    let (mut p, mut s) = fresh(80, 24);
    p.feed(&mut s, b"A\r\nB");
    assert_eq!(s.cursor(), (1, 1));
    assert_eq!(ch(&s, 0, 0), 'A');
    assert_eq!(ch(&s, 1, 0), 'B');
}

#[test]
fn line_feed_keeps_column() {
    let (mut p, mut s) = fresh(80, 24);
    p.feed(&mut s, b"A\nB");
    assert_eq!(ch(&s, 0, 0), 'A');
    assert_eq!(ch(&s, 1, 1), 'B');
    assert_eq!(s.cursor(), (1, 2));
}

#[test]
fn cursor_position_then_put() {
    let (mut p, mut s) = fresh(80, 24);
    p.feed(&mut s, b"\x1b[5;10H");
    assert_eq!(s.cursor(), (4, 9));
    s.put('X');
    assert_eq!(ch(&s, 4, 9), 'X');
    assert_eq!(s.cursor(), (4, 10));
}

#[test]
fn cursor_position_defaults_and_clamps() {
    let (mut p, mut s) = fresh(10, 5);
    p.feed(&mut s, b"\x1b[3;4H\x1b[H");
    assert_eq!(s.cursor(), (0, 0));
    p.feed(&mut s, b"\x1b[99;99f");
    assert_eq!(s.cursor(), (4, 9));
    p.feed(&mut s, b"\x1b[;5H");
    assert_eq!(s.cursor(), (0, 4));
}

#[test]
fn filling_one_line_more_than_height_scrolls_once() {
    let (mut p, mut s) = fresh(10, 3);
    p.feed(&mut s, b"L0\r\nL1\r\nL2\r\nL3");
    assert_eq!(s.cursor(), (2, 2));
    assert_eq!(row_text(&s, 0), "L1        ");
    assert_eq!(row_text(&s, 1), "L2        ");
    assert_eq!(row_text(&s, 2), "L3        ");
}

#[test]
fn line_feed_on_last_row_keeps_cursor_there() {
    let (mut p, mut s) = fresh(4, 2);
    p.feed(&mut s, b"ab\n\n\n");
    assert_eq!(s.cursor(), (1, 2));
    assert_eq!(row_text(&s, 0), "    ");
    assert_eq!(row_text(&s, 1), "    ");
}

#[test]
fn sgr_colour_then_reset() {
    let (mut p, mut s) = fresh(80, 24);
    p.feed(&mut s, b"\x1b[31mX\x1b[0mY");
    let x = s.cell(0, 0).unwrap();
    let y = s.cell(0, 1).unwrap();
    assert_eq!(x.ch, 'X');
    assert_eq!(x.style.fg, Some(Color::Red));
    assert_eq!(y.ch, 'Y');
    assert_eq!(y.style, Style::plain());
}

#[test]
fn sgr_attributes_and_bright_colours() {
    let (mut p, mut s) = fresh(10, 2);
    p.feed(&mut s, b"\x1b[1;4;44;92mA\x1b[mB\x1b[97;99mC");
    let a = s.cell(0, 0).unwrap().style;
    assert!(a.bold);
    assert!(a.underline);
    assert_eq!(a.bg, Some(Color::Blue));
    assert_eq!(a.fg, Some(Color::LightGreen));
    assert_eq!(s.cell(0, 1).unwrap().style, Style::plain());
    let c = s.cell(0, 2).unwrap().style;
    assert_eq!(c.fg, Some(Color::White));
    assert!(!c.bold);
}

#[test]
fn resize_keeps_top_left_text() {
    let (mut p, mut s) = fresh(20, 5);
    p.feed(&mut s, b"HELLO");
    s.resize(6, 3);
    assert_eq!(s.width(), 6);
    assert_eq!(s.height(), 3);
    assert_eq!(row_text(&s, 0), "HELLO ");
    assert_eq!(s.cursor(), (0, 5));
    s.resize(3, 2);
    assert_eq!(row_text(&s, 0), "HEL");
    assert_eq!(s.cursor(), (0, 2));
    s.resize(8, 2);
    assert_eq!(row_text(&s, 0), "HEL     ");
}

#[test]
fn resize_to_zero_is_legal() {
    let (mut p, mut s) = fresh(5, 5);
    p.feed(&mut s, b"abc");
    s.resize(0, 0);
    assert_eq!(s.cursor(), (0, 0));
    assert!(s.cell(0, 0).is_none());
    p.feed(&mut s, b"xyz\r\n\x1b[2J\x1b[5;5H");
    assert_eq!(s.cursor(), (0, 0));
    assert!(s.snapshot().rows.is_empty());
}

#[test]
fn unknown_final_byte_changes_nothing() {
    let (mut p, mut s) = fresh(10, 4);
    p.feed(&mut s, b"AB");
    let before = s.snapshot();
    p.feed(&mut s, b"\x1b[99;5z");
    let after = s.snapshot();
    assert_eq!(before.rows, after.rows);
    assert_eq!((before.cursor_row, before.cursor_col), (after.cursor_row, after.cursor_col));
    p.feed(&mut s, b"C");
    assert_eq!(row_text(&s, 0), "ABC       ");
}

#[test]
fn private_sequences_are_dropped() {
    let (mut p, mut s) = fresh(10, 4);
    p.feed(&mut s, b"AB\x1b[?25l\x1b[?2JC");
    assert_eq!(row_text(&s, 0), "ABC       ");
}

#[test]
fn osc_payload_is_discarded() {
    let (mut p, mut s) = fresh(10, 2);
    p.feed(&mut s, b"\x1b]0;window title\x07Z\x1b]2;t\x1b\\Q");
    assert_eq!(row_text(&s, 0), "ZQ        ");
}

#[test]
fn chunked_feed_matches_whole_feed() {
    let stream: &[u8] = b"ab\x1b[31mcd\r\n\x1b[2;3Hx\xc3\xa9y\x1b]0;t\x07\x1b[1K\tz\x08w\x1b[0m!";
    let (mut p, mut s) = fresh(12, 4);
    p.feed(&mut s, stream);
    let whole = s.snapshot();
    for split in 0..=stream.len() {
        let (mut p2, mut s2) = fresh(12, 4);
        p2.feed(&mut s2, &stream[..split]);
        p2.feed(&mut s2, &stream[split..]);
        let parts = s2.snapshot();
        assert_eq!(whole.rows, parts.rows, "split at {}", split);
        assert_eq!((whole.cursor_row, whole.cursor_col), (parts.cursor_row, parts.cursor_col));
        assert_eq!(s.current_style(), s2.current_style());
    }
}

#[test]
fn tab_and_backspace() {
    let (mut p, mut s) = fresh(20, 2);
    p.feed(&mut s, b"a\tb");
    assert_eq!(ch(&s, 0, 8), 'b');
    p.feed(&mut s, b"\t\t\t");
    assert_eq!(s.cursor(), (0, 19));
    p.feed(&mut s, b"\x08\x08");
    assert_eq!(s.cursor(), (0, 17));
    assert_eq!(ch(&s, 0, 8), 'b');
    p.feed(&mut s, b"\r\x08");
    assert_eq!(s.cursor(), (0, 0));
}

#[test]
fn relative_moves_clamp() {
    let (mut p, mut s) = fresh(10, 5);
    p.feed(&mut s, b"\x1b[3B\x1b[4C");
    assert_eq!(s.cursor(), (3, 4));
    p.feed(&mut s, b"\x1b[A\x1b[2D");
    assert_eq!(s.cursor(), (2, 2));
    p.feed(&mut s, b"\x1b[50A\x1b[50D");
    assert_eq!(s.cursor(), (0, 0));
    p.feed(&mut s, b"\x1b[50B\x1b[50C");
    assert_eq!(s.cursor(), (4, 9));
    p.feed(&mut s, b"\x1b[0A");
    assert_eq!(s.cursor(), (3, 9));
}

#[test]
fn wrap_at_last_column() {
    let (mut p, mut s) = fresh(3, 2);
    p.feed(&mut s, b"abcd");
    assert_eq!(row_text(&s, 0), "abc");
    assert_eq!(row_text(&s, 1), "d  ");
    assert_eq!(s.cursor(), (1, 1));
    p.feed(&mut s, b"ef");
    assert_eq!(row_text(&s, 0), "def");
    assert_eq!(row_text(&s, 1), "   ");
    assert_eq!(s.cursor(), (1, 0));
}

fn filled(w: u16, h: u16) -> (EscapeInterpreter, ScreenBuffer) {
    let (mut p, mut s) = fresh(w, h);
    for _ in 0..(w as usize * h as usize - 1) {
        p.feed(&mut s, b"#");
    }
    p.feed(&mut s, b"\x1b[2;3H");
    (p, s)
}

#[test]
fn erase_display_regions() {
    let (mut p, mut s) = filled(4, 3);
    p.feed(&mut s, b"\x1b[J");
    assert_eq!(row_text(&s, 0), "####");
    assert_eq!(row_text(&s, 1), "##  ");
    assert_eq!(row_text(&s, 2), "    ");
    assert_eq!(s.cursor(), (1, 2));

    let (mut p, mut s) = filled(4, 3);
    p.feed(&mut s, b"\x1b[1J");
    assert_eq!(row_text(&s, 0), "    ");
    assert_eq!(row_text(&s, 1), "   #");
    assert_eq!(row_text(&s, 2), "### ");

    let (mut p, mut s) = filled(4, 3);
    p.feed(&mut s, b"\x1b[2J");
    for r in 0..3 {
        assert_eq!(row_text(&s, r), "    ");
    }
    assert_eq!(s.cursor(), (1, 2));

    let (mut p, mut s) = filled(4, 3);
    p.feed(&mut s, b"\x1b[3J");
    assert_eq!(row_text(&s, 1), "####");
}

#[test]
fn erase_line_regions() {
    let (mut p, mut s) = filled(4, 3);
    p.feed(&mut s, b"\x1b[K");
    assert_eq!(row_text(&s, 1), "##  ");
    assert_eq!(row_text(&s, 0), "####");

    let (mut p, mut s) = filled(4, 3);
    p.feed(&mut s, b"\x1b[1K");
    assert_eq!(row_text(&s, 1), "   #");

    let (mut p, mut s) = filled(4, 3);
    p.feed(&mut s, b"\x1b[2K");
    assert_eq!(row_text(&s, 1), "    ");
    assert_eq!(row_text(&s, 2), "### ");
    assert_eq!(s.cursor(), (1, 2));
}

#[test]
fn direct_clear_calls() {
    let (_p, mut s) = filled(4, 2);
    s.clear_line(ClearRegion::ToCursor);
    assert_eq!(row_text(&s, 0), "####");
    assert_eq!(row_text(&s, 1), "    ");
    s.clear(ClearRegion::All);
    assert_eq!(row_text(&s, 0), "    ");
    s.scroll_up();
    assert_eq!(s.cursor(), (1, 2));
}

#[test]
fn utf8_is_decoded() {
    let (mut p, mut s) = fresh(10, 2);
    p.feed(&mut s, "é─😀".as_bytes());
    assert_eq!(ch(&s, 0, 0), 'é');
    assert_eq!(ch(&s, 0, 1), '─');
    assert_eq!(ch(&s, 0, 2), '😀');
    assert_eq!(s.cursor(), (0, 3));
}

#[test]
fn utf8_split_across_feeds() {
    let (mut p, mut s) = fresh(10, 2);
    let bytes = "ü".as_bytes();
    p.feed(&mut s, &bytes[..1]);
    assert_eq!(s.cursor(), (0, 0));
    p.feed(&mut s, &bytes[1..]);
    assert_eq!(ch(&s, 0, 0), 'ü');
}

#[test]
fn malformed_utf8_becomes_replacement() {
    let (mut p, mut s) = fresh(10, 2);
    p.feed(&mut s, b"\xffa\xc3b\xe0\x80\x80c\xed\xa0\x80");
    assert_eq!(ch(&s, 0, 0), '\u{FFFD}');
    assert_eq!(ch(&s, 0, 1), 'a');
    assert_eq!(ch(&s, 0, 2), '\u{FFFD}');
    assert_eq!(ch(&s, 0, 3), 'b');
    assert_eq!(ch(&s, 0, 4), '\u{FFFD}');
    assert_eq!(ch(&s, 0, 5), 'c');
    assert_eq!(ch(&s, 0, 6), '\u{FFFD}');
}

#[test]
fn cancel_aborts_sequence() {
    let (mut p, mut s) = fresh(10, 2);
    p.feed(&mut s, b"\x1b[3\x18J\x1b[5\x1a;2H");
    assert_eq!(row_text(&s, 0), "J;2H      ");
}

#[test]
fn controls_inside_sequence_still_act() {
    let (mut p, mut s) = fresh(10, 3);
    p.feed(&mut s, b"ab\x1b[\r2Cx");
    assert_eq!(row_text(&s, 0), "abx       ");
    assert_eq!(s.cursor(), (0, 3));
}

#[test]
fn fresh_screen_is_blank() {
    let s = ScreenBuffer::new(3, 2);
    let snap = s.snapshot();
    assert_eq!(snap.rows.len(), 2);
    assert!(snap.rows.iter().all(|r| r.len() == 3 && r.iter().all(|c| *c == Cell::blank())));
    assert_eq!((snap.cursor_row, snap.cursor_col), (0, 0));
}

#[test]
fn move_and_set_cursor_clamp() {
    let mut s = ScreenBuffer::new(5, 4);
    s.move_cursor(10, -3);
    assert_eq!(s.cursor(), (0, 4));
    s.move_cursor(-2, 2);
    assert_eq!(s.cursor(), (2, 2));
    s.set_cursor(100, 1);
    assert_eq!(s.cursor(), (3, 1));
}

fn bounds(w: u16, h: u16) -> Rect {
    Rect { x: 2, y: 1, width: w, height: h }
}

#[test]
fn panel_uses_inner_size() {
    let mut panel = RawTerminalPanel::new(bounds(12, 6));
    assert_eq!(panel.get_size(), (10, 4));
    assert!(!panel.is_active());
    panel.set_active(true);
    assert!(panel.is_active());
    panel.write_ssh_data(b"\x1b[99;99Hx");
    assert_eq!(panel.screen().cursor(), (3, 0));
    assert_eq!(panel.screen().cell(2, 9).unwrap().ch, 'x');
    assert_eq!(panel.screen().cell(3, 9).unwrap().ch, ' ');
}

#[test]
fn panel_resizes_with_bounds() {
    let mut panel = RawTerminalPanel::new(bounds(12, 6));
    panel.write_ssh_data(b"HELLO");
    panel.set_bounds(bounds(8, 3));
    assert_eq!(panel.get_size(), (6, 1));
    assert_eq!(panel.bounds(), bounds(8, 3));
    let snap = panel.snapshot();
    let text: String = snap.rows[0].iter().map(|c| c.ch).collect();
    assert_eq!(text, "HELLO ");
    panel.set_bounds(bounds(1, 1));
    assert_eq!(panel.get_size(), (0, 0));
    assert!(panel.snapshot().rows.is_empty());
}

#[test]
fn panel_clear_keeps_cursor() {
    let mut panel = RawTerminalPanel::new(bounds(7, 4));
    panel.write_ssh_data(b"abc\r\nde");
    panel.clear();
    let snap = panel.snapshot();
    assert_eq!((snap.cursor_row, snap.cursor_col), (1, 2));
    assert!(snap.rows.iter().all(|r| r.iter().all(|c| *c == Cell::blank())));
}

#[test]
fn utf8_c1_control_is_dropped() {
    let (mut p, mut s) = fresh(10, 2);
    p.feed(&mut s, b"\xc2\x85");
    assert_eq!(s.cursor(), (0, 0));
    assert_eq!(ch(&s, 0, 0), ' ');
    p.feed(&mut s, b"a\xc2\x9fb\xc2\xa0");
    assert_eq!(row_text(&s, 0), "ab\u{a0}       ");
    assert_eq!(s.cursor(), (0, 3));
}

#[test]
fn parameters_beyond_the_limit_are_discarded() {
    let (mut p, mut s) = fresh(10, 2);
    p.feed(&mut s, b"\x1b[1;99;99;99;99;99;99;99;99;99;99;99;99;99;99;31;4mA");
    let st = s.cell(0, 0).unwrap().style;
    assert!(st.bold);
    assert_eq!(st.fg, Some(Color::Red));
    assert!(!st.underline);
    p.feed(&mut s, b"\x1b[0m\x1b[1;2;0;0;0;0;0;0;0;0;0;0;0;0;0;0;7;7HB");
    assert_eq!(ch(&s, 0, 1), 'B');
}
