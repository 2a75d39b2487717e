use vstd::prelude::*;
use crate::screen::{ClearRegion, ScreenBuffer, ScreenModel, blank_row};
use crate::style::{Cell, Color, Style, blank_cell, plain_style};

verus! {

/// At most this many parameters are kept for one control sequence; the
/// first ones are applied and any beyond them are discarded.
pub const MAX_PARAMS: usize = 16;

/// The code point printed in place of a malformed UTF-8 sequence.
pub const REPLACEMENT: char = '\u{FFFD}';

/// Where the decoder stands between two bytes.
#[derive(Clone, Copy, Debug, PartialEq, Eq, Structural)]
pub enum Phase {
    /// Bytes are printed or executed as controls.
    Ground,
    /// An ESC was seen; the next byte designates what follows.
    Escape,
    /// `ESC [` was seen; numeric parameters accumulate up to a final byte.
    Csi,
    /// Inside an OSC, DCS, SOS, PM or APC string, whose payload is discarded.
    Str,
    /// Inside a multi-byte UTF-8 sequence.
    Utf8,
}

/// The abstract state of the decoder.
pub struct ParserModel {
    pub phase: Phase,
    /// Parameters completed by a `;` in the current control sequence.
    pub params: Seq<u16>,
    /// The parameter being accumulated.
    pub current: u16,
    /// Whether a digit or `;` has been seen in the current control sequence.
    pub has_param: bool,
    /// Whether the current control sequence carries a marker or an
    /// intermediate byte, and is to be dropped.
    pub ignored: bool,
    /// The bits of the code point gathered so far in a UTF-8 sequence.
    pub utf8_value: u32,
    /// How many continuation bytes the UTF-8 sequence still needs.
    pub utf8_left: u8,
    /// The smallest code point the UTF-8 sequence may encode (to reject
    /// overlong forms).
    pub utf8_min: u32,
}

impl ParserModel {
    /// The decoder in `phase` with every accumulator cleared.
    pub open spec fn entering(phase: Phase) -> ParserModel {
        ParserModel {
            phase,
            params: Seq::empty(),
            current: 0,
            has_param: false,
            ignored: false,
            utf8_value: 0,
            utf8_left: 0,
            utf8_min: 0,
        }
    }

    pub open spec fn ground() -> ParserModel {
        ParserModel::entering(Phase::Ground)
    }

    /// The bounds the accumulators stay within.
    pub open spec fn wf(self) -> bool {
        &&& self.params.len() <= MAX_PARAMS
        &&& self.utf8_left <= 3
        &&& self.utf8_value < 0x8000
        &&& (self.utf8_left == 2 ==> self.utf8_value < 0x200)
        &&& (self.utf8_left == 3 ==> self.utf8_value < 0x8)
    }

    /// The parameter list handed to the dispatcher at the final byte: the
    /// first `MAX_PARAMS` parameters of the sequence.
    pub open spec fn final_params(self) -> Seq<u16> {
        if self.has_param && self.params.len() < MAX_PARAMS {
            self.params.push(self.current)
        } else {
            self.params
        }
    }
}

/// Whether `v` is a Unicode scalar value.
pub open spec fn is_scalar(v: u32) -> bool {
    v < 0xD800 || (0xE000 <= v && v <= 0x10FFFF)
}

/// The code point of `c`.
pub open spec fn code_of(c: char) -> int {
    c as int
}

/// The character whose code point is `v`.
pub open spec fn char_with_code(v: u32) -> char {
    choose|c: char| #[trigger] code_of(c) == v as int
}

/// The character a completed UTF-8 sequence stands for: the code point if it
/// is a scalar value and not overlong, else the replacement character.
pub open spec fn decoded(v: u32, min: u32) -> char {
    if v >= min && is_scalar(v) { char_with_code(v) } else { REPLACEMENT }
}

/// `v * 10 + d`, saturating at `u16::MAX`.
pub open spec fn push_digit(v: u16, d: u8) -> u16 {
    let n = v * 10 + d;
    if n > 0xFFFF { 0xFFFF } else { n as u16 }
}

/// Parameter `i` with `default` for an absent one.
pub open spec fn param_or(ps: Seq<u16>, i: int, default: u16) -> u16 {
    if 0 <= i < ps.len() { ps[i] } else { default }
}

/// Parameter `i` as a count: absent or zero means 1.
pub open spec fn count_param(ps: Seq<u16>, i: int) -> u16 {
    if 0 <= i < ps.len() && ps[i] != 0 { ps[i] } else { 1 }
}

pub open spec fn basic_color(k: int) -> Color {
    if k == 0 {
        Color::Black
    } else if k == 1 {
        Color::Red
    } else if k == 2 {
        Color::Green
    } else if k == 3 {
        Color::Yellow
    } else if k == 4 {
        Color::Blue
    } else if k == 5 {
        Color::Magenta
    } else if k == 6 {
        Color::Cyan
    } else {
        Color::White
    }
}

pub open spec fn bright_color(k: int) -> Color {
    if k == 0 {
        Color::DarkGray
    } else if k == 1 {
        Color::LightRed
    } else if k == 2 {
        Color::LightGreen
    } else if k == 3 {
        Color::LightYellow
    } else if k == 4 {
        Color::LightBlue
    } else if k == 5 {
        Color::LightMagenta
    } else if k == 6 {
        Color::LightCyan
    } else {
        Color::White
    }
}

/// The style after one SGR code; unknown codes leave it as it is.
pub open spec fn sgr_code(st: Style, n: u16) -> Style {
    if n == 0 {
        plain_style()
    } else if n == 1 {
        Style { bold: true, ..st }
    } else if n == 4 {
        Style { underline: true, ..st }
    } else if 30 <= n <= 37 {
        Style { fg: Some(basic_color(n - 30)), ..st }
    } else if 40 <= n <= 47 {
        Style { bg: Some(basic_color(n - 40)), ..st }
    } else if 90 <= n <= 97 {
        Style { fg: Some(bright_color(n - 90)), ..st }
    } else {
        st
    }
}

/// The codes of `ps` applied left to right.
pub open spec fn sgr_fold(st: Style, ps: Seq<u16>) -> Style
    decreases ps.len(),
{
    if ps.len() == 0 { st } else { sgr_code(sgr_fold(st, ps.drop_last()), ps.last()) }
}

/// An SGR sequence: with no parameter it resets the style.
pub open spec fn sgr(st: Style, ps: Seq<u16>) -> Style {
    if ps.len() == 0 { plain_style() } else { sgr_fold(st, ps) }
}

pub open spec fn erase_region(n: u16) -> Option<ClearRegion> {
    if n == 0 {
        Some(ClearRegion::ToEnd)
    } else if n == 1 {
        Some(ClearRegion::ToCursor)
    } else if n == 2 {
        Some(ClearRegion::All)
    } else {
        None
    }
}

/// The effect of a control sequence with parameters `ps` and final byte `f`.
pub open spec fn csi_action(s: ScreenModel, ps: Seq<u16>, f: u8) -> ScreenModel {
    if f == 0x41 {
        s.moved(0, -count_param(ps, 0))
    } else if f == 0x42 {
        s.moved(0, count_param(ps, 0) as int)
    } else if f == 0x43 {
        s.moved(count_param(ps, 0) as int, 0)
    } else if f == 0x44 {
        s.moved(-count_param(ps, 0), 0)
    } else if f == 0x48 || f == 0x66 {
        s.placed(count_param(ps, 0) - 1, count_param(ps, 1) - 1)
    } else if f == 0x4A {
        match erase_region(param_or(ps, 0, 0)) {
            Some(region) => s.cleared(region),
            None => s,
        }
    } else if f == 0x4B {
        match erase_region(param_or(ps, 0, 0)) {
            Some(region) => s.line_cleared(region),
            None => s,
        }
    } else if f == 0x6D {
        s.with_style(sgr(s.style, ps))
    } else {
        s
    }
}

/// The effect of a single-byte control: LF, CR, TAB and BS act, the others
/// are accepted and do nothing.
pub open spec fn control_action(s: ScreenModel, b: u8) -> ScreenModel {
    if b == 0x0A {
        s.line_feed()
    } else if b == 0x0D {
        s.carriage_return()
    } else if b == 0x09 {
        s.tab()
    } else if b == 0x08 {
        s.backspace()
    } else {
        s
    }
}

/// Whether `b` aborts any sequence in progress (CAN, SUB).
pub open spec fn is_cancel(b: u8) -> bool {
    b == 0x18 || b == 0x1A
}

/// One byte read in the ground phase.
pub open spec fn ground_step(s: ScreenModel, b: u8) -> (ParserModel, ScreenModel) {
    if b == 0x1B {
        (ParserModel::entering(Phase::Escape), s)
    } else if b < 0x20 {
        (ParserModel::ground(), control_action(s, b))
    } else if b < 0x7F {
        (ParserModel::ground(), s.put(b as char))
    } else if b == 0x7F {
        (ParserModel::ground(), s)
    } else if 0xC2 <= b <= 0xDF {
        (ParserModel { utf8_value: (b - 0xC0) as u32, utf8_left: 1, utf8_min: 0x80, ..ParserModel::entering(Phase::Utf8) }, s)
    } else if 0xE0 <= b <= 0xEF {
        (ParserModel { utf8_value: (b - 0xE0) as u32, utf8_left: 2, utf8_min: 0x800, ..ParserModel::entering(Phase::Utf8) }, s)
    } else if 0xF0 <= b <= 0xF4 {
        (ParserModel { utf8_value: (b - 0xF0) as u32, utf8_left: 3, utf8_min: 0x10000, ..ParserModel::entering(Phase::Utf8) }, s)
    } else {
        (ParserModel::ground(), s.put(REPLACEMENT))
    }
}

/// Whether `v` is a C1 control code point (U+0080 to U+009F).
pub open spec fn is_c1_control(v: u32) -> bool {
    0x80 <= v <= 0x9F
}

/// One byte read inside a UTF-8 sequence: a continuation byte extends it, any
/// other byte ends it with a replacement character and is then read afresh.
/// A completed sequence is printed, unless it encodes a C1 control, which
/// like the other controls without an action changes nothing.
pub open spec fn utf8_step(p: ParserModel, s: ScreenModel, b: u8) -> (ParserModel, ScreenModel) {
    if 0x80 <= b <= 0xBF {
        let v = (p.utf8_value * 64 + (b - 0x80)) as u32;
        if p.utf8_left <= 1 && is_c1_control(v) {
            (ParserModel::ground(), s)
        } else if p.utf8_left <= 1 {
            (ParserModel::ground(), s.put(decoded(v, p.utf8_min)))
        } else {
            (ParserModel { utf8_value: v, utf8_left: (p.utf8_left - 1) as u8, ..p }, s)
        }
    } else {
        ground_step(s.put(REPLACEMENT), b)
    }
}

/// One byte read after ESC.
pub open spec fn escape_step(p: ParserModel, s: ScreenModel, b: u8) -> (ParserModel, ScreenModel) {
    if b == 0x5B {
        (ParserModel::entering(Phase::Csi), s)
    } else if b == 0x5D || b == 0x50 || b == 0x58 || b == 0x5E || b == 0x5F {
        (ParserModel::entering(Phase::Str), s)
    } else if b == 0x1B {
        (ParserModel::entering(Phase::Escape), s)
    } else if is_cancel(b) {
        (ParserModel::ground(), s)
    } else if b < 0x20 {
        (p, control_action(s, b))
    } else if (0x20 <= b && b < 0x30) || b == 0x7F {
        (p, s)
    } else {
        (ParserModel::ground(), s)
    }
}

/// One byte read inside a control sequence.
pub open spec fn csi_step(p: ParserModel, s: ScreenModel, b: u8) -> (ParserModel, ScreenModel) {
    if 0x30 <= b <= 0x39 {
        (ParserModel { current: push_digit(p.current, (b - 0x30) as u8), has_param: true, ..p }, s)
    } else if b == 0x3B {
        if p.params.len() < MAX_PARAMS {
            (ParserModel { params: p.params.push(p.current), current: 0, has_param: true, ..p }, s)
        } else {
            (ParserModel { current: 0, has_param: true, ..p }, s)
        }
    } else if 0x20 <= b < 0x40 {
        (ParserModel { ignored: true, ..p }, s)
    } else if 0x40 <= b <= 0x7E {
        (ParserModel::ground(), if p.ignored { s } else { csi_action(s, p.final_params(), b) })
    } else if b == 0x1B {
        (ParserModel::entering(Phase::Escape), s)
    } else if is_cancel(b) {
        (ParserModel::ground(), s)
    } else if b < 0x20 {
        (p, control_action(s, b))
    } else if b == 0x7F {
        (p, s)
    } else {
        (ParserModel::ground(), s)
    }
}

/// One byte read inside a discarded string: BEL ends it, ESC starts the
/// terminator (or a new sequence).
pub open spec fn str_step(p: ParserModel, s: ScreenModel, b: u8) -> (ParserModel, ScreenModel) {
    if b == 0x07 || is_cancel(b) {
        (ParserModel::ground(), s)
    } else if b == 0x1B {
        (ParserModel::entering(Phase::Escape), s)
    } else {
        (p, s)
    }
}

/// The decoder and screen after one byte.
pub open spec fn step(p: ParserModel, s: ScreenModel, b: u8) -> (ParserModel, ScreenModel) {
    match p.phase {
        Phase::Ground => ground_step(s, b),
        Phase::Utf8 => utf8_step(p, s, b),
        Phase::Escape => escape_step(p, s, b),
        Phase::Csi => csi_step(p, s, b),
        Phase::Str => str_step(p, s, b),
    }
}

/// The decoder and screen after `bytes`, read in order.
pub open spec fn run(p: ParserModel, s: ScreenModel, bytes: Seq<u8>) -> (ParserModel, ScreenModel)
    decreases bytes.len(),
{
    if bytes.len() == 0 {
        (p, s)
    } else {
        let prev = run(p, s, bytes.drop_last());
        step(prev.0, prev.1, bytes.last())
    }
}

/// Reading a stream in two chunks, split anywhere, leaves the decoder and
/// the screen exactly as reading it in one piece.
pub proof fn lemma_feed_split(p: ParserModel, s: ScreenModel, a: Seq<u8>, b: Seq<u8>)
    ensures
        run(p, s, a + b) == run(run(p, s, a).0, run(p, s, a).1, b),
    decreases b.len(),
{
    if b.len() == 0 {
        assert(a + b =~= a);
    } else {
        lemma_feed_split(p, s, a, b.drop_last());
        assert((a + b).drop_last() =~= a + b.drop_last());
        assert((a + b).last() == b.last());
    }
}

/// No byte changes the screen's dimensions.
pub proof fn lemma_step_keeps_size(p: ParserModel, s: ScreenModel, b: u8)
    ensures
        step(p, s, b).1.width == s.width,
        step(p, s, b).1.height == s.height,
{
    let s1 = s.put(REPLACEMENT);
    assert(s1.width == s.width && s1.height == s.height);
}

/// No byte stream changes the screen's dimensions.
pub proof fn lemma_run_keeps_size(p: ParserModel, s: ScreenModel, bytes: Seq<u8>)
    ensures
        run(p, s, bytes).1.width == s.width,
        run(p, s, bytes).1.height == s.height,
    decreases bytes.len(),
{
    if bytes.len() > 0 {
        lemma_run_keeps_size(p, s, bytes.drop_last());
        let prev = run(p, s, bytes.drop_last());
        lemma_step_keeps_size(prev.0, prev.1, bytes.last());
    }
}

/// In the ground phase, `k` LF bytes are `k` line feeds.
pub proof fn lemma_newlines_are_line_feeds(s: ScreenModel, k: nat)
    ensures
        run(ParserModel::ground(), s, Seq::new(k, |_i: int| 0x0Au8)) == (ParserModel::ground(), s.line_feeds(k)),
    decreases k,
{
    if k > 0 {
        let bytes = Seq::new(k, |_i: int| 0x0Au8);
        assert(bytes.drop_last() =~= Seq::new((k - 1) as nat, |_i: int| 0x0Au8));
        lemma_newlines_are_line_feeds(s, (k - 1) as nat);
    } else {
        assert(Seq::new(k, |_i: int| 0x0Au8).len() == 0);
    }
}

/// Whether every byte of `l` is printable ASCII.
pub open spec fn printable(l: Seq<u8>) -> bool {
    forall|i: int| 0 <= i < l.len() ==> 0x20 <= #[trigger] l[i] < 0x7F
}

/// `s` after printing `l` from the cursor without reaching the last column.
pub open spec fn printed(s: ScreenModel, l: Seq<u8>) -> ScreenModel {
    ScreenModel {
        grid: s.grid.update(
            s.row as int,
            Seq::new(
                s.width,
                |c: int|
                    if s.col <= c < s.col + l.len() {
                        Cell { ch: l[c - s.col] as char, style: s.style }
                    } else {
                        s.grid[s.row as int][c]
                    },
            ),
        ),
        col: s.col + l.len(),
        ..s
    }
}

/// In the ground phase, printable text that fits before the last column is
/// written at the cursor, which ends just after it.
pub proof fn lemma_print_line(s: ScreenModel, l: Seq<u8>)
    requires
        s.wf(),
        s.height > 0,
        printable(l),
        s.col + l.len() < s.width,
    ensures
        run(ParserModel::ground(), s, l) == (ParserModel::ground(), printed(s, l)),
    decreases l.len(),
{
    if l.len() == 0 {
        assert(printed(s, l).grid =~~= s.grid);
    } else {
        let init = l.drop_last();
        assert(printable(init)) by {
            assert forall|i: int| 0 <= i < init.len() implies 0x20 <= #[trigger] init[i] < 0x7F by {
                assert(init[i] == l[i]);
            }
        }
        lemma_print_line(s, init);
        let mid = printed(s, init);
        let b = l.last();
        assert(b == l[l.len() - 1]);
        assert(0x20 <= b < 0x7F);
        let after = mid.put(b as char);
        assert(after.grid =~~= printed(s, l).grid) by {
            assert forall|c: int| 0 <= c < s.width implies #[trigger] after.grid[s.row as int][c] == printed(
                s,
                l,
            ).grid[s.row as int][c] by {
                if s.col <= c < s.col + init.len() {
                    assert(l[c - s.col] == init[c - s.col]);
                }
            }
            assert(after.grid[s.row as int] =~= printed(s, l).grid[s.row as int]);
        }
    }
}

/// A row of width `w` showing `l` from its first column, blank after it.
pub open spec fn text_row(l: Seq<u8>, w: nat) -> Seq<Cell> {
    Seq::new(w, |c: int| if c < l.len() { Cell { ch: l[c] as char, style: plain_style() } } else { blank_cell() })
}

/// The lines of `ls` joined by CR LF.
pub open spec fn crlf_joined(ls: Seq<Seq<u8>>) -> Seq<u8>
    decreases ls.len(),
{
    if ls.len() == 0 {
        Seq::empty()
    } else if ls.len() == 1 {
        ls[0]
    } else {
        crlf_joined(ls.drop_last()) + seq![0x0Du8, 0x0Au8] + ls.last()
    }
}

/// Every line is printable text shorter than `w`.
pub open spec fn short_printable_lines(ls: Seq<Seq<u8>>, w: nat) -> bool {
    forall|i: int| 0 <= i < ls.len() ==> printable(#[trigger] ls[i]) && ls[i].len() < w
}

/// A `w` x `h` screen after at most `h + 1` such lines were written to it
/// from blank: with `h + 1` lines the first has scrolled away; the others
/// are shown in order from the top, and the cursor ends after the last.
pub open spec fn shown_lines(ls: Seq<Seq<u8>>, w: nat, h: nat) -> ScreenModel {
    let n = ls.len() as int;
    let shift: int = if n > h { 1 } else { 0 };
    ScreenModel {
        width: w,
        height: h,
        grid: Seq::new(h, |r: int| if r + shift < n { text_row(ls[r + shift], w) } else { blank_row(w) }),
        row: (n - 1 - shift) as nat,
        col: ls[n - 1].len(),
        style: plain_style(),
    }
}

/// CR LF in the ground phase is a carriage return then a line feed.
proof fn lemma_crlf(s: ScreenModel)
    ensures
        run(ParserModel::ground(), s, seq![0x0Du8, 0x0Au8]) == (
            ParserModel::ground(),
            s.carriage_return().line_feed(),
        ),
{
    let crlf = seq![0x0Du8, 0x0Au8];
    assert(crlf.drop_last() =~= seq![0x0Du8]);
    assert(seq![0x0Du8].drop_last() =~= Seq::<u8>::empty());
    assert(run(ParserModel::ground(), s, Seq::<u8>::empty()) == (ParserModel::ground(), s));
    assert(seq![0x0Du8].last() == 0x0Du8);
    assert(crlf.last() == 0x0Au8);
    assert(run(ParserModel::ground(), s, seq![0x0Du8]) == (ParserModel::ground(), s.carriage_return()));
}

/// Writing up to `height + 1` short printable lines, separated by CR LF, to
/// a blank screen: once the lines outnumber the rows the first line is
/// discarded, the rest are shown from the top, and the cursor stays on the
/// last row, just after the last line.
pub proof fn lemma_lines_fill_screen(ls: Seq<Seq<u8>>, w: nat, h: nat)
    requires
        1 <= ls.len() <= h + 1,
        h >= 1,
        short_printable_lines(ls, w),
    ensures
        run(ParserModel::ground(), ScreenModel::fresh(w, h), crlf_joined(ls)) == (
            ParserModel::ground(),
            shown_lines(ls, w, h),
        ),
    decreases ls.len(),
{
    let g = ParserModel::ground();
    let f = ScreenModel::fresh(w, h);
    let n = ls.len() as int;
    assert(printable(ls[n - 1]) && ls[n - 1].len() < w);
    if n == 1 {
        assert(f.wf());
        lemma_print_line(f, ls[0]);
        assert(printed(f, ls[0]).grid =~~= shown_lines(ls, w, h).grid) by {
            assert(printed(f, ls[0]).grid[0] =~= text_row(ls[0], w));
        }
    } else {
        let prev = ls.drop_last();
        assert(short_printable_lines(prev, w)) by {
            assert forall|i: int| 0 <= i < prev.len() implies printable(#[trigger] prev[i]) && prev[i].len() < w by {
                assert(prev[i] == ls[i]);
            }
        }
        lemma_lines_fill_screen(prev, w, h);
        let sp = shown_lines(prev, w, h);
        let crlf = seq![0x0Du8, 0x0Au8];
        let last = ls.last();
        assert(last == ls[n - 1]);
        assert(crlf_joined(ls) == crlf_joined(prev) + crlf + last);
        lemma_feed_split(g, f, crlf_joined(prev) + crlf, last);
        lemma_feed_split(g, f, crlf_joined(prev), crlf);
        lemma_crlf(sp);
        let mid = sp.carriage_return().line_feed();
        assert(sp.wf());
        assert(mid.wf());
        assert(mid.col == 0);
        lemma_print_line(mid, last);
        let target = shown_lines(ls, w, h);
        let out = printed(mid, last);
        if n <= h {
            assert(mid.row == n - 1);
            assert(mid.grid == sp.grid);
        } else {
            assert(mid.row == h - 1);
            assert(mid.grid == sp.grid.drop_first().push(blank_row(w)));
        }
        assert(out.grid =~~= target.grid) by {
            assert forall|r: int| 0 <= r < h implies #[trigger] out.grid[r] =~= target.grid[r] by {
                if n > h && r < h - 1 {
                    assert(ls[r + 1] == prev[r + 1]);
                } else if n <= h && r < n - 1 {
                    assert(ls[r] == prev[r]);
                }
            }
        }
    }
}

/// Whether `f` is a final byte that the dispatcher acts on.
pub open spec fn is_known_final(f: u8) -> bool {
    f == 0x41 || f == 0x42 || f == 0x43 || f == 0x44 || f == 0x48 || f == 0x66 || f == 0x4A || f == 0x4B
        || f == 0x6D
}

/// A control sequence ending in an unknown final byte changes nothing on the
/// screen and returns the decoder to the ground phase, where the next
/// printable byte is written normally.
pub proof fn lemma_unknown_final_is_noop(p: ParserModel, s: ScreenModel, f: u8, c: u8)
    requires
        p.phase == Phase::Csi,
        0x40 <= f <= 0x7E,
        !is_known_final(f),
        0x20 <= c < 0x7F,
    ensures
        step(p, s, f) == (ParserModel::ground(), s),
        run(p, s, seq![f, c]) == (ParserModel::ground(), s.put(c as char)),
{
    assert(seq![f, c].drop_last() =~= seq![f]);
    assert(seq![f].drop_last() =~= Seq::<u8>::empty());
    assert(run(p, s, Seq::<u8>::empty()) == (p, s));
    assert(run(p, s, seq![f]) == (ParserModel::ground(), s));
}

/// Relies on `char::from_u32`: `Some` exactly when `v` is a Unicode scalar
/// value, holding the character with that code point.
#[verifier::external_body]
fn char_from_code(v: u32) -> (r: Option<char>)
    ensures
        r is Some <==> is_scalar(v),
        r matches Some(c) ==> code_of(c) == v as int,
{
    char::from_u32(v)
}

fn decode_char(v: u32, min: u32) -> (c: char)
    ensures
        c == decoded(v, min),
{
    if v >= min {
        match char_from_code(v) {
            Some(c) => {
                proof {
                    assert(code_of(c) == v as int);
                    assert(code_of(char_with_code(v)) == v as int);
                }
                c
            },
            None => REPLACEMENT,
        }
    } else {
        REPLACEMENT
    }
}

fn basic_color_of(k: u16) -> (c: Color)
    ensures
        c == basic_color(k as int),
{
    if k == 0 {
        Color::Black
    } else if k == 1 {
        Color::Red
    } else if k == 2 {
        Color::Green
    } else if k == 3 {
        Color::Yellow
    } else if k == 4 {
        Color::Blue
    } else if k == 5 {
        Color::Magenta
    } else if k == 6 {
        Color::Cyan
    } else {
        Color::White
    }
}

fn bright_color_of(k: u16) -> (c: Color)
    ensures
        c == bright_color(k as int),
{
    if k == 0 {
        Color::DarkGray
    } else if k == 1 {
        Color::LightRed
    } else if k == 2 {
        Color::LightGreen
    } else if k == 3 {
        Color::LightYellow
    } else if k == 4 {
        Color::LightBlue
    } else if k == 5 {
        Color::LightMagenta
    } else if k == 6 {
        Color::LightCyan
    } else {
        Color::White
    }
}

/// Applies one SGR code to `st`.
pub fn apply_sgr_code(st: Style, n: u16) -> (r: Style)
    ensures
        r == sgr_code(st, n),
{
    if n == 0 {
        Style::plain()
    } else if n == 1 {
        Style { bold: true, ..st }
    } else if n == 4 {
        Style { underline: true, ..st }
    } else if 30 <= n && n <= 37 {
        Style { fg: Some(basic_color_of(n - 30)), ..st }
    } else if 40 <= n && n <= 47 {
        Style { bg: Some(basic_color_of(n - 40)), ..st }
    } else if 90 <= n && n <= 97 {
        Style { fg: Some(bright_color_of(n - 90)), ..st }
    } else {
        st
    }
}

/// Applies an SGR parameter list to `st`, left to right; an empty list resets.
pub fn apply_sgr(st: Style, ps: &Vec<u16>) -> (r: Style)
    ensures
        r == sgr(st, ps@),
{
    if ps.len() == 0 {
        return Style::plain();
    }
    let mut cur = st;
    let mut i: usize = 0;
    while i < ps.len()
        invariant
            i <= ps@.len(),
            cur == sgr_fold(st, ps@.subrange(0, i as int)),
        decreases ps@.len() - i,
    {
        assert(ps@.subrange(0, i + 1).drop_last() =~= ps@.subrange(0, i as int));
        cur = apply_sgr_code(cur, ps[i]);
        i = i + 1;
    }
    assert(ps@.subrange(0, ps@.len() as int) =~= ps@);
    cur
}

fn count_param_of(ps: &Vec<u16>, i: usize) -> (r: u16)
    ensures
        r == count_param(ps@, i as int),
{
    if i < ps.len() && ps[i] != 0 {
        ps[i]
    } else {
        1
    }
}

fn param_or_of(ps: &Vec<u16>, i: usize, default: u16) -> (r: u16)
    ensures
        r == param_or(ps@, i as int, default),
{
    if i < ps.len() {
        ps[i]
    } else {
        default
    }
}

fn erase_region_of(n: u16) -> (r: Option<ClearRegion>)
    ensures
        r == erase_region(n),
{
    if n == 0 {
        Some(ClearRegion::ToEnd)
    } else if n == 1 {
        Some(ClearRegion::ToCursor)
    } else if n == 2 {
        Some(ClearRegion::All)
    } else {
        None
    }
}

/// Carries out the control sequence with parameters `ps` and final byte `f`;
/// an unknown final byte changes nothing.
pub fn csi_dispatch(screen: &mut ScreenBuffer, ps: &Vec<u16>, f: u8)
    requires
        old(screen).wf(),
    ensures
        final(screen).wf(),
        final(screen)@ == csi_action(old(screen)@, ps@, f),
{
    if f == 0x41 {
        let n = count_param_of(ps, 0);
        screen.move_cursor(0, -(n as i32));
    } else if f == 0x42 {
        let n = count_param_of(ps, 0);
        screen.move_cursor(0, n as i32);
    } else if f == 0x43 {
        let n = count_param_of(ps, 0);
        screen.move_cursor(n as i32, 0);
    } else if f == 0x44 {
        let n = count_param_of(ps, 0);
        screen.move_cursor(-(n as i32), 0);
    } else if f == 0x48 || f == 0x66 {
        let r = count_param_of(ps, 0);
        let c = count_param_of(ps, 1);
        screen.set_cursor(r - 1, c - 1);
    } else if f == 0x4A {
        match erase_region_of(param_or_of(ps, 0, 0)) {
            Some(region) => screen.clear(region),
            None => {},
        }
    } else if f == 0x4B {
        match erase_region_of(param_or_of(ps, 0, 0)) {
            Some(region) => screen.clear_line(region),
            None => {},
        }
    } else if f == 0x6D {
        let st = apply_sgr(screen.current_style(), ps);
        screen.set_style(st);
    }
}

/// Carries out a single-byte control.
pub fn execute(screen: &mut ScreenBuffer, b: u8)
    requires
        old(screen).wf(),
    ensures
        final(screen).wf(),
        final(screen)@ == control_action(old(screen)@, b),
{
    if b == 0x0A {
        screen.line_feed();
    } else if b == 0x0D {
        screen.carriage_return();
    } else if b == 0x09 {
        screen.tab();
    } else if b == 0x08 {
        screen.backspace();
    }
}

/// The byte-stream decoder: a small automaton that classifies each byte as
/// printable, control, escape or control-sequence material and applies it to
/// a screen.
pub struct EscapeInterpreter {
    phase: Phase,
    params: Vec<u16>,
    current: u16,
    has_param: bool,
    ignored: bool,
    utf8_value: u32,
    utf8_left: u8,
    utf8_min: u32,
}

impl View for EscapeInterpreter {
    type V = ParserModel;

    closed spec fn view(&self) -> ParserModel {
        ParserModel {
            phase: self.phase,
            params: self.params@,
            current: self.current,
            has_param: self.has_param,
            ignored: self.ignored,
            utf8_value: self.utf8_value,
            utf8_left: self.utf8_left,
            utf8_min: self.utf8_min,
        }
    }
}

impl EscapeInterpreter {
    pub open spec fn wf(&self) -> bool {
        self@.wf()
    }

    /// A decoder in the ground phase.
    pub fn new() -> (r: EscapeInterpreter)
        ensures
            r.wf(),
            r@ == ParserModel::ground(),
    {
        let r = EscapeInterpreter {
            phase: Phase::Ground,
            params: Vec::new(),
            current: 0,
            has_param: false,
            ignored: false,
            utf8_value: 0,
            utf8_left: 0,
            utf8_min: 0,
        };
        assert(r@.params =~= Seq::<u16>::empty());
        r
    }

    pub fn phase(&self) -> (r: Phase)
        ensures
            r == self@.phase,
    {
        self.phase
    }

    fn enter(&mut self, phase: Phase)
        ensures
            final(self)@ == ParserModel::entering(phase),
    {
        self.phase = phase;
        self.params.clear();
        self.current = 0;
        self.has_param = false;
        self.ignored = false;
        self.utf8_value = 0;
        self.utf8_left = 0;
        self.utf8_min = 0;
        assert(self.params@ =~= Seq::<u16>::empty());
    }

    fn start_utf8(&mut self, value: u32, left: u8, min: u32)
        ensures
            final(self)@ == (ParserModel {
                utf8_value: value,
                utf8_left: left,
                utf8_min: min,
                ..ParserModel::entering(Phase::Utf8)
            }),
    {
        self.enter(Phase::Utf8);
        self.utf8_value = value;
        self.utf8_left = left;
        self.utf8_min = min;
    }

    fn ground_byte(&mut self, screen: &mut ScreenBuffer, b: u8)
        requires
            old(screen).wf(),
        ensures
            final(self).wf(),
            final(screen).wf(),
            (final(self)@, final(screen)@) == ground_step(old(screen)@, b),
    {
        if b == 0x1B {
            self.enter(Phase::Escape);
        } else if b < 0x20 {
            self.enter(Phase::Ground);
            execute(screen, b);
        } else if b < 0x7F {
            self.enter(Phase::Ground);
            screen.put(b as char);
        } else if b == 0x7F {
            self.enter(Phase::Ground);
        } else if 0xC2 <= b && b <= 0xDF {
            self.start_utf8((b - 0xC0) as u32, 1, 0x80);
        } else if 0xE0 <= b && b <= 0xEF {
            self.start_utf8((b - 0xE0) as u32, 2, 0x800);
        } else if 0xF0 <= b && b <= 0xF4 {
            self.start_utf8((b - 0xF0) as u32, 3, 0x10000);
        } else {
            self.enter(Phase::Ground);
            screen.put(REPLACEMENT);
        }
    }

    fn utf8_byte(&mut self, screen: &mut ScreenBuffer, b: u8)
        requires
            old(self).wf(),
            old(self)@.phase == Phase::Utf8,
            old(screen).wf(),
        ensures
            final(self).wf(),
            final(screen).wf(),
            (final(self)@, final(screen)@) == utf8_step(old(self)@, old(screen)@, b),
    {
        if 0x80 <= b && b <= 0xBF {
            let v: u32 = self.utf8_value * 64 + (b - 0x80) as u32;
            if self.utf8_left <= 1 && 0x80 <= v && v <= 0x9F {
                self.enter(Phase::Ground);
            } else if self.utf8_left <= 1 {
                let c = decode_char(v, self.utf8_min);
                self.enter(Phase::Ground);
                screen.put(c);
            } else {
                self.utf8_value = v;
                self.utf8_left = self.utf8_left - 1;
            }
        } else {
            screen.put(REPLACEMENT);
            self.ground_byte(screen, b);
        }
    }

    fn escape_byte(&mut self, screen: &mut ScreenBuffer, b: u8)
        requires
            old(self).wf(),
            old(screen).wf(),
        ensures
            final(self).wf(),
            final(screen).wf(),
            (final(self)@, final(screen)@) == escape_step(old(self)@, old(screen)@, b),
    {
        if b == 0x5B {
            self.enter(Phase::Csi);
        } else if b == 0x5D || b == 0x50 || b == 0x58 || b == 0x5E || b == 0x5F {
            self.enter(Phase::Str);
        } else if b == 0x1B {
            self.enter(Phase::Escape);
        } else if b == 0x18 || b == 0x1A {
            self.enter(Phase::Ground);
        } else if b < 0x20 {
            execute(screen, b);
        } else if (0x20 <= b && b < 0x30) || b == 0x7F {
        } else {
            self.enter(Phase::Ground);
        }
    }

    fn csi_byte(&mut self, screen: &mut ScreenBuffer, b: u8)
        requires
            old(self).wf(),
            old(screen).wf(),
        ensures
            final(self).wf(),
            final(screen).wf(),
            (final(self)@, final(screen)@) == csi_step(old(self)@, old(screen)@, b),
    {
        if 0x30 <= b && b <= 0x39 {
            let n: u32 = (self.current as u32) * 10 + (b - 0x30) as u32;
            self.current = if n > 0xFFFF { 0xFFFF } else { n as u16 };
            self.has_param = true;
        } else if b == 0x3B {
            if self.params.len() < MAX_PARAMS {
                self.params.push(self.current);
            }
            self.current = 0;
            self.has_param = true;
        } else if 0x20 <= b && b < 0x40 {
            self.ignored = true;
        } else if 0x40 <= b && b <= 0x7E {
            if !self.ignored {
                let ghost before = self@;
                let mut ps: Vec<u16> = Vec::new();
                std::mem::swap(&mut ps, &mut self.params);
                if self.has_param && ps.len() < MAX_PARAMS {
                    ps.push(self.current);
                }
                assert(ps@ == before.final_params());
                csi_dispatch(screen, &ps, b);
            }
            self.enter(Phase::Ground);
        } else if b == 0x1B {
            self.enter(Phase::Escape);
        } else if b == 0x18 || b == 0x1A {
            self.enter(Phase::Ground);
        } else if b < 0x20 {
            execute(screen, b);
        } else if b == 0x7F {
        } else {
            self.enter(Phase::Ground);
        }
    }

    fn str_byte(&mut self, screen: &mut ScreenBuffer, b: u8)
        requires
            old(self).wf(),
            old(screen).wf(),
        ensures
            final(self).wf(),
            final(screen).wf(),
            (final(self)@, final(screen)@) == str_step(old(self)@, old(screen)@, b),
    {
        if b == 0x07 || b == 0x18 || b == 0x1A {
            self.enter(Phase::Ground);
        } else if b == 0x1B {
            self.enter(Phase::Escape);
        }
    }

    /// Reads one byte and applies its effect to `screen`.
    pub fn advance(&mut self, screen: &mut ScreenBuffer, b: u8)
        requires
            old(self).wf(),
            old(screen).wf(),
        ensures
            final(self).wf(),
            final(screen).wf(),
            (final(self)@, final(screen)@) == step(old(self)@, old(screen)@, b),
    {
        match self.phase {
            Phase::Ground => self.ground_byte(screen, b),
            Phase::Utf8 => self.utf8_byte(screen, b),
            Phase::Escape => self.escape_byte(screen, b),
            Phase::Csi => self.csi_byte(screen, b),
            Phase::Str => self.str_byte(screen, b),
        }
    }

    /// Reads all of `bytes` in order, applying each to `screen`.
    pub fn feed(&mut self, screen: &mut ScreenBuffer, bytes: &[u8])
        requires
            old(self).wf(),
            old(screen).wf(),
        ensures
            final(self).wf(),
            final(screen).wf(),
            (final(self)@, final(screen)@) == run(old(self)@, old(screen)@, bytes@),
    {
        let ghost p0 = self@;
        let ghost s0 = screen@;
        let mut i: usize = 0;
        assert(bytes@.subrange(0, 0) =~= Seq::<u8>::empty());
        while i < bytes.len()
            invariant
                self.wf(),
                screen.wf(),
                i <= bytes@.len(),
                (self@, screen@) == run(p0, s0, bytes@.subrange(0, i as int)),
            decreases bytes@.len() - i,
        {
            assert(bytes@.subrange(0, i + 1).drop_last() =~= bytes@.subrange(0, i as int));
            self.advance(screen, bytes[i]);
            i = i + 1;
        }
        assert(bytes@.subrange(0, bytes@.len() as int) =~= bytes@);
    }
}

} // verus!
