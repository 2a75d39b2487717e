use vstd::prelude::*;
use crate::style::{Cell, Style, blank_cell, plain_style};

verus! {

/// Which part of the display (or of the cursor's line) an erase touches.
#[derive(Clone, Copy, Debug, PartialEq, Eq, Structural)]
pub enum ClearRegion {
    /// From the cursor (inclusive) to the end.
    ToEnd,
    /// From the start up to the cursor (inclusive).
    ToCursor,
    /// Everything.
    All,
}

/// The abstract state of a screen: its dimensions, the grid of cells
/// (rows of columns), the cursor and the style given to the next character.
pub struct ScreenModel {
    pub width: nat,
    pub height: nat,
    pub grid: Seq<Seq<Cell>>,
    pub row: nat,
    pub col: nat,
    pub style: Style,
}

/// The largest valid index below `n`, or 0 for an empty dimension.
pub open spec fn last_index(n: nat) -> nat {
    if n == 0 { 0 } else { (n - 1) as nat }
}

/// `v` clamped into `[0, last_index(n)]`.
pub open spec fn clamp_to(v: int, n: nat) -> nat {
    if v <= 0 {
        0
    } else if v > last_index(n) {
        last_index(n)
    } else {
        v as nat
    }
}

pub open spec fn blank_row(w: nat) -> Seq<Cell> {
    Seq::new(w, |_c: int| blank_cell())
}

pub open spec fn blank_grid(w: nat, h: nat) -> Seq<Seq<Cell>> {
    Seq::new(h, |_r: int| blank_row(w))
}

impl ScreenModel {
    /// The grid has `height` rows of `width` cells and the cursor lies in it
    /// (at the origin when a dimension is zero).
    pub open spec fn wf(self) -> bool {
        &&& self.grid.len() == self.height
        &&& forall|r: int| 0 <= r < self.height ==> (#[trigger] self.grid[r]).len() == self.width
        &&& self.row <= last_index(self.height)
        &&& self.col <= last_index(self.width)
    }

    /// A blank screen of the given size, cursor at the origin, plain style.
    pub open spec fn fresh(w: nat, h: nat) -> ScreenModel {
        ScreenModel { width: w, height: h, grid: blank_grid(w, h), row: 0, col: 0, style: plain_style() }
    }

    pub open spec fn with_cell(self, r: int, c: int, cell: Cell) -> ScreenModel {
        ScreenModel { grid: self.grid.update(r, self.grid[r].update(c, cell)), ..self }
    }

    /// Row 0 is dropped, the others move up, a blank row enters at the bottom.
    pub open spec fn scrolled(self) -> ScreenModel {
        if self.height == 0 {
            self
        } else {
            ScreenModel { grid: self.grid.drop_first().push(blank_row(self.width)), ..self }
        }
    }

    /// The cursor moves one row down, scrolling when it is on the last row;
    /// the column is kept.
    pub open spec fn line_feed(self) -> ScreenModel {
        if self.row + 1 < self.height {
            ScreenModel { row: self.row + 1, ..self }
        } else {
            self.scrolled()
        }
    }

    /// `ch` is written at the cursor in the current style, and the cursor
    /// advances; past the last column it wraps to column 0 of the next row.
    pub open spec fn put(self, ch: char) -> ScreenModel {
        if self.width == 0 || self.height == 0 {
            self
        } else {
            let w = self.with_cell(self.row as int, self.col as int, Cell { ch, style: self.style });
            if self.col + 1 < self.width {
                ScreenModel { col: self.col + 1, ..w }
            } else {
                ScreenModel { col: 0, ..w }.line_feed()
            }
        }
    }

    /// The screen after `k` line feeds.
    pub open spec fn line_feeds(self, k: nat) -> ScreenModel
        decreases k,
    {
        if k == 0 { self } else { self.line_feeds((k - 1) as nat).line_feed() }
    }

    pub open spec fn carriage_return(self) -> ScreenModel {
        ScreenModel { col: 0, ..self }
    }

    /// The next multiple of 8 to the right of the cursor, clamped to the
    /// last column.
    pub open spec fn tab(self) -> ScreenModel {
        let next = (self.col / 8 + 1) * 8;
        ScreenModel { col: if next > last_index(self.width) { last_index(self.width) } else { next }, ..self }
    }

    /// One column to the left, stopping at column 0; nothing is erased.
    pub open spec fn backspace(self) -> ScreenModel {
        ScreenModel { col: if self.col > 0 { (self.col - 1) as nat } else { 0 }, ..self }
    }

    /// The cursor moved by `dy` rows and `dx` columns, clamped to the grid.
    pub open spec fn moved(self, dx: int, dy: int) -> ScreenModel {
        ScreenModel { row: clamp_to(self.row + dy, self.height), col: clamp_to(self.col + dx, self.width), ..self }
    }

    /// The cursor placed at 0-based `(r, c)`, clamped to the grid.
    pub open spec fn placed(self, r: int, c: int) -> ScreenModel {
        ScreenModel { row: clamp_to(r, self.height), col: clamp_to(c, self.width), ..self }
    }

    pub open spec fn with_style(self, style: Style) -> ScreenModel {
        ScreenModel { style, ..self }
    }

    /// Whether cell `(r, c)` lies in `region` of the display, relative to the cursor.
    pub open spec fn in_display_region(self, region: ClearRegion, r: int, c: int) -> bool {
        match region {
            ClearRegion::ToEnd => r > self.row || (r == self.row && c >= self.col),
            ClearRegion::ToCursor => r < self.row || (r == self.row && c <= self.col),
            ClearRegion::All => true,
        }
    }

    /// Whether cell `(r, c)` lies in `region` of the cursor's line.
    pub open spec fn in_line_region(self, region: ClearRegion, r: int, c: int) -> bool {
        r == self.row && match region {
            ClearRegion::ToEnd => c >= self.col,
            ClearRegion::ToCursor => c <= self.col,
            ClearRegion::All => true,
        }
    }

    /// Every cell for which `f` holds is blank; the others and the cursor are kept.
    pub open spec fn blanked(self, f: spec_fn(int, int) -> bool) -> ScreenModel {
        ScreenModel {
            grid: Seq::new(
                self.grid.len(),
                |r: int| Seq::new(self.grid[r].len(), |c: int| if f(r, c) { blank_cell() } else { self.grid[r][c] }),
            ),
            ..self
        }
    }

    pub open spec fn cleared(self, region: ClearRegion) -> ScreenModel {
        self.blanked(|r: int, c: int| self.in_display_region(region, r, c))
    }

    pub open spec fn line_cleared(self, region: ClearRegion) -> ScreenModel {
        self.blanked(|r: int, c: int| self.in_line_region(region, r, c))
    }

    /// The grid reallocated to `w` x `h`: the overlapping top-left rectangle
    /// is kept, the rest is blank, and the cursor is clamped into the new bounds.
    pub open spec fn resized(self, w: nat, h: nat) -> ScreenModel {
        ScreenModel {
            width: w,
            height: h,
            grid: Seq::new(
                h,
                |r: int| Seq::new(w, |c: int| if r < self.height && c < self.width { self.grid[r][c] } else { blank_cell() }),
            ),
            row: if self.row > last_index(h) { last_index(h) } else { self.row },
            col: if self.col > last_index(w) { last_index(w) } else { self.col },
            style: self.style,
        }
    }
}

/// Below the last row, line feeds only move the cursor down.
proof fn lemma_line_feeds_descend(s: ScreenModel, k: nat)
    requires
        s.wf(),
        s.row + k < s.height,
    ensures
        s.line_feeds(k) == (ScreenModel { row: s.row + k, ..s }),
    decreases k,
{
    if k > 0 {
        lemma_line_feeds_descend(s, (k - 1) as nat);
    }
}

/// Writing `height + 1` lines from the first row (`height` line feeds)
/// discards the first row the screen had: every other row moves up one, the
/// bottom row is blank, and the cursor ends on the last row.
pub proof fn lemma_fill_scrolls_once(s: ScreenModel)
    requires
        s.wf(),
        s.height > 0,
        s.row == 0,
    ensures
        s.line_feeds(s.height).row == s.height - 1,
        s.line_feeds(s.height).col == s.col,
        s.line_feeds(s.height).grid == s.grid.drop_first().push(blank_row(s.width)),
{
    lemma_line_feeds_descend(s, (s.height - 1) as nat);
}

/// On the last row a line feed scrolls: the cursor stays on the last row and
/// the top row leaves the screen.
pub proof fn lemma_line_feed_at_bottom(s: ScreenModel)
    requires
        s.wf(),
        s.height > 0,
        s.row == s.height - 1,
    ensures
        s.line_feed().row == s.row,
        s.line_feed().grid == s.grid.drop_first().push(blank_row(s.width)),
{
}

/// Resizing keeps every cell of the rectangle the old and new sizes share,
/// blanks every cell outside the old grid, and keeps the cursor where it
/// still fits.
pub proof fn lemma_resize_keeps_overlap(s: ScreenModel, w: nat, h: nat)
    requires
        s.wf(),
    ensures
        s.resized(w, h).wf(),
        forall|r: int, c: int|
            0 <= r < h && 0 <= c < w && r < s.height && c < s.width ==> #[trigger] s.resized(w, h).grid[r][c]
                == s.grid[r][c],
        forall|r: int, c: int|
            0 <= r < h && 0 <= c < w && !(r < s.height && c < s.width) ==> #[trigger] s.resized(w, h).grid[r][c]
                == blank_cell(),
        s.row < h ==> s.resized(w, h).row == s.row,
        s.col < w ==> s.resized(w, h).col == s.col,
{
}

/// A grid of styled cells with a cursor and a current style.
pub struct ScreenBuffer {
    width: u16,
    height: u16,
    rows: Vec<Vec<Cell>>,
    row: u16,
    col: u16,
    style: Style,
}

impl View for ScreenBuffer {
    type V = ScreenModel;

    closed spec fn view(&self) -> ScreenModel {
        ScreenModel {
            width: self.width as nat,
            height: self.height as nat,
            grid: self.rows@.map_values(|v: Vec<Cell>| v@),
            row: self.row as nat,
            col: self.col as nat,
            style: self.style,
        }
    }
}

fn blank_row_vec(w: u16) -> (r: Vec<Cell>)
    ensures
        r@ == blank_row(w as nat),
{
    let mut v: Vec<Cell> = Vec::new();
    let mut i: u16 = 0;
    while i < w
        invariant
            i <= w,
            v@ == blank_row(i as nat),
        decreases w - i,
    {
        v.push(Cell::blank());
        i = i + 1;
        assert(v@ =~= blank_row(i as nat));
    }
    v
}

impl ScreenBuffer {
    pub open spec fn wf(&self) -> bool {
        self@.wf()
    }

    /// A blank `width` x `height` screen with the cursor at the origin.
    pub fn new(width: u16, height: u16) -> (r: ScreenBuffer)
        ensures
            r.wf(),
            r@ == ScreenModel::fresh(width as nat, height as nat),
    {
        let mut rows: Vec<Vec<Cell>> = Vec::new();
        let mut i: u16 = 0;
        while i < height
            invariant
                i <= height,
                rows@.len() == i,
                forall|k: int| 0 <= k < i ==> (#[trigger] rows@[k])@ == blank_row(width as nat),
            decreases height - i,
        {
            let line = blank_row_vec(width);
            rows.push(line);
            i = i + 1;
        }
        let r = ScreenBuffer { width, height, rows, row: 0, col: 0, style: crate::style::Style::plain() };
        assert(r@.grid =~= blank_grid(width as nat, height as nat));
        r
    }

    fn write_cell(&mut self, r: u16, c: u16, cell: Cell)
        requires
            old(self).wf(),
            r < old(self)@.height,
            c < old(self)@.width,
        ensures
            final(self).wf(),
            final(self)@ == old(self)@.with_cell(r as int, c as int, cell),
    {
        let ghost before = self@;
        assert(self.rows@[r as int]@.len() == self.width);
        self.rows[r as usize][c as usize] = cell;
        assert(self@.grid =~= before.with_cell(r as int, c as int, cell).grid);
    }

    /// Removes row 0, shifts the rest up and appends a blank row.
    pub fn scroll_up(&mut self)
        requires
            old(self).wf(),
        ensures
            final(self).wf(),
            final(self)@ == old(self)@.scrolled(),
    {
        if self.height == 0 {
            return;
        }
        let ghost before = self@;
        self.rows.remove(0);
        let line = blank_row_vec(self.width);
        self.rows.push(line);
        assert(self@.grid =~= before.grid.drop_first().push(blank_row(before.width)));
    }

    /// Moves the cursor down one row, scrolling at the last row.
    pub fn line_feed(&mut self)
        requires
            old(self).wf(),
        ensures
            final(self).wf(),
            final(self)@ == old(self)@.line_feed(),
    {
        if (self.row as u32) + 1 < self.height as u32 {
            self.row = self.row + 1;
        } else {
            self.scroll_up();
        }
    }

    /// Writes `ch` at the cursor in the current style and advances the cursor.
    pub fn put(&mut self, ch: char)
        requires
            old(self).wf(),
        ensures
            final(self).wf(),
            final(self)@ == old(self)@.put(ch),
    {
        if self.width == 0 || self.height == 0 {
            return;
        }
        let cell = Cell { ch, style: self.style };
        self.write_cell(self.row, self.col, cell);
        if (self.col as u32) + 1 < self.width as u32 {
            self.col = self.col + 1;
        } else {
            self.col = 0;
            self.line_feed();
        }
    }

    pub fn carriage_return(&mut self)
        requires
            old(self).wf(),
        ensures
            final(self).wf(),
            final(self)@ == old(self)@.carriage_return(),
    {
        self.col = 0;
    }

    pub fn tab(&mut self)
        requires
            old(self).wf(),
        ensures
            final(self).wf(),
            final(self)@ == old(self)@.tab(),
    {
        let next: u32 = ((self.col as u32) / 8 + 1) * 8;
        let last = last_of(self.width);
        if next > last as u32 {
            self.col = last;
        } else {
            self.col = next as u16;
        }
    }

    pub fn backspace(&mut self)
        requires
            old(self).wf(),
        ensures
            final(self).wf(),
            final(self)@ == old(self)@.backspace(),
    {
        if self.col > 0 {
            self.col = self.col - 1;
        }
    }

    /// Moves the cursor by `dy` rows and `dx` columns, clamping to the grid.
    pub fn move_cursor(&mut self, dx: i32, dy: i32)
        requires
            old(self).wf(),
        ensures
            final(self).wf(),
            final(self)@ == old(self)@.moved(dx as int, dy as int),
    {
        self.row = clamp_u16(self.row as i64 + dy as i64, self.height);
        self.col = clamp_u16(self.col as i64 + dx as i64, self.width);
    }

    /// Places the cursor at 0-based `(row, col)`, clamping to the grid.
    pub fn set_cursor(&mut self, row: u16, col: u16)
        requires
            old(self).wf(),
        ensures
            final(self).wf(),
            final(self)@ == old(self)@.placed(row as int, col as int),
    {
        self.row = clamp_u16(row as i64, self.height);
        self.col = clamp_u16(col as i64, self.width);
    }

    pub fn set_style(&mut self, style: Style)
        requires
            old(self).wf(),
        ensures
            final(self).wf(),
            final(self)@ == old(self)@.with_style(style),
    {
        self.style = style;
    }

    /// Blanks the cells `[from, to)` of row `r`.
    fn blank_span(&mut self, r: u16, from: u16, to: u16)
        requires
            old(self).wf(),
            r < old(self)@.height,
            from <= to <= old(self)@.width,
        ensures
            final(self).wf(),
            final(self)@ == old(self)@.blanked(|i: int, j: int| i == r && from <= j < to),
    {
        let ghost before = self@;
        let mut c: u16 = from;
        assert(self@.grid =~~= before.blanked(|i: int, j: int| i == r && from <= j < from).grid);
        while c < to
            invariant
                self.wf(),
                from <= c <= to,
                to <= before.width,
                r < before.height,
                self@ == before.blanked(|i: int, j: int| i == r && from <= j < c),
            decreases to - c,
        {
            self.write_cell(r, c, Cell::blank());
            c = c + 1;
            assert(self@.grid =~~= before.blanked(|i: int, j: int| i == r && from <= j < c).grid);
        }
    }

    /// Blanks every row in `[from, to)` entirely.
    fn blank_rows(&mut self, from: u16, to: u16)
        requires
            old(self).wf(),
            from <= to <= old(self)@.height,
        ensures
            final(self).wf(),
            final(self)@ == old(self)@.blanked(|i: int, j: int| from <= i < to),
    {
        let ghost before = self@;
        let mut r: u16 = from;
        assert(self@.grid =~~= before.blanked(|i: int, j: int| from <= i < from).grid);
        while r < to
            invariant
                self.wf(),
                from <= r <= to,
                to <= before.height,
                self@ == before.blanked(|i: int, j: int| from <= i < r),
            decreases to - r,
        {
            self.blank_span(r, 0, self.width);
            r = r + 1;
            assert(self@.grid =~~= before.blanked(|i: int, j: int| from <= i < r).grid);
        }
    }

    /// Erases `region` of the display relative to the cursor; the cursor stays.
    pub fn clear(&mut self, region: ClearRegion)
        requires
            old(self).wf(),
        ensures
            final(self).wf(),
            final(self)@ == old(self)@.cleared(region),
    {
        let ghost before = self@;
        if self.height == 0 || self.width == 0 {
            assert(self@.grid =~~= before.cleared(region).grid);
            return;
        }
        match region {
            ClearRegion::ToEnd => {
                self.blank_span(self.row, self.col, self.width);
                self.blank_rows(self.row + 1, self.height);
            },
            ClearRegion::ToCursor => {
                self.blank_rows(0, self.row);
                self.blank_span(self.row, 0, self.col + 1);
            },
            ClearRegion::All => {
                self.blank_rows(0, self.height);
            },
        }
        assert(self@.grid =~~= before.cleared(region).grid);
    }

    /// Erases `region` of the cursor's line; the cursor stays.
    pub fn clear_line(&mut self, region: ClearRegion)
        requires
            old(self).wf(),
        ensures
            final(self).wf(),
            final(self)@ == old(self)@.line_cleared(region),
    {
        let ghost before = self@;
        if self.height == 0 || self.width == 0 {
            assert(self@.grid =~~= before.line_cleared(region).grid);
            return;
        }
        match region {
            ClearRegion::ToEnd => self.blank_span(self.row, self.col, self.width),
            ClearRegion::ToCursor => self.blank_span(self.row, 0, self.col + 1),
            ClearRegion::All => self.blank_span(self.row, 0, self.width),
        }
        assert(self@.grid =~~= before.line_cleared(region).grid);
    }

    /// Reallocates the grid to `width` x `height`, keeping the overlapping
    /// top-left rectangle and clamping the cursor into the new bounds.
    pub fn resize(&mut self, width: u16, height: u16)
        requires
            old(self).wf(),
        ensures
            final(self).wf(),
            final(self)@ == old(self)@.resized(width as nat, height as nat),
    {
        let ghost target = self@.resized(width as nat, height as nat);
        let mut rows: Vec<Vec<Cell>> = Vec::new();
        let mut r: u16 = 0;
        while r < height
            invariant
                self.wf(),
                self@.resized(width as nat, height as nat) == target,
                r <= height,
                rows@.len() == r,
                forall|k: int| 0 <= k < r ==> (#[trigger] rows@[k])@ == target.grid[k],
            decreases height - r,
        {
            let mut line: Vec<Cell> = Vec::new();
            let mut c: u16 = 0;
            while c < width
                invariant
                    self.wf(),
                    self@.resized(width as nat, height as nat) == target,
                    r < height,
                    c <= width,
                    line@.len() == c,
                    forall|j: int| 0 <= j < c ==> (#[trigger] line@[j]) == target.grid[r as int][j],
                decreases width - c,
            {
                if r < self.height && c < self.width {
                    assert(self.rows@[r as int]@.len() == self.width);
                    line.push(self.rows[r as usize][c as usize]);
                } else {
                    line.push(Cell::blank());
                }
                c = c + 1;
            }
            assert(line@ =~= target.grid[r as int]);
            rows.push(line);
            r = r + 1;
        }
        self.rows = rows;
        self.width = width;
        self.height = height;
        let last_row = last_of(height);
        let last_col = last_of(width);
        if self.row > last_row {
            self.row = last_row;
        }
        if self.col > last_col {
            self.col = last_col;
        }
        assert(self@.grid =~= target.grid);
    }

    /// A copy of the grid and cursor for rendering.
    pub fn snapshot(&self) -> (r: Snapshot)
        requires
            self.wf(),
        ensures
            r.rows@.len() == self@.grid.len(),
            forall|i: int| 0 <= i < r.rows@.len() ==> (#[trigger] r.rows@[i])@ == self@.grid[i],
            r.cursor_row as nat == self@.row,
            r.cursor_col as nat == self@.col,
    {
        let mut rows: Vec<Vec<Cell>> = Vec::new();
        let mut i: usize = 0;
        while i < self.rows.len()
            invariant
                self.wf(),
                i <= self.rows@.len(),
                rows@.len() == i,
                forall|k: int| 0 <= k < i ==> (#[trigger] rows@[k])@ == self@.grid[k],
            decreases self.rows@.len() - i,
        {
            let src = &self.rows[i];
            let mut line: Vec<Cell> = Vec::new();
            let mut j: usize = 0;
            while j < src.len()
                invariant
                    j <= src@.len(),
                    line@.len() == j,
                    forall|k: int| 0 <= k < j ==> (#[trigger] line@[k]) == src@[k],
                decreases src@.len() - j,
            {
                line.push(src[j]);
                j = j + 1;
            }
            assert(line@ =~= src@);
            rows.push(line);
            i = i + 1;
        }
        Snapshot { rows, cursor_row: self.row, cursor_col: self.col }
    }

    pub fn width(&self) -> (r: u16)
        ensures
            r as nat == self@.width,
    {
        self.width
    }

    pub fn height(&self) -> (r: u16)
        ensures
            r as nat == self@.height,
    {
        self.height
    }

    /// The cursor as `(row, column)`, 0-based.
    pub fn cursor(&self) -> (r: (u16, u16))
        ensures
            r.0 as nat == self@.row,
            r.1 as nat == self@.col,
    {
        (self.row, self.col)
    }

    pub fn current_style(&self) -> (r: Style)
        ensures
            r == self@.style,
    {
        self.style
    }

    /// The cell at `(row, col)`, or `None` outside the grid.
    pub fn cell(&self, row: u16, col: u16) -> (r: Option<Cell>)
        requires
            self.wf(),
        ensures
            r == (if row < self@.height && col < self@.width {
                Some(self@.grid[row as int][col as int])
            } else {
                None::<Cell>
            }),
    {
        if row < self.height && col < self.width {
            assert(self@.grid[row as int].len() == self.width);
            Some(self.rows[row as usize][col as usize])
        } else {
            None
        }
    }
}

/// A read-only copy of a screen for rendering: rows of cells and the cursor.
pub struct Snapshot {
    pub rows: Vec<Vec<Cell>>,
    pub cursor_row: u16,
    pub cursor_col: u16,
}

/// The largest index below `n`, or 0.
fn last_of(n: u16) -> (r: u16)
    ensures
        r as nat == last_index(n as nat),
{
    if n == 0 { 0 } else { n - 1 }
}

fn clamp_u16(v: i64, n: u16) -> (r: u16)
    ensures
        r as nat == clamp_to(v as int, n as nat),
{
    let last = last_of(n);
    if v <= 0 {
        0
    } else if v > last as i64 {
        last
    } else {
        v as u16
    }
}

} // verus!
