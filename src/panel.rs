use vstd::prelude::*;
use crate::interp::{EscapeInterpreter, ParserModel, lemma_run_keeps_size, run};
use crate::screen::{ClearRegion, ScreenBuffer, ScreenModel, Snapshot};
use crate::style::{Cell, Style};

verus! {

/// A rectangle of the host screen, in character cells.
#[derive(Clone, Copy, Debug, PartialEq, Eq, Structural)]
pub struct Rect {
    pub x: u16,
    pub y: u16,
    pub width: u16,
    pub height: u16,
}

/// `n - 2`, or 0: one border cell is taken from each side.
pub open spec fn inner_len(n: u16) -> nat {
    if n >= 2 { (n - 2) as nat } else { 0 }
}

fn inner_of(n: u16) -> (r: u16)
    ensures
        r as nat == inner_len(n),
{
    if n >= 2 { n - 2 } else { 0 }
}

/// The abstract state of a panel.
pub struct PanelModel {
    pub bounds: Rect,
    pub active: bool,
    pub parser: ParserModel,
    pub screen: ScreenModel,
}

/// A bordered region of the host screen that shows a remote terminal. The
/// border takes one cell on each side; the screen, and so every cursor clamp,
/// has exactly the size inside it. The screen is driven by an escape
/// interpreter.
pub struct RawTerminalPanel {
    bounds: Rect,
    screen: ScreenBuffer,
    parser: EscapeInterpreter,
    is_active: bool,
}

impl View for RawTerminalPanel {
    type V = PanelModel;

    closed spec fn view(&self) -> PanelModel {
        PanelModel { bounds: self.bounds, active: self.is_active, parser: self.parser@, screen: self.screen@ }
    }
}

impl RawTerminalPanel {
    /// The screen always has the size inside the border.
    pub open spec fn wf(&self) -> bool {
        &&& self@.parser.wf()
        &&& self@.screen.wf()
        &&& self@.screen.width == inner_len(self@.bounds.width)
        &&& self@.screen.height == inner_len(self@.bounds.height)
    }

    /// A blank, inactive panel occupying `bounds`.
    pub fn new(bounds: Rect) -> (r: RawTerminalPanel)
        ensures
            r.wf(),
            r@.bounds == bounds,
            !r@.active,
            r@.parser == ParserModel::ground(),
            r@.screen == ScreenModel::fresh(inner_len(bounds.width), inner_len(bounds.height)),
    {
        let screen = ScreenBuffer::new(inner_of(bounds.width), inner_of(bounds.height));
        RawTerminalPanel { bounds, screen, parser: EscapeInterpreter::new(), is_active: false }
    }

    /// Moves the panel; on a change of bounds the screen is resized to the
    /// new inner size, keeping its top-left content.
    pub fn set_bounds(&mut self, bounds: Rect)
        requires
            old(self).wf(),
        ensures
            final(self).wf(),
            final(self)@.bounds == bounds,
            final(self)@.active == old(self)@.active,
            final(self)@.parser == old(self)@.parser,
            final(self)@.screen == (if bounds == old(self)@.bounds {
                old(self)@.screen
            } else {
                old(self)@.screen.resized(inner_len(bounds.width), inner_len(bounds.height))
            }),
    {
        if self.bounds != bounds {
            self.bounds = bounds;
            self.screen.resize(inner_of(bounds.width), inner_of(bounds.height));
        }
    }

    pub fn set_active(&mut self, active: bool)
        requires
            old(self).wf(),
        ensures
            final(self).wf(),
            final(self)@ == (PanelModel { active, ..old(self)@ }),
    {
        self.is_active = active;
    }

    /// Feeds output of the remote program through the interpreter.
    pub fn write_ssh_data(&mut self, data: &[u8])
        requires
            old(self).wf(),
        ensures
            final(self).wf(),
            final(self)@.bounds == old(self)@.bounds,
            final(self)@.active == old(self)@.active,
            (final(self)@.parser, final(self)@.screen) == run(old(self)@.parser, old(self)@.screen, data@),
    {
        self.parser.feed(&mut self.screen, data);
        proof {
            lemma_run_keeps_size(old(self)@.parser, old(self)@.screen, data@);
        }
    }

    /// The size of the region inside the border, as `(width, height)`: the
    /// size to give the remote terminal.
    pub fn get_size(&self) -> (r: (u16, u16))
        ensures
            r.0 as nat == inner_len(self@.bounds.width),
            r.1 as nat == inner_len(self@.bounds.height),
    {
        (inner_of(self.bounds.width), inner_of(self.bounds.height))
    }

    /// Blanks the whole screen; the cursor stays where it is.
    pub fn clear(&mut self)
        requires
            old(self).wf(),
        ensures
            final(self).wf(),
            final(self)@ == (PanelModel { screen: old(self)@.screen.cleared(ClearRegion::All), ..old(self)@ }),
    {
        self.screen.clear(ClearRegion::All);
    }

    pub fn bounds(&self) -> (r: Rect)
        ensures
            r == self@.bounds,
    {
        self.bounds
    }

    pub fn is_active(&self) -> (r: bool)
        ensures
            r == self@.active,
    {
        self.is_active
    }

    /// The panel's screen, for reading.
    pub fn screen(&self) -> (r: &ScreenBuffer)
        ensures
            r@ == self@.screen,
    {
        &self.screen
    }

    /// A copy of the grid and cursor for rendering.
    pub fn snapshot(&self) -> (r: Snapshot)
        requires
            self.wf(),
        ensures
            r.rows@.len() == self@.screen.grid.len(),
            forall|i: int| 0 <= i < r.rows@.len() ==> (#[trigger] r.rows@[i])@ == self@.screen.grid[i],
            r.cursor_row as nat == self@.screen.row,
            r.cursor_col as nat == self@.screen.col,
    {
        self.screen.snapshot()
    }
}

} // verus!
