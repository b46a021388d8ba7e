//! The cell model: one table cell is a plain-text value plus semantic styling.
//!
//! A cell never carries raw terminal codes; the renderer maps a
//! `SemanticColor` to whatever styling the output medium supports.

use vstd::prelude::*;

verus! {

/// Semantic styling for a cell; the renderer decides what each means on screen.
#[derive(Clone, Copy, Debug, PartialEq, Eq, Structural)]
pub enum SemanticColor {
    Success,
    Warn,
    Danger,
    Info,
    Plain,
}

/// Mathematical model of a [`Cell`]: its text as a sequence of characters
/// plus the two styling slots.
pub ghost struct CellV {
    pub value: Seq<char>,
    pub foreground: Option<SemanticColor>,
    pub background: Option<SemanticColor>,
}

impl CellV {
    /// The model of an unstyled cell holding `value`.
    pub open spec fn plain_of(value: Seq<char>) -> CellV {
        CellV { value, foreground: None, background: None }
    }

    /// The model of a cell holding `value` with foreground color `fg`.
    pub open spec fn fg_of(value: Seq<char>, fg: SemanticColor) -> CellV {
        CellV { value, foreground: Some(fg), background: None }
    }
}

/// One table cell: pre-formatted plain text plus optional semantic styling.
pub struct Cell {
    pub value: String,
    pub foreground: Option<SemanticColor>,
    pub background: Option<SemanticColor>,
}

impl View for Cell {
    type V = CellV;

    open spec fn view(&self) -> CellV {
        CellV {
            value: self.value@,
            foreground: self.foreground,
            background: self.background,
        }
    }
}

impl Cell {
    /// A cell with default styling.
    pub fn plain(value: String) -> (c: Cell)
        ensures
            c@ == CellV::plain_of(value@),
    {
        Cell { value, foreground: None, background: None }
    }

    /// A cell with explicit styling.
    pub fn styled(value: String, fg: Option<SemanticColor>, bg: Option<SemanticColor>) -> (c: Cell)
        ensures
            c@ == (CellV { value: value@, foreground: fg, background: bg }),
    {
        Cell { value, foreground: fg, background: bg }
    }
}

} // verus!
