//! The measures of the screen.

use crate::editor::Position;
use vstd::prelude::*;

verus! {

/// Number of lines at the foot of the screen that show no row of the
/// document.
pub const RESERVED_LINES: u16 = 2;

/// The part of the screen that shows the document, in character cells.
pub struct Size {
    /// Number of columns.
    pub width: usize,
    /// Number of lines.
    pub height: usize,
}

impl Size {
    /// The part of a screen of `columns` by `lines` cells that shows the
    /// document: all of its columns, and its lines but for the reserved ones.
    pub fn of_screen(columns: u16, lines: u16) -> (size: Size)
        ensures
            size.width == columns,
            size.height == if lines >= RESERVED_LINES {
                lines - RESERVED_LINES
            } else {
                0
            },
    {
        Size { width: columns as usize, height: lines.saturating_sub(RESERVED_LINES) as usize }
    }
}

/// The number of a column or line of the screen, which counts them from
/// one, for a coordinate counted from zero. Of a number too large for the
/// screen's sixteen bits only the low sixteen are kept.
pub open spec fn cell_number(coordinate: usize) -> int {
    if coordinate < usize::MAX {
        (coordinate + 1) % 0x1_0000
    } else {
        usize::MAX as int % 0x1_0000
    }
}

/// The column and the line of the screen, counted from one, for a place
/// counted from zero.
pub fn screen_cell(position: Position) -> (cell: (u16, u16))
    ensures
        cell.0 == cell_number(position.x),
        cell.1 == cell_number(position.y),
{
    (low_bits(position.x.saturating_add(1)), low_bits(position.y.saturating_add(1)))
}

/// The low sixteen bits of `n`.
fn low_bits(n: usize) -> (low: u16)
    ensures
        low == n % 0x1_0000,
{
    assert(n as u16 == n % 0x1_0000) by (bit_vector);
    #[verifier::truncate]
    (n as u16)
}

} // verus!
