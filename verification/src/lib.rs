//! Label layout and document assembly engine: turns grouped order line items
//! into positioned label pages and packages them into a cross-referenced
//! document object graph ready for serialization.
pub mod models;
pub mod text;
pub mod layout;
pub mod report;
pub mod emit;
pub mod plan;
pub mod graph;
pub mod render;
pub mod engine;

use vstd::prelude::*;

verus! {

/// Vertical position of the next row: the previous row's position minus the
/// current row's font size and the inter-row spacing.
pub fn next_row_height(font_size: u16, previous_row: u16, row_spacing: u16) -> (r: u16)
    requires
        font_size + row_spacing <= previous_row,
    ensures
        r == previous_row - font_size - row_spacing,
{
    previous_row - font_size - row_spacing
}

} // verus!
