//! Which bytes of DWARF sections make the reader of the sections overflow.
//! None of them are of use: a line number below zero, or an index into a table
//! of strings that is far larger than memory.
use vstd::prelude::*;

use crate::malformed::lines::{has_retreat, retreats_at};
use crate::malformed::units::{has_overflowing_unit, units_overflow};

pub mod forms;
pub mod laws;
pub mod lines;
pub mod numbers;
pub mod units;

verus! {

/// Reading the sections for the addresses of source lines overflows nowhere.
pub open spec fn reads_without_overflow(
    abbreviations: Seq<u8>,
    info: Seq<u8>,
    line: Seq<u8>,
) -> bool {
    &&& !units_overflow(abbreviations, info, line, 0)
    &&& !exists|i: int| #[trigger] retreats_at(line, i)
}

/// Whether reading the sections for the addresses of source lines overflows
/// nowhere.
pub fn is_read_without_overflow(abbreviations: &[u8], info: &[u8], line: &[u8]) -> (yes: bool)
    ensures
        yes == reads_without_overflow(abbreviations@, info@, line@),
{
    !has_overflowing_unit(abbreviations, info, line) && !has_retreat(line)
}

} // verus!
