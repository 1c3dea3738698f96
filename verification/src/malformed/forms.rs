//! Values in the forms (`DW_FORM`) that DWARF has for them.
use vstd::prelude::*;

use crate::malformed::numbers::{
    fixed_number, long_number, number_end, read_long, skip, skip_block, skip_number, skip_text,
    text_end,
};

verus! {

/// The form is an index into the table of string offsets, in LEB128:
/// `DW_FORM_strx` or `DW_FORM_GNU_str_index`.
pub open spec fn is_index(form: nat) -> bool {
    form == 0x1a || form == 0x1f02
}

/// At `at` stands an index into a table of string offsets of `word` bytes each,
/// and the position of the offset has more than 64 bits.
pub open spec fn large_index_at(data: Seq<u8>, at: int, word: nat) -> bool {
    long_number(data, at) matches Some((index, _)) && index * word > u64::MAX
}

/// The position behind a value of that form at `at`. A `word` is an offset into
/// a section.
pub open spec fn value_end(data: Seq<u8>, at: int, form: nat, word: nat) -> Option<int> {
    let end: Option<int> = if form == 0x0b || form == 0x0c || form == 0x25 {
        Some(at + 1)
    } else if form == 0x05 || form == 0x26 {
        Some(at + 2)
    } else if form == 0x27 {
        Some(at + 3)
    } else if form == 0x06 || form == 0x28 {
        Some(at + 4)
    } else if form == 0x07 {
        Some(at + 8)
    } else if form == 0x1e {
        Some(at + 16)
    } else if form == 0x17 || form == 0x0e || form == 0x1d || form == 0x1f || form == 0x1f21 {
        Some(at + word)
    } else if form == 0x0f || form == 0x1a || form == 0x1f02 {
        match long_number(data, at) {
            Some((_, end)) => Some(end),
            None => None,
        }
    } else if form == 0x0d {
        number_end(data, at)
    } else if form == 0x08 {
        text_end(data, at)
    } else if form == 0x0a && at + 1 <= data.len() {
        Some(at + 1 + fixed_number(data, at, 1))
    } else if form == 0x03 && at + 2 <= data.len() {
        Some(at + 2 + fixed_number(data, at, 2))
    } else if form == 0x04 && at + 4 <= data.len() {
        Some(at + 4 + fixed_number(data, at, 4))
    } else if form == 0x09 {
        match long_number(data, at) {
            Some((size, next)) => Some(next + size),
            None => None,
        }
    } else {
        None
    };
    match end {
        Some(end) => if end <= data.len() {
            Some(end)
        } else {
            None
        },
        None => None,
    }
}

/// Whether the form is an index.
pub(crate) fn is_index_form(form: u16) -> (yes: bool)
    ensures
        yes == is_index(form as nat),
{
    form == 0x1a || form == 0x1f02
}

/// Whether at `at` stands an index that is too large.
pub(crate) fn is_large_index(data: &[u8], at: usize, word: usize) -> (yes: bool)
    requires
        word == 4 || word == 8,
    ensures
        yes == large_index_at(data@, at as int, word as nat),
{
    match read_long(data, at) {
        Some((index, _)) => if word == 4 {
            index > 0x3fff_ffff_ffff_ffff
        } else {
            index > 0x1fff_ffff_ffff_ffff
        },
        None => false,
    }
}

/// The position behind a value of that form at `at`.
pub(crate) fn skip_value(data: &[u8], at: usize, form: u16, word: usize) -> (end: Option<usize>)
    requires
        at <= data@.len(),
    ensures
        match end {
            Some(end) => value_end(data@, at as int, form as nat, word as nat) == Some(end as int) && end
                <= data@.len(),
            None => value_end(data@, at as int, form as nat, word as nat) is None,
        },
{
    if form == 0x0b || form == 0x0c || form == 0x25 {
        skip(data, at, 1)
    } else if form == 0x05 || form == 0x26 {
        skip(data, at, 2)
    } else if form == 0x27 {
        skip(data, at, 3)
    } else if form == 0x06 || form == 0x28 {
        skip(data, at, 4)
    } else if form == 0x07 {
        skip(data, at, 8)
    } else if form == 0x1e {
        skip(data, at, 16)
    } else if form == 0x17 || form == 0x0e || form == 0x1d || form == 0x1f || form == 0x1f21 {
        skip(data, at, word as u64)
    } else if form == 0x0f || form == 0x1a || form == 0x1f02 {
        match read_long(data, at) {
            Some((_, end)) => Some(end),
            None => None,
        }
    } else if form == 0x0d {
        skip_number(data, at)
    } else if form == 0x08 {
        skip_text(data, at)
    } else if form == 0x0a {
        skip_block(data, at, 1)
    } else if form == 0x03 {
        skip_block(data, at, 2)
    } else if form == 0x04 {
        skip_block(data, at, 4)
    } else if form == 0x09 {
        match read_long(data, at) {
            Some((size, next)) => skip(data, next, size),
            None => None,
        }
    } else {
        None
    }
}

} // verus!
