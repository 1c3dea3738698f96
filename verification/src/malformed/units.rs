//! The units of the sections: their headers, abbreviations and root entries,
//! where the name, the directory and the line number program of a unit stand.
use vstd::prelude::*;
use vstd::slice::slice_subrange;

use crate::malformed::forms::{
    is_index, is_index_form, is_large_index, large_index_at, skip_value, value_end,
};
use crate::malformed::lines::{is_overflowing_at, path_index_overflows_at};
use crate::malformed::numbers::{
    fixed_number, initial_length, lemma_number_end_behind, lemma_number_ends_behind, long_number,
    number_end, read_fixed, read_initial_length, read_long, read_short, short_number, skip,
    skip_number,
};

verus! {

// Headers

/// How the values of a unit are written.
#[derive(Debug, Clone, Copy, PartialEq, Eq, Structural)]
pub struct Encoding {
    pub version: u16,
    pub address_size: u8,
    /// The size of an offset into a section.
    pub word: usize,
}

/// The size of what follows the header of a unit of that type (`DW_UT`).
pub open spec fn type_size(unit_type: u8, word: nat) -> Option<nat> {
    if unit_type == 1 || unit_type == 3 {
        Some(0)
    } else if unit_type == 2 || unit_type == 6 {
        Some(8 + word)
    } else if unit_type == 4 || unit_type == 5 {
        Some(8)
    } else {
        None
    }
}

/// The header of a unit behind its length: how its values are written, where
/// its abbreviations are, and the position of its entries.
pub open spec fn unit_header(unit: Seq<u8>, word: usize) -> Option<(Encoding, nat, int)> {
    if unit.len() < 3 + word {
        None
    } else if 2 <= fixed_number(unit, 0, 2) <= 4 {
        Some(
            (
                Encoding {
                    version: fixed_number(unit, 0, 2) as u16,
                    address_size: unit[2 + word],
                    word,
                },
                fixed_number(unit, 2, word as nat),
                3 + word,
            ),
        )
    } else if fixed_number(unit, 0, 2) == 5 && unit.len() >= 4 + word {
        match type_size(unit[2], word as nat) {
            Some(size) => if 4 + word + size <= unit.len() {
                Some(
                    (
                        Encoding { version: 5, address_size: unit[3], word },
                        fixed_number(unit, 4, word as nat),
                        4 + word + size,
                    ),
                )
            } else {
                None
            },
            None => None,
        }
    } else {
        None
    }
}

// Abbreviations

/// The name and the form of the attribute that is listed at `at`, and the
/// position behind it. A list ends with a name and a form of zero.
pub open spec fn attribute_at(abbreviations: Seq<u8>, at: int) -> Option<(nat, nat, int)> {
    match short_number(abbreviations, at) {
        Some((name, form_at)) => match short_number(abbreviations, form_at) {
            Some((form, end)) => if (name == 0) != (form == 0) {
                None
            } else if form == 0x21 {
                match number_end(abbreviations, end) {
                    Some(end) => Some((name, form, end)),
                    None => None,
                }
            } else {
                Some((name, form, end))
            },
            None => None,
        },
        None => None,
    }
}

/// An attribute has at least one byte, and lies within the data.
pub proof fn lemma_attribute_ends_behind(abbreviations: Seq<u8>, at: int)
    ensures
        attribute_at(abbreviations, at) matches Some((_, _, end)) ==> at < end
            <= abbreviations.len(),
{
    lemma_number_ends_behind(abbreviations, at, 3, 3);
    if let Some((_, form_at)) = short_number(abbreviations, at) {
        lemma_number_ends_behind(abbreviations, form_at, 3, 3);
        if let Some((_, end)) = short_number(abbreviations, form_at) {
            lemma_number_end_behind(abbreviations, end);
        }
    }
}

/// The position behind the list of attributes at `at`.
pub open spec fn attributes_end(abbreviations: Seq<u8>, at: int) -> Option<int>
    decreases abbreviations.len() - at,
{
    proof {
        lemma_attribute_ends_behind(abbreviations, at);
    }
    match attribute_at(abbreviations, at) {
        Some((name, _, end)) => if name == 0 {
            Some(end)
        } else {
            attributes_end(abbreviations, end)
        },
        None => None,
    }
}

/// A list of attributes has at least one byte, and lies within the data.
pub proof fn lemma_attributes_end_behind(abbreviations: Seq<u8>, at: int)
    ensures
        attributes_end(abbreviations, at) matches Some(end) ==> at < end <= abbreviations.len(),
    decreases abbreviations.len() - at,
{
    lemma_attribute_ends_behind(abbreviations, at);
    if let Some((name, _, end)) = attribute_at(abbreviations, at) {
        if name != 0 {
            lemma_attributes_end_behind(abbreviations, end);
        }
    }
}

/// The code of the abbreviation that is listed at `at`, and the position of its
/// attributes. A list ends with a code of zero.
pub open spec fn abbreviation_at(abbreviations: Seq<u8>, at: int) -> Option<(nat, int)> {
    match long_number(abbreviations, at) {
        Some((code, tag_at)) => match short_number(abbreviations, tag_at) {
            Some((tag, next)) => if code == 0 || tag == 0 || next >= abbreviations.len()
                || abbreviations[next] > 1 {
                None
            } else {
                Some((code, next + 1))
            },
            None => None,
        },
        None => None,
    }
}

/// An abbreviation has at least one byte, and lies within the data.
pub proof fn lemma_abbreviation_ends_behind(abbreviations: Seq<u8>, at: int)
    ensures
        abbreviation_at(abbreviations, at) matches Some((_, end)) ==> at < end
            <= abbreviations.len(),
{
    lemma_number_ends_behind(abbreviations, at, 10, 1);
    if let Some((_, tag_at)) = long_number(abbreviations, at) {
        lemma_number_ends_behind(abbreviations, tag_at, 3, 3);
    }
}

/// The position of the attributes of the first abbreviation from `at` on that
/// has that code.
pub open spec fn attributes_of(abbreviations: Seq<u8>, at: int, code: nat) -> Option<int>
    decreases abbreviations.len() - at,
{
    proof {
        lemma_abbreviation_ends_behind(abbreviations, at);
        if let Some((_, attributes)) = abbreviation_at(abbreviations, at) {
            lemma_attributes_end_behind(abbreviations, attributes);
        }
    }
    match abbreviation_at(abbreviations, at) {
        Some((found, attributes)) => if found == code {
            Some(attributes)
        } else {
            match attributes_end(abbreviations, attributes) {
                Some(end) => attributes_of(abbreviations, end, code),
                None => None,
            }
        },
        None => None,
    }
}

// Root entries

/// The code of the first entry from `at` on that has one, and the position
/// behind it.
pub open spec fn root_code(unit: Seq<u8>, at: int) -> Option<(nat, int)>
    decreases unit.len() - at,
{
    proof {
        lemma_number_ends_behind(unit, at, 10, 1);
    }
    match long_number(unit, at) {
        Some((code, end)) => if code == 0 {
            root_code(unit, end)
        } else {
            Some((code, end))
        },
        None => None,
    }
}

/// The form that the value at `at` has, and the position of the value: the
/// form may stand before the value (`DW_FORM_indirect`).
pub open spec fn form_of(unit: Seq<u8>, at: int, form: nat) -> Option<(nat, int)>
    decreases unit.len() - at,
{
    proof {
        lemma_number_ends_behind(unit, at, 3, 3);
    }
    if form == 0x16 {
        match short_number(unit, at) {
            Some((form, next)) => form_of(unit, next, form),
            None => None,
        }
    } else {
        Some((form, at))
    }
}

/// The form of the same size for a number of that many bytes.
pub open spec fn sized_form(size: u8) -> nat {
    if size == 1 {
        0x0b
    } else if size == 2 {
        0x05
    } else if size == 4 {
        0x06
    } else if size == 8 {
        0x07
    } else {
        0
    }
}

/// The form of the same size that is in use outside of units too.
pub open spec fn common_form(form: nat, encoding: Encoding) -> nat {
    if form == 0x01 || (form == 0x10 && encoding.version == 2) {
        sized_form(encoding.address_size)
    } else if form == 0x10 || form == 0x1f20 {
        0x17
    } else if form == 0x11 || form == 0x29 {
        0x0b
    } else if form == 0x12 || form == 0x2a {
        0x05
    } else if form == 0x2b {
        0x27
    } else if form == 0x13 || form == 0x1c || form == 0x2c {
        0x06
    } else if form == 0x14 || form == 0x20 || form == 0x24 {
        0x07
    } else if form == 0x15 || form == 0x1b || form == 0x1f01 || form == 0x22 || form == 0x23 {
        0x0f
    } else if form == 0x18 {
        0x09
    } else {
        form
    }
}

/// The position behind a value of that form at `at`. The values of two forms
/// take no space.
pub open spec fn unit_value_end(unit: Seq<u8>, at: int, form: nat, encoding: Encoding) -> Option<
    int,
> {
    if form == 0x19 || form == 0x21 {
        Some(at)
    } else {
        value_end(unit, at, common_form(form, encoding), encoding.word as nat)
    }
}

/// The form is an offset into a section.
pub open spec fn is_offset(form: nat, word: usize) -> bool {
    form == 0x17 || (form == 0x06 && word == 4) || (form == 0x07 && word == 8)
}

/// What a root entry says, from the attribute that is listed at `listed` and
/// the value at `at` on: whether the name or the directory of the unit
/// (`DW_AT_name`, `DW_AT_comp_dir`) is given by an index that is too large, or
/// one was `found` before; and where the line number program is
/// (`DW_AT_stmt_list`), or was `program` before.
pub open spec fn root(
    abbreviations: Seq<u8>,
    listed: int,
    unit: Seq<u8>,
    at: int,
    encoding: Encoding,
    found: bool,
    program: Option<nat>,
) -> Option<(bool, Option<nat>)>
    decreases abbreviations.len() - listed,
{
    proof {
        lemma_attribute_ends_behind(abbreviations, listed);
    }
    match attribute_at(abbreviations, listed) {
        Some((name, listed_form, next)) => if name == 0 {
            Some((found, program))
        } else {
            match form_of(unit, at, listed_form) {
                Some((form, value)) => match unit_value_end(unit, value, form, encoding) {
                    Some(end) => root(
                        abbreviations,
                        next,
                        unit,
                        end,
                        encoding,
                        found || ((name == 0x03 || name == 0x1b) && is_index(form)
                            && large_index_at(unit, value, encoding.word as nat)),
                        if name == 0x10 && is_offset(form, encoding.word) {
                            Some(fixed_number(unit, value, encoding.word as nat))
                        } else {
                            program
                        },
                    ),
                    None => None,
                },
                None => None,
            }
        },
        None => None,
    }
}

// Units

/// Reading the unit overflows: its name, its directory or a path of its line
/// number program is given by an index that is too large. No value where the
/// unit cannot be read.
pub open spec fn unit_overflows(
    abbreviations: Seq<u8>,
    line: Seq<u8>,
    unit: Seq<u8>,
    word: usize,
) -> Option<bool> {
    match unit_header(unit, word) {
        Some((encoding, table, start)) => match root_code(unit, start) {
            Some((code, values)) => match attributes_of(abbreviations, table as int, code) {
                Some(listed) => match root(
                    abbreviations,
                    listed,
                    unit,
                    values,
                    encoding,
                    false,
                    None,
                ) {
                    Some((found, program)) => Some(
                        found || (program matches Some(start) && path_index_overflows_at(
                            line,
                            start as int,
                            word as nat,
                        )),
                    ),
                    None => None,
                },
                None => None,
            },
            None => None,
        },
        None => None,
    }
}

/// Reading one of the units from `at` on overflows. They are read up to the
/// first that cannot be read.
pub open spec fn units_overflow(
    abbreviations: Seq<u8>,
    info: Seq<u8>,
    line: Seq<u8>,
    at: int,
) -> bool
    decreases info.len() - at,
{
    match initial_length(info, at) {
        Some((size, start, word)) => if start + size <= info.len() {
            match unit_overflows(
                abbreviations,
                line,
                info.subrange(start, start + size),
                word as usize,
            ) {
                Some(yes) => yes || units_overflow(abbreviations, info, line, start + size),
                None => false,
            }
        } else {
            false
        },
        None => false,
    }
}

// Reading the units

/// The header of a unit.
fn read_unit_header(unit: &[u8], word: usize) -> (result: Option<(Encoding, u64, usize)>)
    requires
        word == 4 || word == 8,
    ensures
        match result {
            Some((encoding, table, start)) => {
                &&& unit_header(unit@, word) == Some((encoding, table as nat, start as int))
                &&& start <= unit@.len()
                &&& encoding.word == word
            },
            None => unit_header(unit@, word) is None,
        },
{
    if unit.len() < 3 + word {
        return None;
    }
    let version = read_fixed(unit, 0, 2);
    if 2 <= version && version <= 4 {
        let encoding = Encoding { version: version as u16, address_size: unit[2 + word], word };
        return Some((encoding, read_fixed(unit, 2, word), 3 + word));
    }
    if version != 5 || unit.len() < 4 + word {
        return None;
    }
    let size: usize = if unit[2] == 1 || unit[2] == 3 {
        0
    } else if unit[2] == 2 || unit[2] == 6 {
        8 + word
    } else if unit[2] == 4 || unit[2] == 5 {
        8
    } else {
        return None;
    };
    if unit.len() < 4 + word + size {
        return None;
    }
    let encoding = Encoding { version: 5, address_size: unit[3], word };
    Some((encoding, read_fixed(unit, 4, word), 4 + word + size))
}

/// The attribute that is listed at `at`.
fn read_attribute(abbreviations: &[u8], at: usize) -> (result: Option<(u16, u16, usize)>)
    ensures
        match result {
            Some((name, form, end)) => attribute_at(abbreviations@, at as int) == Some(
                (name as nat, form as nat, end as int),
            ) && at < end <= abbreviations@.len(),
            None => attribute_at(abbreviations@, at as int) is None,
        },
{
    proof {
        lemma_attribute_ends_behind(abbreviations@, at as int);
    }
    let (name, form_at) = match read_short(abbreviations, at) {
        Some(found) => found,
        None => return None,
    };
    let (form, end) = match read_short(abbreviations, form_at) {
        Some(found) => found,
        None => return None,
    };
    if (name == 0) != (form == 0) {
        None
    } else if form == 0x21 {
        match skip_number(abbreviations, end) {
            Some(end) => Some((name, form, end)),
            None => None,
        }
    } else {
        Some((name, form, end))
    }
}

/// The position behind the list of attributes at `at`.
fn skip_attributes(abbreviations: &[u8], at: usize) -> (result: Option<usize>)
    requires
        at <= abbreviations@.len(),
    ensures
        match result {
            Some(end) => attributes_end(abbreviations@, at as int) == Some(end as int) && at < end
                <= abbreviations@.len(),
            None => attributes_end(abbreviations@, at as int) is None,
        },
{
    let mut next: usize = at;
    loop
        invariant
            at <= next <= abbreviations@.len(),
            attributes_end(abbreviations@, at as int) == attributes_end(
                abbreviations@,
                next as int,
            ),
        decreases abbreviations@.len() - next,
    {
        match read_attribute(abbreviations, next) {
            Some((name, _, end)) => {
                if name == 0 {
                    return Some(end);
                }
                next = end;
            },
            None => return None,
        }
    }
}

/// The abbreviation that is listed at `at`.
fn read_abbreviation(abbreviations: &[u8], at: usize) -> (result: Option<(u64, usize)>)
    ensures
        match result {
            Some((code, attributes)) => abbreviation_at(abbreviations@, at as int) == Some(
                (code as nat, attributes as int),
            ) && at < attributes <= abbreviations@.len(),
            None => abbreviation_at(abbreviations@, at as int) is None,
        },
{
    let (code, tag_at) = match read_long(abbreviations, at) {
        Some(found) => found,
        None => return None,
    };
    let (tag, next) = match read_short(abbreviations, tag_at) {
        Some(found) => found,
        None => return None,
    };
    if code == 0 || tag == 0 || next >= abbreviations.len() || abbreviations[next] > 1 {
        None
    } else {
        Some((code, next + 1))
    }
}

/// The position of the attributes of the abbreviation with that code.
fn find_attributes(abbreviations: &[u8], at: u64, code: u64) -> (result: Option<usize>)
    ensures
        match result {
            Some(listed) => attributes_of(abbreviations@, at as int, code as nat) == Some(
                listed as int,
            ) && listed <= abbreviations@.len(),
            None => attributes_of(abbreviations@, at as int, code as nat) is None,
        },
{
    if at > abbreviations.len() as u64 {
        return None;
    }
    let mut next: usize = at as usize;
    loop
        invariant
            next <= abbreviations@.len(),
            attributes_of(abbreviations@, at as int, code as nat) == attributes_of(
                abbreviations@,
                next as int,
                code as nat,
            ),
        decreases abbreviations@.len() - next,
    {
        let (found, attributes) = match read_abbreviation(abbreviations, next) {
            Some(found) => found,
            None => return None,
        };
        if found == code {
            return Some(attributes);
        }
        match skip_attributes(abbreviations, attributes) {
            Some(end) => {
                next = end;
            },
            None => return None,
        }
    }
}

/// The code of the first entry that has one, and the position behind it.
fn read_root_code(unit: &[u8], at: usize) -> (result: Option<(u64, usize)>)
    requires
        at <= unit@.len(),
    ensures
        match result {
            Some((code, values)) => root_code(unit@, at as int) == Some(
                (code as nat, values as int),
            ) && values <= unit@.len(),
            None => root_code(unit@, at as int) is None,
        },
{
    let mut next: usize = at;
    loop
        invariant
            next <= unit@.len(),
            root_code(unit@, at as int) == root_code(unit@, next as int),
        decreases unit@.len() - next,
    {
        match read_long(unit, next) {
            Some((code, end)) => {
                if code != 0 {
                    return Some((code, end));
                }
                next = end;
            },
            None => return None,
        }
    }
}

/// The form that the value at `at` has, and the position of the value.
fn read_form(unit: &[u8], at: usize, form: u16) -> (result: Option<(u16, usize)>)
    requires
        at <= unit@.len(),
    ensures
        match result {
            Some((own, value)) => form_of(unit@, at as int, form as nat) == Some(
                (own as nat, value as int),
            ) && value <= unit@.len(),
            None => form_of(unit@, at as int, form as nat) is None,
        },
{
    let mut own: u16 = form;
    let mut next: usize = at;
    while own == 0x16
        invariant
            next <= unit@.len(),
            form_of(unit@, at as int, form as nat) == form_of(unit@, next as int, own as nat),
        decreases unit@.len() - next,
    {
        match read_short(unit, next) {
            Some((found, end)) => {
                own = found;
                next = end;
            },
            None => return None,
        }
    }
    Some((own, next))
}

/// The form of the same size that is in use outside of units too.
fn to_common_form(form: u16, encoding: Encoding) -> (common: u16)
    ensures
        common == common_form(form as nat, encoding),
{
    if form == 0x01 || (form == 0x10 && encoding.version == 2) {
        if encoding.address_size == 1 {
            0x0b
        } else if encoding.address_size == 2 {
            0x05
        } else if encoding.address_size == 4 {
            0x06
        } else if encoding.address_size == 8 {
            0x07
        } else {
            0
        }
    } else if form == 0x10 || form == 0x1f20 {
        0x17
    } else if form == 0x11 || form == 0x29 {
        0x0b
    } else if form == 0x12 || form == 0x2a {
        0x05
    } else if form == 0x2b {
        0x27
    } else if form == 0x13 || form == 0x1c || form == 0x2c {
        0x06
    } else if form == 0x14 || form == 0x20 || form == 0x24 {
        0x07
    } else if form == 0x15 || form == 0x1b || form == 0x1f01 || form == 0x22 || form == 0x23 {
        0x0f
    } else if form == 0x18 {
        0x09
    } else {
        form
    }
}

/// The position behind a value of that form at `at`.
fn skip_unit_value(unit: &[u8], at: usize, form: u16, encoding: Encoding) -> (result: Option<usize>)
    requires
        at <= unit@.len(),
    ensures
        match result {
            Some(end) => unit_value_end(unit@, at as int, form as nat, encoding) == Some(
                end as int,
            ) && end <= unit@.len(),
            None => unit_value_end(unit@, at as int, form as nat, encoding) is None,
        },
{
    if form == 0x19 || form == 0x21 {
        Some(at)
    } else {
        skip_value(unit, at, to_common_form(form, encoding), encoding.word)
    }
}

/// A number that is or is not there, as a mathematical one.
pub open spec fn optional_number(n: Option<u64>) -> Option<nat> {
    match n {
        Some(n) => Some(n as nat),
        None => None,
    }
}

/// What the root entry says.
fn read_root(
    abbreviations: &[u8],
    listed: usize,
    unit: &[u8],
    at: usize,
    encoding: Encoding,
) -> (result: Option<(bool, Option<u64>)>)
    requires
        listed <= abbreviations@.len(),
        at <= unit@.len(),
        encoding.word == 4 || encoding.word == 8,
    ensures
        match result {
            Some((found, program)) => root(
                abbreviations@,
                listed as int,
                unit@,
                at as int,
                encoding,
                false,
                None,
            ) == Some((found, optional_number(program))),
            None => root(
                abbreviations@,
                listed as int,
                unit@,
                at as int,
                encoding,
                false,
                None,
            ) is None,
        },
{
    let mut found: bool = false;
    let mut program: Option<u64> = None;
    let mut next: usize = listed;
    let mut value_at: usize = at;
    loop
        invariant
            next <= abbreviations@.len(),
            value_at <= unit@.len(),
            encoding.word == 4 || encoding.word == 8,
            root(abbreviations@, listed as int, unit@, at as int, encoding, false, None) == root(
                abbreviations@,
                next as int,
                unit@,
                value_at as int,
                encoding,
                found,
                optional_number(program),
            ),
        decreases abbreviations@.len() - next,
    {
        let (name, listed_form, behind) = match read_attribute(abbreviations, next) {
            Some(attribute) => attribute,
            None => return None,
        };
        if name == 0 {
            return Some((found, program));
        }
        let (form, value) = match read_form(unit, value_at, listed_form) {
            Some(own) => own,
            None => return None,
        };
        let end = match skip_unit_value(unit, value, form, encoding) {
            Some(end) => end,
            None => return None,
        };
        if (name == 0x03 || name == 0x1b) && is_index_form(form) && is_large_index(
            unit,
            value,
            encoding.word,
        ) {
            found = true;
        }
        if name == 0x10 && (form == 0x17 || (form == 0x06 && encoding.word == 4) || (form == 0x07
            && encoding.word == 8)) {
            program = Some(read_fixed(unit, value, encoding.word));
        }
        next = behind;
        value_at = end;
    }
}

/// Whether reading the unit overflows; no value where it cannot be read.
fn is_unit_overflowing(abbreviations: &[u8], line: &[u8], unit: &[u8], word: usize) -> (result:
    Option<bool>)
    requires
        word == 4 || word == 8,
    ensures
        result == unit_overflows(abbreviations@, line@, unit@, word),
{
    let (encoding, table, start) = match read_unit_header(unit, word) {
        Some(header) => header,
        None => return None,
    };
    let (code, values) = match read_root_code(unit, start) {
        Some(root) => root,
        None => return None,
    };
    let listed = match find_attributes(abbreviations, table, code) {
        Some(listed) => listed,
        None => return None,
    };
    match read_root(abbreviations, listed, unit, values, encoding) {
        Some((found, program)) => match program {
            Some(program) => Some(found || is_overflowing_at(line, program, word)),
            None => Some(found),
        },
        None => None,
    }
}

/// Whether reading one of the units overflows.
pub(crate) fn has_overflowing_unit(abbreviations: &[u8], info: &[u8], line: &[u8]) -> (yes: bool)
    ensures
        yes == units_overflow(abbreviations@, info@, line@, 0),
{
    let mut at: usize = 0;
    loop
        invariant
            at <= info@.len(),
            units_overflow(abbreviations@, info@, line@, 0) == units_overflow(
                abbreviations@,
                info@,
                line@,
                at as int,
            ),
        decreases info@.len() - at,
    {
        let (size, start, word) = match read_initial_length(info, at) {
            Some(found) => found,
            None => return false,
        };
        let end = match skip(info, start, size) {
            Some(end) => end,
            None => return false,
        };
        match is_unit_overflowing(abbreviations, line, slice_subrange(info, start, end), word) {
            Some(true) => return true,
            Some(false) => {
                at = end;
            },
            None => return false,
        }
    }
}

} // verus!
