//! The line number programs of the sections: instructions and headers on which
//! reading them overflows.
use vstd::prelude::*;
use vstd::slice::slice_subrange;

use crate::malformed::forms::{
    is_index, is_index_form, is_large_index, large_index_at, skip_value, value_end,
};
use crate::malformed::numbers::{
    fixed_number, initial_length, long_number, read_fixed, read_initial_length, read_long,
    read_short, short_number, skip,
};

verus! {

// Instructions

/// The bytes of the instruction that takes the line back by 2^63.
pub open spec fn line_retreat() -> Seq<u8> {
    seq![0x03u8, 0x80, 0x80, 0x80, 0x80, 0x80, 0x80, 0x80, 0x80, 0x80, 0x7f]
}

/// At `at` stand the bytes of the instruction that takes the line back by 2^63.
pub open spec fn retreats_at(line: Seq<u8>, at: int) -> bool {
    0 <= at && at + 11 <= line.len() && line.subrange(at, at + 11) == line_retreat()
}

/// Whether the instruction that takes the line back by 2^63 stands somewhere.
pub(crate) fn has_retreat(line: &[u8]) -> (yes: bool)
    ensures
        yes == exists|i: int| #[trigger] retreats_at(line@, i),
{
    let mut i: usize = 0;
    while i < line.len() && line.len() - i >= 11
        invariant
            i <= line@.len(),
            forall|j: int| 0 <= j < i ==> !#[trigger] retreats_at(line@, j),
        decreases line@.len() - i,
    {
        if line[i] == 0x03 && line[i + 1] == 0x80 && line[i + 2] == 0x80 && line[i + 3] == 0x80
            && line[i + 4] == 0x80 && line[i + 5] == 0x80 && line[i + 6] == 0x80 && line[i + 7]
            == 0x80 && line[i + 8] == 0x80 && line[i + 9] == 0x80 && line[i + 10] == 0x7f {
            assert(line@.subrange(i as int, i + 11) =~= line_retreat());
            assert(retreats_at(line@, i as int));
            return true;
        }
        assert(!retreats_at(line@, i as int)) by {
            if retreats_at(line@, i as int) {
                let found = line@.subrange(i as int, i + 11);
                assert(forall|j: int| 0 <= j < 11 ==> line@[i + j] == #[trigger] found[j]);
                assert(found[0] == 0x03 && found[1] == 0x80 && found[2] == 0x80 && found[3] == 0x80
                    && found[4] == 0x80 && found[5] == 0x80 && found[6] == 0x80 && found[7] == 0x80
                    && found[8] == 0x80 && found[9] == 0x80 && found[10] == 0x7f);
            }
        }
        i = i + 1;
    }
    false
}

// Headers

/// How an entry of a header's table is put together: for each part whether it
/// is the path, and its form.
#[derive(Debug, Clone, Copy)]
pub struct Part {
    pub path: bool,
    pub form: u16,
}

/// The parts that are listed from `at` on, behind those in `known`, and the
/// position behind them.
pub open spec fn parts(data: Seq<u8>, at: int, count: nat, known: Seq<Part>) -> Option<
    (Seq<Part>, int),
>
    decreases count,
{
    if count == 0 {
        Some((known, at))
    } else {
        match long_number(data, at) {
            Some((content, next)) => match short_number(data, next) {
                Some((form, end)) => parts(
                    data,
                    end,
                    (count - 1) as nat,
                    known.push(Part { path: content == 1, form: form as u16 }),
                ),
                None => None,
            },
            None => None,
        }
    }
}

/// How many of the parts are paths.
pub open spec fn path_count(all: Seq<Part>) -> nat
    decreases all.len(),
{
    if all.len() == 0 {
        0
    } else if all.last().path {
        path_count(all.drop_last()) + 1
    } else {
        path_count(all.drop_last())
    }
}

/// The entry at `at`, from its part number `next` on: whether a path in it is
/// given by an index that is too large, or one was `found` before, and the
/// position behind the entry.
pub open spec fn entry(
    data: Seq<u8>,
    at: int,
    all: Seq<Part>,
    next: int,
    word: nat,
    table_word: nat,
    found: bool,
) -> Option<(bool, int)>
    decreases all.len() - next,
{
    if next < 0 || next >= all.len() {
        Some((found, at))
    } else {
        let part = all[next];
        match value_end(data, at, part.form as nat, word) {
            Some(end) => entry(
                data,
                end,
                all,
                next + 1,
                word,
                table_word,
                found || (part.path && is_index(part.form as nat) && large_index_at(data, at, table_word)),
            ),
            None => None,
        }
    }
}

/// The same for `count` entries.
pub open spec fn entries(
    data: Seq<u8>,
    at: int,
    all: Seq<Part>,
    count: nat,
    word: nat,
    table_word: nat,
    found: bool,
) -> Option<(bool, int)>
    decreases count,
{
    if count == 0 {
        Some((found, at))
    } else {
        match entry(data, at, all, 0, word, table_word, found) {
            Some((found, end)) => entries(data, end, all, (count - 1) as nat, word, table_word, found),
            None => None,
        }
    }
}

/// The same for a table at `at`: how its entries are put together, how many
/// there are, and the entries.
pub open spec fn table(data: Seq<u8>, at: int, word: nat, table_word: nat) -> Option<(bool, int)> {
    if at < 0 || at >= data.len() {
        None
    } else {
        match parts(data, at + 1, data[at] as nat, Seq::empty()) {
            Some((all, next)) => if path_count(all) == 1 {
                match long_number(data, next) {
                    Some((count, start)) => entries(data, start, all, count, word, table_word, false),
                    None => None,
                }
            } else {
                None
            },
            None => None,
        }
    }
}

/// The two tables at `at`, of directories and of files, have a path that is
/// given by an index that is too large.
pub open spec fn tables_overflow(data: Seq<u8>, at: int, word: nat, table_word: nat) -> bool {
    match table(data, at, word, table_word) {
        Some((directories, next)) => match table(data, next, word, table_word) {
            Some((files, _)) => directories || files,
            None => false,
        },
        None => false,
    }
}

/// The header of version 5 behind its length and version: the size of its
/// fields up to the tables is that of `header[5]` and five bytes more.
pub open spec fn header_overflows(header: Seq<u8>, word: nat, table_word: nat) -> bool {
    &&& header.len() >= 6
    &&& header[0] != 0
    &&& header[1] != 0
    &&& header[4] != 0
    &&& header[5] != 0
    &&& tables_overflow(header, 5 + header[5], word, table_word)
}

/// The header of a line number program that follows its length has version 5,
/// and in its tables a path that is given by an index that is too large.
pub open spec fn program_overflows(program: Seq<u8>, word: nat, table_word: nat) -> bool {
    &&& program.len() >= 4 + word
    &&& fixed_number(program, 0, 2) == 5
    &&& program[3] == 0
    &&& {
        let size = fixed_number(program, 4, word);
        4 + word + size <= program.len() && header_overflows(
            program.subrange((4 + word) as int, (4 + word + size) as int),
            word,
            table_word,
        )
    }
}

/// A line number program that starts at `at` has a path that is given by an
/// index that is too large.
pub open spec fn path_index_overflows_at(line: Seq<u8>, at: int, table_word: nat) -> bool {
    match initial_length(line, at) {
        Some((size, start, word)) => start + size <= line.len() && program_overflows(
            line.subrange(start, start + size),
            word,
            table_word,
        ),
        None => false,
    }
}

/// The parts that are listed from `at` on, and the position behind them.
fn read_parts(data: &[u8], at: usize, count: u8) -> (result: Option<(Vec<Part>, usize)>)
    requires
        at <= data@.len(),
    ensures
        match result {
            Some((all, end)) => parts(data@, at as int, count as nat, Seq::empty()) == Some(
                (all@, end as int),
            ) && end <= data@.len(),
            None => parts(data@, at as int, count as nat, Seq::empty()) is None,
        },
{
    let mut all: Vec<Part> = vec![];
    let mut next: usize = at;
    let mut left: u8 = count;
    while left > 0
        invariant
            next <= data@.len(),
            parts(data@, at as int, count as nat, Seq::empty()) == parts(
                data@,
                next as int,
                left as nat,
                all@,
            ),
        decreases left,
    {
        let (content, form_at) = match read_long(data, next) {
            Some(found) => found,
            None => return None,
        };
        let (form, end) = match read_short(data, form_at) {
            Some(found) => found,
            None => return None,
        };
        all.push(Part { path: content == 1, form });
        next = end;
        left = left - 1;
    }
    Some((all, next))
}

/// Whether one of the parts is the path, and no other.
fn has_one_path(all: &Vec<Part>) -> (yes: bool)
    ensures
        yes == (path_count(all@) == 1),
{
    let mut count: usize = 0;
    let mut i: usize = 0;
    assert(all@.take(0) =~= Seq::empty());
    while i < all.len()
        invariant
            i <= all@.len(),
            count <= i,
            count == path_count(all@.take(i as int)),
        decreases all@.len() - i,
    {
        if all[i].path {
            count = count + 1;
        }
        i = i + 1;
        assert(all@.take(i as int).drop_last() =~= all@.take(i - 1));
    }
    assert(all@.take(i as int) =~= all@);
    count == 1
}

/// Whether a path in the entry at `at` is given by an index that is too large,
/// or one was found before, and the position behind the entry.
fn read_entry(data: &[u8], at: usize, all: &Vec<Part>, word: usize, table_word: usize, found: bool) -> (result: Option<
    (bool, usize),
>)
    requires
        table_word == 4 || table_word == 8,
        at <= data@.len(),
    ensures
        match result {
            Some((large, end)) => entry(data@, at as int, all@, 0, word as nat, table_word as nat, found) == Some(
                (large, end as int),
            ) && end <= data@.len(),
            None => entry(data@, at as int, all@, 0, word as nat, table_word as nat, found) is None,
        },
{
    let mut large: bool = found;
    let mut next: usize = at;
    let mut i: usize = 0;
    while i < all.len()
        invariant
            table_word == 4 || table_word == 8,
            i <= all@.len(),
            next <= data@.len(),
            entry(data@, at as int, all@, 0, word as nat, table_word as nat, found) == entry(
                data@,
                next as int,
                all@,
                i as int,
                word as nat,
                table_word as nat,
                large,
            ),
        decreases all@.len() - i,
    {
        let end = match skip_value(data, next, all[i].form, word) {
            Some(end) => end,
            None => return None,
        };
        large = large || (all[i].path && is_index_form(all[i].form) && is_large_index(
            data,
            next,
            table_word,
        ));
        next = end;
        i = i + 1;
    }
    Some((large, next))
}

/// The same for `count` entries.
fn read_entries(data: &[u8], at: usize, all: &Vec<Part>, count: u64, word: usize, table_word: usize) -> (result: Option<
    (bool, usize),
>)
    requires
        table_word == 4 || table_word == 8,
        at <= data@.len(),
    ensures
        match result {
            Some((large, end)) => entries(
                data@,
                at as int,
                all@,
                count as nat,
                word as nat,
                table_word as nat,
                false,
            ) == Some((large, end as int)) && end <= data@.len(),
            None => entries(data@, at as int, all@, count as nat, word as nat, table_word as nat, false) is None,
        },
{
    let mut large: bool = false;
    let mut next: usize = at;
    let mut left: u64 = count;
    while left > 0
        invariant
            table_word == 4 || table_word == 8,
            next <= data@.len(),
            entries(data@, at as int, all@, count as nat, word as nat, table_word as nat, false) == entries(
                data@,
                next as int,
                all@,
                left as nat,
                word as nat,
                table_word as nat,
                large,
            ),
        decreases left,
    {
        match read_entry(data, next, all, word, table_word, large) {
            Some((found, end)) => {
                large = found;
                next = end;
            },
            None => return None,
        }
        left = left - 1;
    }
    Some((large, next))
}

/// Whether a path in the table at `at` is given by an index that is too large,
/// and the position behind the table.
fn read_table(data: &[u8], at: usize, word: usize, table_word: usize) -> (result: Option<(bool, usize)>)
    requires
        table_word == 4 || table_word == 8,
    ensures
        match result {
            Some((large, end)) => table(data@, at as int, word as nat, table_word as nat) == Some((large, end as int))
                && end <= data@.len(),
            None => table(data@, at as int, word as nat, table_word as nat) is None,
        },
{
    if at >= data.len() {
        return None;
    }
    let (all, count_at) = match read_parts(data, at + 1, data[at]) {
        Some(found) => found,
        None => return None,
    };
    if !has_one_path(&all) {
        return None;
    }
    let (count, start) = match read_long(data, count_at) {
        Some(found) => found,
        None => return None,
    };
    read_entries(data, start, &all, count, word, table_word)
}

/// Whether the header has a path that is given by an index that is too large.
fn is_header_overflowing(header: &[u8], word: usize, table_word: usize) -> (yes: bool)
    requires
        table_word == 4 || table_word == 8,
    ensures
        yes == header_overflows(header@, word as nat, table_word as nat),
{
    if header.len() < 6 || header[0] == 0 || header[1] == 0 || header[4] == 0 || header[5] == 0 {
        return false;
    }
    match read_table(header, 5 + header[5] as usize, word, table_word) {
        Some((directories, next)) => match read_table(header, next, word, table_word) {
            Some((files, _)) => directories || files,
            None => false,
        },
        None => false,
    }
}

/// Whether the line number program behind its length has such a path.
fn is_program_overflowing(program: &[u8], word: usize, table_word: usize) -> (yes: bool)
    requires
        table_word == 4 || table_word == 8,
        word == 4 || word == 8,
    ensures
        yes == program_overflows(program@, word as nat, table_word as nat),
{
    if program.len() < 4 + word || read_fixed(program, 0, 2) != 5 || program[3] != 0 {
        return false;
    }
    let size = read_fixed(program, 4, word);
    match skip(program, 4 + word, size) {
        Some(end) => is_header_overflowing(slice_subrange(program, 4 + word, end), word, table_word),
        None => false,
    }
}

/// Whether the line number program that starts at `at` has such a path.
pub(crate) fn is_overflowing_at(line: &[u8], at: u64, table_word: usize) -> (yes: bool)
    requires
        table_word == 4 || table_word == 8,
    ensures
        yes == path_index_overflows_at(line@, at as int, table_word as nat),
{
    if at > line.len() as u64 {
        return false;
    }
    match read_initial_length(line, at as usize) {
        Some((size, start, word)) => match skip(line, start, size) {
            Some(end) => is_program_overflowing(
                slice_subrange(line, start, end),
                word,
                table_word,
            ),
            None => false,
        },
        None => false,
    }
}

} // verus!
