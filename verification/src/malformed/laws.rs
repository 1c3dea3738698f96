//! What is read of bytes that were written on purpose.
use vstd::prelude::*;

use crate::evaluator::{byte_range, lowest_bytes};
use crate::malformed::forms::{is_index, large_index_at, value_end};
use crate::malformed::lines::{line_retreat, retreats_at};
use crate::malformed::numbers::{
    fixed_number, initial_length, long_number, number, number_end, short_number, text_end,
};
use crate::malformed::reads_without_overflow;
use crate::malformed::units::{
    abbreviation_at, attribute_at, attributes_of, root, root_code, unit_header, unit_overflows,
    unit_value_end, units_overflow, Encoding,
};

verus! {

/// The bytes of a number in LEB128: seven bits in each, least significant first,
/// with the eighth bit set in all but the last.
pub open spec fn leb128(n: nat) -> Seq<u8>
    decreases n,
{
    if n < 128 {
        seq![n as u8]
    } else {
        seq![(n % 128 + 128) as u8] + leb128(n / 128)
    }
}

/// Below this number are those that so many bytes can hold, where the last of as
/// many is at most `top`.
spec fn limit(left: nat, top: u8) -> nat
    decreases left,
{
    if left <= 1 {
        top as nat + 1
    } else {
        128 * limit((left - 1) as nat, top)
    }
}

proof fn lemma_reads_back(data: Seq<u8>, at: int, n: nat, left: nat, top: u8)
    requires
        0 <= at,
        at + leb128(n).len() <= data.len(),
        data.subrange(at, at + leb128(n).len()) == leb128(n),
        left > 0,
        top < 128,
        n < limit(left, top),
    ensures
        number(data, at, left, top) == Some((n, at + leb128(n).len())),
    decreases n,
{
    let bytes = leb128(n);
    assert(data[at] == data.subrange(at, at + bytes.len())[0]);
    if n >= 128 {
        let rest = leb128(n / 128);
        assert(bytes.subrange(1, bytes.len() as int) =~= rest);
        assert(data.subrange(at + 1, at + 1 + rest.len()) =~= data.subrange(
            at,
            at + bytes.len(),
        ).subrange(1, bytes.len() as int));
        lemma_reads_back(data, at + 1, n / 128, (left - 1) as nat, top);
    }
}

/// A number in LEB128 is read as itself, wherever it stands, and reading goes on
/// behind it: up to 64 bits where a long one is read, and up to 16 where a short
/// one is.
pub proof fn law_numbers_read_back(before: Seq<u8>, n: nat, behind: Seq<u8>)
    ensures
        ({
            let data = before + leb128(n) + behind;
            let end = (before.len() + leb128(n).len()) as int;
            &&& n < 0x1_0000_0000_0000_0000 ==> long_number(data, before.len() as int) == Some(
                (n, end),
            )
            &&& n < 0x1_0000 ==> short_number(data, before.len() as int) == Some((n, end))
        }),
{
    let data = before + leb128(n) + behind;
    let at = before.len() as int;
    assert(data.subrange(at, at + leb128(n).len()) =~= leb128(n));
    reveal_with_fuel(limit, 10);
    if n < 0x1_0000_0000_0000_0000 {
        assert(limit(10, 1) == 0x1_0000_0000_0000_0000);
        lemma_reads_back(data, at, n, 10, 1);
    }
    if n < 0x1_0000 {
        assert(limit(3, 3) == 0x1_0000);
        lemma_reads_back(data, at, n, 3, 3);
    }
}

/// An index into a table of string offsets is too large exactly if the position
/// of the offset has more than 64 bits.
pub proof fn law_large_indices_are_found(before: Seq<u8>, index: u64, behind: Seq<u8>, word: nat)
    ensures
        large_index_at(before + leb128(index as nat) + behind, before.len() as int, word)
            <==> index * word >= 0x1_0000_0000_0000_0000,
{
    law_numbers_read_back(before, index as nat, behind);
}

/// A number of `size` bytes has its least significant byte first: byte number
/// `i` is what is left of it, behind `i` bytes, in eight bits; and it has no more
/// bytes than that.
pub proof fn law_fixed_numbers_have_their_bytes(data: Seq<u8>, at: int, size: nat, i: nat)
    requires
        i < size,
    ensures
        data[at + i] == (fixed_number(data, at, size) / byte_range(i)) % 256,
        fixed_number(data, at, size) < byte_range(size),
    decreases size,
{
    let n = fixed_number(data, at, size);
    let rest = fixed_number(data, at + 1, (size - 1) as nat);
    assert(n == data[at] as nat + 256 * rest);
    assert(n / 256 == rest && n % 256 == data[at] as nat);
    if size > 1 {
        law_fixed_numbers_have_their_bytes(
            data,
            at + 1,
            (size - 1) as nat,
            if i > 0 {
                (i - 1) as nat
            } else {
                0
            },
        );
    } else {
        assert(rest == 0);
        assert(byte_range(0) == 1);
    }
    if i > 0 {
        lemma_range_is_positive((i - 1) as nat);
        vstd::arithmetic::div_mod::lemma_div_denominator(
            n as int,
            256,
            byte_range((i - 1) as nat) as int,
        );
        assert(byte_range(i) == 256 * byte_range((i - 1) as nat));
        assert(data[at + i] == data[at + 1 + (i - 1)]);
    } else {
        assert(byte_range(0) == 1);
        assert(n / 1 == n);
    }
    assert(byte_range(size) == 256 * byte_range((size - 1) as nat));
}

proof fn lemma_range_is_positive(len: nat)
    ensures
        byte_range(len) > 0,
    decreases len,
{
    if len > 0 {
        lemma_range_is_positive((len - 1) as nat);
    }
}

/// A text ends behind the first zero, and a number behind the first byte whose
/// eighth bit is not set; where there is none, it does not end.
pub proof fn law_texts_and_numbers_end(data: Seq<u8>, at: int, last: int)
    requires
        0 <= at <= last,
    ensures
        last < data.len() && data[last] == 0 && (forall|i: int|
            at <= i < last ==> #[trigger] data[i] != 0) ==> text_end(data, at) == Some(last + 1),
        last < data.len() && data[last] < 128 && (forall|i: int|
            at <= i < last ==> #[trigger] data[i] >= 128) ==> number_end(data, at) == Some(
            last + 1,
        ),
        (forall|i: int| at <= i < data.len() ==> #[trigger] data[i] != 0) ==> text_end(data, at)
            is None,
        (forall|i: int| at <= i < data.len() ==> #[trigger] data[i] >= 128) ==> number_end(
            data,
            at,
        ) is None,
    decreases data.len() - at,
{
    if at < data.len() {
        if at < last {
            law_texts_and_numbers_end(data, at + 1, last);
        } else {
            law_texts_and_numbers_end(data, at + 1, last + 1);
        }
    }
}

/// The number of a signed number in LEB128 of `len` bytes at `at`.
pub open spec fn signed_leb128(data: Seq<u8>, at: int, len: nat) -> int
    decreases len,
{
    if len == 0 {
        0
    } else if len == 1 {
        if data[at] < 64 {
            data[at] as int
        } else {
            data[at] - 128
        }
    } else {
        data[at] - 128 + 128 * signed_leb128(data, at + 1, (len - 1) as nat)
    }
}

/// Wherever the line number programs hold the bytes that take the line back by
/// 2^63, reading the sections overflows; and such bytes are the number of the
/// instruction that advances the line, and minus 2^63.
pub proof fn law_retreats_are_found(
    abbreviations: Seq<u8>,
    info: Seq<u8>,
    before: Seq<u8>,
    retreat: Seq<u8>,
    behind: Seq<u8>,
)
    requires
        retreat.len() == 11,
        retreat[0] == 3,
        forall|i: int| 1 <= i < 10 ==> #[trigger] retreat[i] >= 128,
        retreat[10] < 128,
        signed_leb128(retreat, 1, 10) == -0x8000_0000_0000_0000,
    ensures
        !reads_without_overflow(abbreviations, info, before + retreat + behind),
{
    lemma_retreat_bytes(retreat);
    let line = before + retreat + behind;
    assert(line.subrange(before.len() as int, before.len() as int + 11) =~= retreat);
    assert(retreat =~= line_retreat());
    assert(retreats_at(line, before.len() as int));
}

/// There is one way to write minus 2^63 in ten bytes.
proof fn lemma_retreat_bytes(retreat: Seq<u8>)
    requires
        retreat.len() == 11,
        retreat[0] == 3,
        forall|i: int| 1 <= i < 10 ==> #[trigger] retreat[i] >= 128,
        retreat[10] < 128,
        signed_leb128(retreat, 1, 10) == -0x8000_0000_0000_0000,
    ensures
        forall|i: int| 1 <= i < 10 ==> #[trigger] retreat[i] == 128,
        retreat[10] == 127,
{
    reveal_with_fuel(signed_leb128, 11);
    assert(retreat[1] >= 128 && retreat[2] >= 128 && retreat[3] >= 128 && retreat[4] >= 128
        && retreat[5] >= 128 && retreat[6] >= 128 && retreat[7] >= 128 && retreat[8] >= 128
        && retreat[9] >= 128);
}

/// Where the line number programs hold no such bytes and there are no units,
/// reading the sections overflows nowhere.
pub proof fn law_sections_without_units_are_read(
    abbreviations: Seq<u8>,
    info: Seq<u8>,
    line: Seq<u8>,
)
    requires
        info.len() < 4,
        forall|i: int|
            0 <= i < line.len() - 10 ==> (#[trigger] line[i] != 3 || line[i + 10] != 127),
    ensures
        reads_without_overflow(abbreviations, info, line),
{
    assert forall|i: int| !#[trigger] retreats_at(line, i) by {
        if retreats_at(line, i) {
            let found = line.subrange(i, i + 11);
            assert(found[0] == line[i] && found[10] == line[i + 10]);
        }
    }
}

// Units

/// Bytes that are written at a position are read from there.
proof fn lemma_fixed_reads_back(data: Seq<u8>, at: int, n: nat, size: nat)
    requires
        0 <= at,
        at + size <= data.len(),
        data.subrange(at, at + size) == lowest_bytes(n, size),
        n < byte_range(size),
    ensures
        fixed_number(data, at, size) == n,
    decreases size,
{
    if size > 0 {
        let bytes = lowest_bytes(n, size);
        let rest = lowest_bytes(n / 256, (size - 1) as nat);
        assert(data[at] == data.subrange(at, at + size)[0]);
        assert(bytes[0] == (n % 256) as u8);
        assert(bytes.subrange(1, size as int) =~= rest);
        assert(data.subrange(at + 1, at + size) =~= data.subrange(at, at + size).subrange(
            1,
            size as int,
        ));
        lemma_fixed_reads_back(data, at + 1, n / 256, (size - 1) as nat);
    }
}

proof fn lemma_bytes_written(n: nat, size: nat)
    ensures
        lowest_bytes(n, size).len() == size,
    decreases size,
{
    if size > 0 {
        lemma_bytes_written(n / 256, (size - 1) as nat);
    }
}

/// A number of `size` bytes, least significant first, is read as itself,
/// wherever it stands.
pub proof fn law_fixed_numbers_read_back(before: Seq<u8>, n: nat, size: nat, behind: Seq<u8>)
    requires
        n < byte_range(size),
    ensures
        fixed_number(
            before + lowest_bytes(n, size) + behind,
            before.len() as int,
            size,
        ) == n,
{
    lemma_bytes_written(n, size);
    let data = before + lowest_bytes(n, size) + behind;
    let at = before.len() as int;
    assert(data.subrange(at, at + size) =~= lowest_bytes(n, size));
    lemma_fixed_reads_back(data, at, n, size);
}

/// An index is given by one of two forms, and a value of a form that has a
/// number in LEB128 ends where the number does. The others have a fixed size.
pub proof fn law_values_end_where_their_form_says(
    before: Seq<u8>,
    n: u64,
    behind: Seq<u8>,
    form: nat,
    word: nat,
)
    ensures
        is_index(form) <==> form == 0x1a || form == 0x1f02,
        is_index(form) || form == 0x0f ==> value_end(
            before + leb128(n as nat) + behind,
            before.len() as int,
            form,
            word,
        ) == Some((before.len() + leb128(n as nat).len()) as int),
        ({
            let size: nat = if form == 0x0b || form == 0x0c || form == 0x25 {
                1
            } else if form == 0x05 || form == 0x26 {
                2
            } else if form == 0x27 {
                3
            } else if form == 0x06 || form == 0x28 {
                4
            } else if form == 0x07 {
                8
            } else if form == 0x1e {
                16
            } else if form == 0x17 || form == 0x0e || form == 0x1d || form == 0x1f || form
                == 0x1f21 {
                word
            } else {
                0
            };
            size > 0 ==> value_end(before + behind, before.len() as int, form, word)
                == if size <= behind.len() {
                Some((before.len() + size) as int)
            } else {
                None
            }
        }),
{
    law_numbers_read_back(before, n as nat, behind);
}

/// An attribute is read as its name and its form, and an abbreviation as its
/// code, wherever they stand.
pub proof fn law_abbreviations_read_back(
    before: Seq<u8>,
    code: u64,
    tag: u16,
    children: u8,
    name: u16,
    form: u16,
    behind: Seq<u8>,
)
    requires
        code > 0,
        tag > 0,
        children <= 1,
        name > 0,
        form > 0,
        form != 0x21,
    ensures
        ({
            let attribute = leb128(name as nat) + leb128(form as nat);
            attribute_at(before + attribute + behind, before.len() as int) == Some(
                (name as nat, form as nat, (before.len() + attribute.len()) as int),
            )
        }),
        ({
            let abbreviation = leb128(code as nat) + leb128(tag as nat) + seq![children];
            abbreviation_at(before + abbreviation + behind, before.len() as int) == Some(
                (code as nat, (before.len() + abbreviation.len()) as int),
            )
        }),
{
    let attribute = leb128(name as nat) + leb128(form as nat);
    let data = before + attribute + behind;
    law_numbers_read_back(before, name as nat, leb128(form as nat) + behind);
    assert(data =~= before + leb128(name as nat) + (leb128(form as nat) + behind));
    law_numbers_read_back(before + leb128(name as nat), form as nat, behind);
    assert(data =~= (before + leb128(name as nat)) + leb128(form as nat) + behind);
    let abbreviation = leb128(code as nat) + leb128(tag as nat) + seq![children];
    let more = before + abbreviation + behind;
    law_numbers_read_back(before, code as nat, leb128(tag as nat) + seq![children] + behind);
    assert(more =~= before + leb128(code as nat) + (leb128(tag as nat) + seq![children] + behind));
    law_numbers_read_back(before + leb128(code as nat), tag as nat, seq![children] + behind);
    assert(more =~= (before + leb128(code as nat)) + leb128(tag as nat) + (seq![children]
        + behind));
    let at = before.len() + leb128(code as nat).len() + leb128(tag as nat).len();
    assert(more[at as int] == children);
}

/// The header of a unit is read as the version, the address size and the
/// position of the abbreviations that were written, and the entries follow it.
pub proof fn law_unit_headers_read_back(
    version: u16,
    table: nat,
    address_size: u8,
    word: usize,
    entries: Seq<u8>,
)
    requires
        2 <= version <= 4,
        word == 4 || word == 8,
        table < byte_range(word as nat),
    ensures
        ({
            let unit = lowest_bytes(version as nat, 2) + lowest_bytes(table, word as nat)
                + seq![address_size] + entries;
            unit_header(unit, word) == Some(
                ((Encoding { version, address_size, word }), table, (3 + word) as int),
            )
        }),
{
    reveal_with_fuel(byte_range, 9);
    let head = lowest_bytes(version as nat, 2);
    let offset = lowest_bytes(table, word as nat);
    let unit = head + offset + seq![address_size] + entries;
    lemma_bytes_written(version as nat, 2);
    lemma_bytes_written(table, word as nat);
    law_fixed_numbers_read_back(
        Seq::empty(),
        version as nat,
        2,
        offset + seq![address_size] + entries,
    );
    assert(unit =~= Seq::<u8>::empty() + head + (offset + seq![address_size] + entries));
    law_fixed_numbers_read_back(head, table, word as nat, seq![address_size] + entries);
    assert(unit =~= head + offset + (seq![address_size] + entries));
    assert(unit[2 + word] == address_size);
}

/// The abbreviations that have one entry with one attribute.
pub open spec fn one_attribute(code: u64, tag: u16, children: u8, name: u16, form: u16) -> Seq<u8> {
    leb128(code as nat) + leb128(tag as nat) + seq![children] + (leb128(name as nat) + leb128(
        form as nat,
    )) + seq![0u8, 0u8]
}

/// A unit of version 2, 3 or 4 with one entry that has one value.
pub open spec fn one_value(version: u16, address_size: u8, code: u64, value: Seq<u8>) -> Seq<u8> {
    lowest_bytes(version as nat, 2) + lowest_bytes(0, 4) + seq![address_size] + (leb128(
        code as nat,
    ) + value)
}

/// Reading the sections of a program with one unit, whose root entry has one
/// attribute that is given by an index, overflows exactly if the attribute is
/// the name or the directory of the unit and the position that the index stands
/// for has more than 64 bits.
pub proof fn law_large_indices_of_units_are_found(
    version: u16,
    address_size: u8,
    code: u64,
    tag: u16,
    children: u8,
    name: u16,
    form: u16,
    index: u64,
    info: Seq<u8>,
)
    requires
        2 <= version <= 4,
        code > 0,
        tag > 0,
        children <= 1,
        name > 0,
        form == 0x1a || form == 0x1f02,
        ({
            let unit = one_value(version, address_size, code, leb128(index as nat));
            info == lowest_bytes(unit.len(), 4) + unit
        }),
    ensures
        reads_without_overflow(
            one_attribute(code, tag, children, name, form),
            info,
            Seq::empty(),
        ) <==> !((name == 0x03 || name == 0x1b) && index * 4 >= 0x1_0000_0000_0000_0000),
{
    let value = leb128(index as nat);
    let abbreviations = one_attribute(code, tag, children, name, form);
    let unit = one_value(version, address_size, code, value);
    let encoding = Encoding { version, address_size, word: 4 };
    reveal_with_fuel(byte_range, 9);
    lemma_bytes_written(version as nat, 2);
    lemma_bytes_written(0, 4);
    lemma_leb128_is_short(code);
    lemma_leb128_is_short(index);
    // The length of the unit.
    lemma_bytes_written(unit.len(), 4);
    law_fixed_numbers_read_back(Seq::empty(), unit.len(), 4, unit);
    assert(info =~= Seq::<u8>::empty() + lowest_bytes(unit.len(), 4) + unit);
    assert(initial_length(info, 0) == Some((unit.len(), 4int, 4nat)));
    assert(info.subrange(4, 4 + unit.len() as int) =~= unit);
    // Its header and its root entry.
    law_unit_headers_read_back(version, 0, address_size, 4, leb128(code as nat) + value);
    let head = lowest_bytes(version as nat, 2) + lowest_bytes(0, 4) + seq![address_size];
    law_numbers_read_back(head, code as nat, value);
    assert(unit =~= head + leb128(code as nat) + value);
    let values = 7 + leb128(code as nat).len() as int;
    assert(root_code(unit, 7) == Some((code as nat, values)));
    // The abbreviation of the entry and its attribute.
    let attribute = leb128(name as nat) + leb128(form as nat);
    let abbreviation = leb128(code as nat) + leb128(tag as nat) + seq![children];
    law_abbreviations_read_back(
        Seq::empty(),
        code,
        tag,
        children,
        name,
        form,
        attribute + seq![0u8, 0u8],
    );
    assert(abbreviations =~= Seq::<u8>::empty() + abbreviation + (attribute + seq![0u8, 0u8]));
    let listed = abbreviation.len() as int;
    assert(attributes_of(abbreviations, 0, code as nat) == Some(listed));
    law_abbreviations_read_back(abbreviation, code, tag, children, name, form, seq![0u8, 0u8]);
    assert(abbreviations =~= abbreviation + attribute + seq![0u8, 0u8]);
    let last = listed + attribute.len() as int;
    lemma_list_ends(abbreviation + attribute);
    assert(abbreviations =~= (abbreviation + attribute) + seq![0u8, 0u8]);
    assert(attribute_at(abbreviations, last) == Some((0nat, 0nat, last + 2)));
    // The value.
    let front = head + leb128(code as nat);
    law_large_indices_are_found(front, index, Seq::empty(), 4);
    law_values_end_where_their_form_says(front, index, Seq::empty(), form as nat, 4);
    assert(unit =~= front + value + Seq::<u8>::empty());
    let found = (name == 0x03 || name == 0x1b) && index * 4 >= 0x1_0000_0000_0000_0000;
    let end = values + value.len() as int;
    assert(unit_value_end(unit, values, form as nat, encoding) == Some(end));
    assert(root(abbreviations, last, unit, end, encoding, found, None) == Some(
        (found, None::<nat>),
    ));
    assert(root(abbreviations, listed, unit, values, encoding, false, None) == Some(
        (found, None::<nat>),
    ));
    assert(unit_overflows(abbreviations, Seq::empty(), unit, 4) == Some(found));
    assert(!units_overflow(abbreviations, info, Seq::empty(), info.len() as int));
    assert(units_overflow(abbreviations, info, Seq::empty(), 0) == found);
    assert forall|i: int| !#[trigger] retreats_at(Seq::<u8>::empty(), i) by {}
}

/// Two zeros end a list of attributes.
proof fn lemma_list_ends(before: Seq<u8>)
    ensures
        attribute_at(before + seq![0u8, 0u8], before.len() as int) == Some(
            (0nat, 0nat, before.len() as int + 2),
        ),
{
    let data = before + seq![0u8, 0u8];
    assert(data[before.len() as int] == 0);
    assert(data[before.len() as int + 1] == 0);
}

/// A number of 64 bits has at most ten bytes in LEB128.
proof fn lemma_leb128_is_short(n: u64)
    ensures
        0 < leb128(n as nat).len() <= 10,
{
    reveal_with_fuel(leb128, 11);
}

} // verus!
