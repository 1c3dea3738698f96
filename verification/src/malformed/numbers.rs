//! Numbers, texts and blocks as DWARF sections hold them.
use vstd::prelude::*;

use crate::evaluator::byte_range;

verus! {

/// The number of `size` bytes at `at`, least significant byte first.
pub open spec fn fixed_number(data: Seq<u8>, at: int, size: nat) -> nat
    decreases size,
{
    if size == 0 {
        0
    } else {
        data[at] as nat + 256 * fixed_number(data, at + 1, (size - 1) as nat)
    }
}

/// The number in LEB128 at `at`, and the position behind it: seven bits in each
/// byte, least significant first, with the eighth bit set in all but the last.
/// It has at most `left` bytes, and the last of as many is at most `top`.
pub open spec fn number(data: Seq<u8>, at: int, left: nat, top: u8) -> Option<(nat, int)>
    decreases left,
{
    if left == 0 || at < 0 || at >= data.len() || (left == 1 && data[at] > top) {
        None
    } else if data[at] < 128 {
        Some((data[at] as nat, at + 1))
    } else {
        match number(data, at + 1, (left - 1) as nat, top) {
            Some((rest, end)) => Some(((data[at] - 128) as nat + 128 * rest, end)),
            None => None,
        }
    }
}

/// The number of up to 64 bits at `at`, and the position behind it.
pub open spec fn long_number(data: Seq<u8>, at: int) -> Option<(nat, int)> {
    number(data, at, 10, 1)
}

/// The number of up to 16 bits at `at`, and the position behind it.
pub open spec fn short_number(data: Seq<u8>, at: int) -> Option<(nat, int)> {
    number(data, at, 3, 3)
}

/// The position behind the first byte from `at` on that ends a number.
pub open spec fn number_end(data: Seq<u8>, at: int) -> Option<int>
    decreases data.len() - at,
{
    if at < 0 || at >= data.len() {
        None
    } else if data[at] < 128 {
        Some(at + 1)
    } else {
        number_end(data, at + 1)
    }
}

/// The position behind the first zero from `at` on.
pub open spec fn text_end(data: Seq<u8>, at: int) -> Option<int>
    decreases data.len() - at,
{
    if at < 0 || at >= data.len() {
        None
    } else if data[at] == 0 {
        Some(at + 1)
    } else {
        text_end(data, at + 1)
    }
}

/// The length of what starts at `at`, the position where it starts, and the
/// size of an offset in it.
pub open spec fn initial_length(data: Seq<u8>, at: int) -> Option<(nat, int, nat)> {
    if at < 0 || at + 4 > data.len() {
        None
    } else {
        let short = fixed_number(data, at, 4);
        if short < 0xffff_fff0 {
            Some((short, at + 4, 4))
        } else if short == 0xffff_ffff && at + 12 <= data.len() {
            Some((fixed_number(data, at + 4, 8), at + 12, 8))
        } else {
            None
        }
    }
}

/// A number has at least one byte, and lies within the data.
pub proof fn lemma_number_ends_behind(data: Seq<u8>, at: int, left: nat, top: u8)
    ensures
        number(data, at, left, top) matches Some((_, end)) ==> at < end <= data.len(),
    decreases left,
{
    if left > 0 && 0 <= at < data.len() {
        lemma_number_ends_behind(data, at + 1, (left - 1) as nat, top);
    }
}

/// The same of where a number ends.
pub proof fn lemma_number_end_behind(data: Seq<u8>, at: int)
    ensures
        number_end(data, at) matches Some(end) ==> at < end <= data.len(),
    decreases data.len() - at,
{
    if 0 <= at < data.len() {
        lemma_number_end_behind(data, at + 1);
    }
}

/// The number of `size` bytes at `at`.
pub(crate) fn read_fixed(data: &[u8], at: usize, size: usize) -> (n: u64)
    requires
        at + size <= data@.len(),
        size <= 8,
    ensures
        n == fixed_number(data@, at as int, size as nat),
        n < byte_range(size as nat),
    decreases size,
{
    if size == 0 {
        return 0;
    }
    assert(at < data.len());
    let rest = read_fixed(data, at + 1, size - 1);
    proof {
        lemma_byte_range(size as nat);
    }
    data[at] as u64 + 256 * rest
}

proof fn lemma_byte_range(size: nat)
    requires
        0 < size <= 8,
    ensures
        byte_range(size) == 256 * byte_range((size - 1) as nat),
        byte_range(size) <= 0x1_0000_0000_0000_0000,
{
    reveal_with_fuel(byte_range, 9);
}

/// The numbers of at most `left` bytes, the last of as many at most `top`, are
/// below this one.
spec fn number_limit(left: nat, top: u8) -> nat
    decreases left,
{
    if left <= 1 {
        top as nat + 1
    } else {
        128 * number_limit((left - 1) as nat, top)
    }
}

proof fn lemma_number_limit(left: nat, top: u8)
    ensures
        number_limit(left, top) > top,
        left > 1 ==> number_limit(left, top) >= 128,
    decreases left,
{
    if left > 1 {
        lemma_number_limit((left - 1) as nat, top);
    }
}

/// The number in LEB128 at `at`, and the position behind it.
fn read_number(data: &[u8], at: usize, left: u8, top: u8) -> (result: Option<(u64, usize)>)
    requires
        number_limit(left as nat, top) <= 0x1_0000_0000_0000_0000,
        top < 128,
    ensures
        match result {
            Some((n, end)) => {
                &&& number(data@, at as int, left as nat, top) == Some((n as nat, end as int))
                &&& n < number_limit(left as nat, top)
                &&& at < end <= data@.len()
            },
            None => number(data@, at as int, left as nat, top) is None,
        },
    decreases left,
{
    proof {
        lemma_number_limit(left as nat, top);
    }
    if left == 0 || at >= data.len() || (left == 1 && data[at] > top) {
        None
    } else if data[at] < 128 {
        Some((data[at] as u64, at + 1))
    } else {
        match read_number(data, at + 1, left - 1, top) {
            Some((rest, end)) => Some(((data[at] - 128) as u64 + 128 * rest, end)),
            None => None,
        }
    }
}

/// The number of up to 64 bits at `at`, and the position behind it.
pub(crate) fn read_long(data: &[u8], at: usize) -> (result: Option<(u64, usize)>)
    ensures
        match result {
            Some((n, end)) => long_number(data@, at as int) == Some((n as nat, end as int)) && at
                < end <= data@.len(),
            None => long_number(data@, at as int) is None,
        },
{
    proof {
        reveal_with_fuel(number_limit, 10);
    }
    read_number(data, at, 10, 1)
}

/// The number of up to 16 bits at `at`, and the position behind it.
pub(crate) fn read_short(data: &[u8], at: usize) -> (result: Option<(u16, usize)>)
    ensures
        match result {
            Some((n, end)) => short_number(data@, at as int) == Some((n as nat, end as int)) && at
                < end <= data@.len(),
            None => short_number(data@, at as int) is None,
        },
{
    proof {
        reveal_with_fuel(number_limit, 3);
    }
    match read_number(data, at, 3, 3) {
        Some((n, end)) => Some((n as u16, end)),
        None => None,
    }
}

/// The position `size` bytes behind `at`, where there are as many.
pub(crate) fn skip(data: &[u8], at: usize, size: u64) -> (end: Option<usize>)
    requires
        at <= data@.len(),
    ensures
        match end {
            Some(end) => end == at + size && end <= data@.len(),
            None => at + size > data@.len(),
        },
{
    if size <= (data.len() - at) as u64 {
        Some(at + size as usize)
    } else {
        None
    }
}

/// The position behind the first byte from `at` on that ends a number.
pub(crate) fn skip_number(data: &[u8], at: usize) -> (end: Option<usize>)
    ensures
        match end {
            Some(end) => number_end(data@, at as int) == Some(end as int) && end <= data@.len(),
            None => number_end(data@, at as int) is None,
        },
{
    let mut i: usize = at;
    while i < data.len()
        invariant
            number_end(data@, at as int) == number_end(data@, i as int),
        decreases data@.len() - i,
    {
        if data[i] < 128 {
            return Some(i + 1);
        }
        i = i + 1;
    }
    None
}

/// The position behind the first zero from `at` on.
pub(crate) fn skip_text(data: &[u8], at: usize) -> (end: Option<usize>)
    ensures
        match end {
            Some(end) => text_end(data@, at as int) == Some(end as int) && end <= data@.len(),
            None => text_end(data@, at as int) is None,
        },
{
    let mut i: usize = at;
    while i < data.len()
        invariant
            text_end(data@, at as int) == text_end(data@, i as int),
        decreases data@.len() - i,
    {
        if data[i] == 0 {
            return Some(i + 1);
        }
        i = i + 1;
    }
    None
}

/// The position behind a block whose size is a number of `size` bytes at `at`.
pub(crate) fn skip_block(data: &[u8], at: usize, size: usize) -> (end: Option<usize>)
    requires
        at <= data@.len(),
        size <= 4,
    ensures
        match end {
            Some(end) => end == at + size + fixed_number(data@, at as int, size as nat) && end
                <= data@.len(),
            None => at + size + fixed_number(data@, at as int, size as nat) > data@.len(),
        },
{
    if size > data.len() - at {
        return None;
    }
    let length = read_fixed(data, at, size);
    skip(data, at + size, length)
}

/// The length of what starts at `at`, the position where it starts, and the
/// size of an offset in it.
pub(crate) fn read_initial_length(data: &[u8], at: usize) -> (result: Option<(u64, usize, usize)>)
    requires
        at <= data@.len(),
    ensures
        match result {
            Some((size, start, word)) => {
                &&& initial_length(data@, at as int) == Some(
                    (size as nat, start as int, word as nat),
                )
                &&& at < start <= data@.len()
                &&& word == 4 || word == 8
            },
            None => initial_length(data@, at as int) is None,
        },
{
    if data.len() - at < 4 {
        return None;
    }
    let short = read_fixed(data, at, 4);
    if short < 0xffff_fff0 {
        Some((short, at + 4, 4))
    } else if short == 0xffff_ffff && data.len() - at >= 12 {
        Some((read_fixed(data, at + 4, 8), at + 12, 8))
    } else {
        None
    }
}

} // verus!
