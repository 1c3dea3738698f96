//! The machine code of the target as text.
use vstd::prelude::*;

use capstone::arch::BuildsCapstone;

verus! {

/// The Thumb instructions that `code`, loaded at `address`, consists of up to
/// the first bytes that are none: the address and the text of each.
pub uninterp spec fn thumb_instructions(code: Seq<u8>, address: u64) -> Seq<(u64, Seq<char>)>;

/// The addresses and the characters of a listing.
pub open spec fn listing_view(listing: Seq<(u64, String)>) -> Seq<(u64, Seq<char>)> {
    Seq::new(listing.len(), |i: int| (listing[i].0, listing[i].1@))
}

/// Builds `capstone`'s disassembler for ARM Thumb code and calls its
/// `disasm_all`. Claimed: the addresses and the texts of the instructions
/// depend on the code and its address alone. Bytes that are no instruction end
/// the listing and are no failure; building and disassembling fail only for
/// want of memory, which ends the program, as it does wherever memory runs out.
#[verifier::external_body]
pub(crate) fn disassemble(code: &Vec<u8>, address: u64) -> (listing: Vec<(u64, String)>)
    ensures
        listing_view(listing@) == thumb_instructions(code@, address),
{
    let mode = capstone::arch::arm::ArchMode::Thumb;
    let engine = capstone::Capstone::new().arm().mode(mode).build();
    let engine = engine.expect("Failed to create Capstone object");
    let instructions = engine.disasm_all(code, address).expect("Failed to disassemble");
    instructions.iter().map(|i| (i.address(), i.to_string())).collect()
}

/// The listing with each address cut to 32 bits.
pub open spec fn short_listing(listing: Seq<(u64, Seq<char>)>) -> Seq<(u32, Seq<char>)> {
    Seq::new(listing.len(), |i: int| (listing[i].0 as u32, listing[i].1))
}

/// The addresses and the characters of a short listing.
pub open spec fn short_listing_view(listing: Seq<(u32, String)>) -> Seq<(u32, Seq<char>)> {
    Seq::new(listing.len(), |i: int| (listing[i].0, listing[i].1@))
}

/// The listing with each address cut to 32 bits.
pub fn shortened(listing: &Vec<(u64, String)>) -> (short: Vec<(u32, String)>)
    ensures
        short_listing_view(short@) == short_listing(listing_view(listing@)),
{
    let mut short: Vec<(u32, String)> = vec![];
    let mut i: usize = 0;
    while i < listing.len()
        invariant
            i <= listing@.len(),
            short@.len() == i,
            forall|j: int|
                #![trigger short@[j]]
                0 <= j < i ==> short@[j].0 == listing@[j].0 as u32 && short@[j].1@
                    == listing@[j].1@,
        decreases listing@.len() - i,
    {
        let address: u32 = #[verifier::truncate] (listing[i].0 as u32);
        let text = listing[i].1.clone();
        short.push((address, text));
        i = i + 1;
    }
    assert(short_listing_view(short@) =~= short_listing(listing_view(listing@)));
    short
}

} // verus!
