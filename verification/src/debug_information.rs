//! The debug information of a program, and what is looked up in it.
use vstd::prelude::*;

use rust_debug::source_information;

use crate::malformed::{is_read_without_overflow, reads_without_overflow};

verus! {

/// A section of a program file.
#[derive(Debug)]
pub struct Section {
    pub name: String,
    pub data: Vec<u8>,
}

/// The DWARF sections of a program file, in little-endian byte order.
#[derive(Debug)]
pub struct DwarfSections {
    pub sections: Vec<Section>,
}

impl View for DwarfSections {
    type V = Seq<(Seq<char>, Seq<u8>)>;

    open spec fn view(&self) -> Seq<(Seq<char>, Seq<u8>)> {
        Seq::new(
            self.sections@.len(),
            |i: int| (self.sections@[i].name@, self.sections@[i].data@),
        )
    }
}

/// The bytes of the first section called `name`; none where there is no such
/// section.
pub open spec fn section_data(sections: Seq<(Seq<char>, Seq<u8>)>, name: Seq<char>) -> Seq<u8>
    decreases sections.len(),
{
    if sections.len() == 0 {
        Seq::empty()
    } else if sections.first().0 == name {
        sections.first().1
    } else {
        section_data(sections.drop_first(), name)
    }
}

impl DwarfSections {
    /// The bytes of the first section called `name`; none where there is no
    /// such section.
    pub fn section(&self, name: &str) -> (data: &[u8])
        ensures
            data@ == section_data(self@, name@),
    {
        let wanted = name.to_owned();
        let mut i: usize = 0;
        assert(self@.skip(0) =~= self@);
        while i < self.sections.len()
            invariant
                wanted@ == name@,
                i <= self.sections@.len(),
                section_data(self@, name@) == section_data(self@.skip(i as int), name@),
            decreases self.sections@.len() - i,
        {
            assert(self@.skip(i as int).drop_first() =~= self@.skip(i + 1));
            if self.sections[i].name == wanted {
                return self.sections[i].data.as_slice();
            }
            i = i + 1;
        }
        let none: &[u8] = &[];
        assert(none@ =~= Seq::empty());
        none
    }
}

/// The sections can be searched for source lines. The search reads numbers of
/// 64 bits, which a `usize` has to hold, and none of them may overflow.
pub open spec fn searchable(sections: Seq<(Seq<char>, Seq<u8>)>) -> bool {
    &&& usize::BITS == 64
    &&& reads_without_overflow(
        section_data(sections, ".debug_abbrev"@),
        section_data(sections, ".debug_info"@),
        section_data(sections, ".debug_line"@),
    )
}

impl DwarfSections {
    /// Whether the sections can be searched for source lines.
    pub fn is_searchable(&self) -> (yes: bool)
        ensures
            yes == searchable(self@),
    {
        usize::BITS == 64 && is_read_without_overflow(
            self.section(".debug_abbrev"),
            self.section(".debug_info"),
            self.section(".debug_line"),
        )
    }
}

/// The machine code address that stands for a line of a source file, and,
/// where one is given, a column: no value where the search failed, and no
/// address where there is none.
pub uninterp spec fn breakpoint_location(
    sections: Seq<(Seq<char>, Seq<u8>)>,
    cwd: Seq<char>,
    path: Seq<char>,
    line: u64,
    column: Option<u64>,
) -> Option<Option<u64>>;

/// The address that was looked up; no value where the search failed.
pub open spec fn looked_up(result: Result<Option<u64>, String>) -> Option<Option<u64>> {
    match result {
        Ok(location) => Some(location),
        Err(_) => None,
    }
}

/// Calls `find_breakpoint_location` of `rust_debug::source_information`, on
/// the `gimli::Dwarf` that the sections make. Claimed: whether the search
/// succeeds, and the address that it finds, depend on the sections, the work
/// directory, the path, the line and the column alone. Nothing is claimed of
/// the message of a search that fails.
///
/// `gimli` overflows, and panics where it was built with overflow checks, in two
/// places that the search reaches: where a line number program takes the line
/// back by 2^63, and where the name or the directory of a unit, or a path in the
/// header of its line number program, is given by an index into the table of
/// string offsets whose position has more than 64 bits. Where `usize` has less
/// than 64 bits, it also cuts the numbers of files and directories. None of this
/// happens to sections that are `searchable`.
#[verifier::external_body]
pub(crate) fn find_breakpoint_location(
    dwarf: &DwarfSections,
    cwd: &str,
    path: &str,
    line: u64,
    column: Option<u64>,
) -> (result: Result<Option<u64>, String>)
    requires
        searchable(dwarf@),
    ensures
        looked_up(result) == breakpoint_location(dwarf@, cwd@, path@, line, column),
{
    let load = |id: gimli::SectionId| -> Result<_, gimli::Error> {
        Ok(gimli::EndianSlice::new(dwarf.section(id.name()), gimli::LittleEndian))
    };
    let none = |_| Ok(gimli::EndianSlice::new(&[], gimli::LittleEndian));
    let dwarf = gimli::Dwarf::load(load, none).map_err(|e| format!("{:?}", e))?;
    source_information::find_breakpoint_location(&dwarf, cwd, path, line, column).map_err(
        |e| format!("{:?}", e),
    )
}

/// The debug information that a session works with.
#[derive(Debug)]
pub struct DebugInformation<'a> {
    pub dwarf: &'a DwarfSections,
    pub debug_frame: &'a Vec<u8>,
    pub breakpoints: Vec<u32>,
}

impl<'a> Clone for DebugInformation<'a> {
    fn clone(&self) -> (copy: Self)
        ensures
            copy.dwarf == self.dwarf,
            copy.debug_frame == self.debug_frame,
            copy.breakpoints@ == self.breakpoints@,
    {
        DebugInformation {
            dwarf: self.dwarf,
            debug_frame: self.debug_frame,
            breakpoints: self.breakpoints.clone(),
        }
    }
}

impl<'a> DebugInformation<'a> {
    /// The debug information in these sections.
    pub fn new(dwarf: &'a DwarfSections, debug_frame: &'a Vec<u8>) -> (info: DebugInformation<'a>)
        ensures
            info.dwarf == dwarf,
            info.debug_frame == debug_frame,
            info.breakpoints@ == Seq::<u32>::empty(),
    {
        DebugInformation { dwarf, debug_frame, breakpoints: vec![] }
    }
}

/// The bytes of a section are those of the first that has the name; where none
/// has, there are none.
pub proof fn law_sections_are_found_by_name(
    sections: Seq<(Seq<char>, Seq<u8>)>,
    name: Seq<char>,
    i: int,
)
    ensures
        0 <= i < sections.len() && sections[i].0 == name && (forall|j: int|
            0 <= j < i ==> (#[trigger] sections[j]).0 != name) ==> section_data(sections, name)
            == sections[i].1,
        (forall|j: int| 0 <= j < sections.len() ==> (#[trigger] sections[j]).0 != name)
            ==> section_data(sections, name).len() == 0,
    decreases sections.len(),
{
    if sections.len() > 0 {
        let rest = sections.drop_first();
        law_sections_are_found_by_name(rest, name, i - 1);
        assert(sections.first() == sections[0]);
        assert(forall|j: int| 0 <= j < rest.len() ==> #[trigger] rest[j] == sections[j + 1]);
    }
}

/// The view of the sections has their names and their bytes, in their order.
pub proof fn law_views_hold_what_sections_hold(dwarf: DwarfSections, i: int)
    requires
        0 <= i < dwarf.sections@.len(),
    ensures
        dwarf@.len() == dwarf.sections@.len(),
        dwarf@[i].0 == dwarf.sections@[i].name@,
        dwarf@[i].1 == dwarf.sections@[i].data@,
{
}

} // verus!
