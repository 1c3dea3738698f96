use embedded_rust_debugger::debug_information::{DwarfSections, Section};

use gimli::write::{Address, DwarfUnit, EndianVec, LineProgram, LineString, Sections};

/// 2^62 in LEB128.
const LARGE: [u8; 9] = [0x80, 0x80, 0x80, 0x80, 0x80, 0x80, 0x80, 0x80, 0x40];

/// 2^62 - 1 in LEB128.
const LARGEST: [u8; 9] = [0xff, 0xff, 0xff, 0xff, 0xff, 0xff, 0xff, 0xff, 0x3f];

/// 2^61 in LEB128.
const LARGE_FOR_WIDE: [u8; 9] = [0x80, 0x80, 0x80, 0x80, 0x80, 0x80, 0x80, 0x80, 0x20];

/// 2^61 - 1 in LEB128.
const LARGEST_FOR_WIDE: [u8; 9] = [0xff, 0xff, 0xff, 0xff, 0xff, 0xff, 0xff, 0xff, 0x1f];

/// 2^63 in LEB128.
const TEN_BYTES: [u8; 10] = [0x80, 0x80, 0x80, 0x80, 0x80, 0x80, 0x80, 0x80, 0x80, 0x01];

fn is_searchable(sections: Vec<(&str, Vec<u8>)>) -> bool {
    let sections = sections
        .into_iter()
        .map(|(name, data)| Section { name: name.to_string(), data })
        .collect();
    DwarfSections { sections }.is_searchable()
}

fn written(version: u16, format: gimli::Format) -> Vec<(String, Vec<u8>)> {
    let encoding = gimli::Encoding { format, version, address_size: 4 };
    let mut dwarf = DwarfUnit::new(encoding);
    let mut program = LineProgram::new(
        encoding,
        gimli::LineEncoding::default(),
        LineString::String(b"/work".to_vec()),
        LineString::String(b"main.rs".to_vec()),
        None,
    );
    let directory = program.add_directory(LineString::String(b"src".to_vec()));
    let file = program.add_file(LineString::String(b"lib.rs".to_vec()), directory, None);
    program.begin_sequence(Some(Address::Constant(0x8000)));
    program.row().file = file;
    program.row().line = 7;
    program.generate_row();
    program.end_sequence(4);
    dwarf.unit.line_program = program;
    let mut sections = Sections::new(EndianVec::new(gimli::LittleEndian));
    dwarf.write(&mut sections).unwrap();
    let mut all = vec![];
    sections
        .for_each(|id, data| -> Result<(), gimli::Error> {
            all.push((id.name().to_string(), data.slice().to_vec()));
            Ok(())
        })
        .unwrap();
    all
}

#[test]
fn sections_that_are_written_can_be_searched() {
    assert!(is_searchable(vec![]));
    for version in 2..6 {
        for format in vec![gimli::Format::Dwarf32, gimli::Format::Dwarf64] {
            let sections = written(version, format);
            assert!(is_searchable(
                sections.iter().map(|(name, data)| (name.as_str(), data.clone())).collect()
            ));
        }
    }
}

#[test]
fn a_line_taken_back_too_far_cannot_be_searched() {
    let mut data = vec![0x01, 0x03];
    data.extend(vec![0x80; 9]);
    data.push(0x7f);
    data.push(0x01);
    assert!(!is_searchable(vec![(".debug_line", data.clone())]));
    assert!(is_searchable(vec![(".debug_info", data.clone())]));
    let mut other = data.clone();
    other[1] = 0x02;
    assert!(is_searchable(vec![(".debug_line", other)]));
    let mut nearly = data.clone();
    nearly[2] = 0x81;
    assert!(is_searchable(vec![(".debug_line", nearly)]));
    data.truncate(11);
    assert!(is_searchable(vec![(".debug_line", data)]));
}

/// The list of an abbreviation without attributes, and of one with these.
fn abbreviations(attributes: &[u8]) -> Vec<u8> {
    let mut data = vec![0x02, 0x24, 0x01, 0x49, 0x21, 0x81, 0x01, 0x00, 0x00, 0x01, 0x11, 0x00];
    data.extend(attributes.to_vec());
    data.extend(vec![0x00, 0x00, 0x00]);
    data
}

/// A unit of that version whose root entry has these values.
fn unit(version: u8, values: &[u8]) -> Vec<u8> {
    let mut rest = vec![version, 0];
    if version == 5 {
        rest.extend(vec![1, 4, 0, 0, 0, 0]);
    } else {
        rest.extend(vec![0, 0, 0, 0, 4]);
    }
    rest.extend(vec![0x00, 0x01]);
    rest.extend(values.to_vec());
    let mut data = vec![rest.len() as u8, 0, 0, 0];
    data.extend(rest);
    data
}

/// The same with offsets of 64 bits.
fn wide_unit(values: &[u8]) -> Vec<u8> {
    let mut rest = vec![4, 0, 0, 0, 0, 0, 0, 0, 0, 0, 4, 0x01];
    rest.extend(values.to_vec());
    let mut data = vec![0xff, 0xff, 0xff, 0xff, rest.len() as u8, 0, 0, 0, 0, 0, 0, 0];
    data.extend(rest);
    data
}

fn is_unit_searchable(attributes: &[u8], info: Vec<u8>) -> bool {
    is_searchable(vec![(".debug_abbrev", abbreviations(attributes)), (".debug_info", info)])
}

#[test]
fn units_named_by_a_large_index_cannot_be_searched() {
    for version in 2..6 {
        assert!(!is_unit_searchable(&[0x03, 0x1a], unit(version, &LARGE)));
        assert!(!is_unit_searchable(&[0x1b, 0x1a], unit(version, &LARGE)));
        assert!(!is_unit_searchable(&[0x03, 0x9a, 0x80, 0x00], unit(version, &LARGE)));
        assert!(!is_unit_searchable(&[0x03, 0x82, 0x3e], unit(version, &TEN_BYTES)));
        assert!(is_unit_searchable(&[0x03, 0x1a], unit(version, &LARGEST)));
        assert!(is_unit_searchable(&[0x25, 0x1a], unit(version, &LARGE)));
        assert!(is_unit_searchable(&[0x03, 0x0f], unit(version, &LARGE)));
    }
    assert!(is_unit_searchable(&[0x03, 0x1a], vec![]));
    assert!(is_unit_searchable(&[0x03, 0x1a], unit(6, &LARGE)));
}

#[test]
fn the_limit_depends_on_the_size_of_offsets() {
    assert!(is_unit_searchable(&[0x03, 0x1a], unit(4, &LARGE_FOR_WIDE)));
    assert!(!is_unit_searchable(&[0x03, 0x1a], wide_unit(&LARGE_FOR_WIDE)));
    assert!(is_unit_searchable(&[0x03, 0x1a], wide_unit(&LARGEST_FOR_WIDE)));
}

#[test]
fn forms_that_stand_with_the_value_are_followed() {
    let mut values = vec![0x16, 0x1a];
    values.extend(LARGE.to_vec());
    assert!(!is_unit_searchable(&[0x03, 0x16], unit(4, &values)));
    assert!(is_unit_searchable(&[0x25, 0x16], unit(4, &values)));
    values[1] = 0x0f;
    assert!(is_unit_searchable(&[0x03, 0x16], unit(4, &values)));
}

#[test]
fn later_units_are_read() {
    let mut info = unit(4, &[0x07]);
    info.extend(unit(4, &LARGE));
    assert!(!is_unit_searchable(&[0x03, 0x1a], info.clone()));
    info[4] = 9;
    assert!(is_unit_searchable(&[0x03, 0x1a], info));
}

#[test]
fn large_numbers_elsewhere_can_be_searched() {
    let mut values = vec![0x07];
    values.extend(LARGE.to_vec());
    assert!(is_unit_searchable(&[0x03, 0x1a], unit(4, &values)));
    assert!(is_unit_searchable(&[0x03, 0x1a, 0x25, 0x0f], unit(4, &values)));
}

#[test]
fn values_of_all_forms_of_units_are_passed() {
    let forms: Vec<(Vec<u8>, Vec<u8>)> = vec![
        (vec![0x01], vec![9; 4]),
        (vec![0x0a], vec![2, 9, 9]),
        (vec![0x03], vec![2, 0, 9, 9]),
        (vec![0x04], vec![2, 0, 0, 0, 9, 9]),
        (vec![0x09], vec![0x82, 0x00, 9, 9]),
        (vec![0x18], vec![2, 9, 9]),
        (vec![0x0b], vec![9]),
        (vec![0x05], vec![9; 2]),
        (vec![0x06], vec![9; 4]),
        (vec![0x07], vec![9; 8]),
        (vec![0x1e], vec![9; 16]),
        (vec![0x0f], vec![0x81, 0x01]),
        (vec![0x0d], vec![0x81, 0x7f]),
        (vec![0x0c], vec![1]),
        (vec![0x19], vec![]),
        (vec![0x21, 0x85, 0x01], vec![]),
        (vec![0x17], vec![9; 4]),
        (vec![0x10], vec![9; 4]),
        (vec![0x11], vec![9]),
        (vec![0x12], vec![9; 2]),
        (vec![0x13], vec![9; 4]),
        (vec![0x14], vec![9; 8]),
        (vec![0x15], vec![0x81, 0x01]),
        (vec![0x20], vec![9; 8]),
        (vec![0x1c], vec![9; 4]),
        (vec![0x24], vec![9; 8]),
        (vec![0xa0, 0x3e], vec![9; 4]),
        (vec![0x08], vec![9, 9, 0]),
        (vec![0x0e], vec![9; 4]),
        (vec![0x1d], vec![9; 4]),
        (vec![0xa1, 0x3e], vec![9; 4]),
        (vec![0x1f], vec![9; 4]),
        (vec![0x1a], vec![0x81, 0x01]),
        (vec![0x25], vec![9]),
        (vec![0x26], vec![9; 2]),
        (vec![0x27], vec![9; 3]),
        (vec![0x28], vec![9; 4]),
        (vec![0x1b], vec![0x81, 0x01]),
        (vec![0x81, 0x3e], vec![0x81, 0x01]),
        (vec![0x29], vec![9]),
        (vec![0x2a], vec![9; 2]),
        (vec![0x2b], vec![9; 3]),
        (vec![0x2c], vec![9; 4]),
        (vec![0x22], vec![0x81, 0x01]),
        (vec![0x23], vec![0x81, 0x01]),
    ];
    for (form, value) in forms {
        let mut attributes = vec![0x49];
        attributes.extend(form.clone());
        attributes.extend(vec![0x03, 0x1a]);
        let mut values = value.clone();
        values.extend(LARGE.to_vec());
        assert!(!is_unit_searchable(&attributes, unit(4, &values)), "{:?}", form);
    }
    assert!(is_unit_searchable(&[0x49, 0x02, 0x03, 0x1a], unit(4, &LARGE)));
}

/// A line number program of that version with one directory and one file, each
/// a path of the given form and value.
fn program(version: u8, directory: (u8, &[u8]), file: (u8, &[u8])) -> Vec<u8> {
    let mut header = vec![1, 1, 1, 0xfb, 14, 2, 0];
    for (form, value) in vec![directory, file] {
        header.extend(vec![2, 2, 0x0b, 1, form, 1, 9]);
        header.extend(value.to_vec());
    }
    let mut unit = vec![version, 0, 4, 0, header.len() as u8, 0, 0, 0];
    unit.extend(header);
    let mut data = vec![0xaa, unit.len() as u8, 0, 0, 0];
    data.extend(unit);
    data
}

/// Whether a unit whose line number program this is can be searched.
fn is_program_searchable(line: Vec<u8>) -> bool {
    is_searchable(vec![
        (".debug_abbrev", abbreviations(&[0x10, 0x17])),
        (".debug_info", unit(5, &[1, 0, 0, 0])),
        (".debug_line", line),
    ])
}

#[test]
fn paths_given_by_a_large_index_cannot_be_searched() {
    let name: &[u8] = b"a\0";
    assert!(is_program_searchable(program(5, (0x08, name), (0x08, name))));
    assert!(!is_program_searchable(program(5, (0x1a, &LARGE), (0x08, name))));
    assert!(!is_program_searchable(program(5, (0x08, name), (0x1a, &LARGE))));
    assert!(!is_program_searchable(program(5, (0x08, name), (0x1a, &TEN_BYTES))));
    assert!(is_program_searchable(program(5, (0x1a, &LARGEST), (0x1a, &LARGEST))));
    assert!(is_program_searchable(program(5, (0x0f, &LARGE), (0x0f, &LARGE))));
    assert!(is_program_searchable(program(4, (0x1a, &LARGE), (0x1a, &LARGE))));
    let mut cut = program(5, (0x08, name), (0x1a, &LARGE));
    cut.pop();
    assert!(is_program_searchable(cut));
}

#[test]
fn values_of_all_forms_are_passed() {
    let forms: Vec<(u8, Vec<u8>)> = vec![
        (0x0a, vec![2, 9, 9]),
        (0x03, vec![2, 0, 9, 9]),
        (0x04, vec![2, 0, 0, 0, 9, 9]),
        (0x09, vec![0x82, 0x00, 9, 9]),
        (0x0b, vec![9]),
        (0x0c, vec![9]),
        (0x05, vec![9; 2]),
        (0x06, vec![9; 4]),
        (0x07, vec![9; 8]),
        (0x1e, vec![9; 16]),
        (0x0f, vec![0x81, 0x01]),
        (0x0d, vec![0x81, 0x7f]),
        (0x17, vec![9; 4]),
        (0x08, vec![9, 9, 0]),
        (0x0e, vec![9; 4]),
        (0x1d, vec![9; 4]),
        (0x1f, vec![9; 4]),
        (0x1a, vec![0x81, 0x01]),
        (0x25, vec![9]),
        (0x26, vec![9; 2]),
        (0x27, vec![9; 3]),
        (0x28, vec![9; 4]),
    ];
    for (form, value) in forms {
        let data = program(5, (form, &value), (0x1a, &LARGE));
        assert!(!is_program_searchable(data), "{}", form);
    }
    let unknown = program(5, (0x18, &[1, 9]), (0x1a, &LARGE));
    assert!(is_program_searchable(unknown));
}

#[test]
fn programs_of_no_unit_are_not_read() {
    let data = program(5, (0x08, b"a\0"), (0x1a, &LARGE));
    assert!(!is_program_searchable(data.clone()));
    assert!(is_searchable(vec![(".debug_line", data.clone())]));
    assert!(is_searchable(vec![
        (".debug_abbrev", abbreviations(&[0x10, 0x17])),
        (".debug_info", unit(5, &[2, 0, 0, 0])),
        (".debug_line", data),
    ]));
}
