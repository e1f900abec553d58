use pretty_size::size::{sections_of, size, Section, SectionHeader, SectionTable, SizeError};

const SHDR_SIZE: usize = 64;
const EHDR_SIZE: usize = 64;

/// An ELF64 little-endian image with a null section, the given sections
/// (name offset, address, size) and a string table as its last section.
fn image(names: &[u8], sections: &[(u32, u64, u64)], shoff: u64, shstrndx: Option<u16>) -> Vec<u8> {
    let count = sections.len() + 2;
    let names_at = EHDR_SIZE + SHDR_SIZE * count;
    let mut out: Vec<u8> = Vec::new();
    out.extend_from_slice(&[0x7f, b'E', b'L', b'F', 2, 1, 1, 0]);
    out.extend_from_slice(&[0u8; 8]);
    out.extend_from_slice(&2u16.to_le_bytes());
    out.extend_from_slice(&0x3eu16.to_le_bytes());
    out.extend_from_slice(&1u32.to_le_bytes());
    out.extend_from_slice(&0u64.to_le_bytes());
    out.extend_from_slice(&0u64.to_le_bytes());
    out.extend_from_slice(&shoff.to_le_bytes());
    out.extend_from_slice(&0u32.to_le_bytes());
    out.extend_from_slice(&(EHDR_SIZE as u16).to_le_bytes());
    out.extend_from_slice(&0u16.to_le_bytes());
    out.extend_from_slice(&0u16.to_le_bytes());
    out.extend_from_slice(&(SHDR_SIZE as u16).to_le_bytes());
    out.extend_from_slice(&(count as u16).to_le_bytes());
    out.extend_from_slice(&shstrndx.unwrap_or((count - 1) as u16).to_le_bytes());
    assert_eq!(out.len(), EHDR_SIZE);
    out.extend_from_slice(&[0u8; SHDR_SIZE]);
    for (name, addr, size) in sections {
        header(&mut out, *name, 1, *addr, 0, *size);
    }
    header(&mut out, 0, 3, 0, names_at as u64, names.len() as u64);
    out.extend_from_slice(names);
    out
}

fn header(out: &mut Vec<u8>, name: u32, kind: u32, addr: u64, offset: u64, size: u64) {
    out.extend_from_slice(&name.to_le_bytes());
    out.extend_from_slice(&kind.to_le_bytes());
    out.extend_from_slice(&0u64.to_le_bytes());
    out.extend_from_slice(&addr.to_le_bytes());
    out.extend_from_slice(&offset.to_le_bytes());
    out.extend_from_slice(&size.to_le_bytes());
    out.extend_from_slice(&0u32.to_le_bytes());
    out.extend_from_slice(&0u32.to_le_bytes());
    out.extend_from_slice(&0u64.to_le_bytes());
    out.extend_from_slice(&0u64.to_le_bytes());
}

// Offsets: 1 ".text", 7 ".data", 13 ".bss", 18 ".comment", 27 ".shstrtab"
const NAMES: &[u8] = b"\0.text\0.data\0.bss\0.comment\0.shstrtab\0";

fn pairs(sections: &[Section]) -> Vec<(String, u32)> {
    sections.iter().map(|s| (s.0.clone(), s.1)).collect()
}

fn expect(items: &[(&str, u32)]) -> Vec<(String, u32)> {
    items.iter().map(|(n, s)| (n.to_string(), *s)).collect()
}

#[test]
fn size_lists_the_sections_that_take_up_memory() {
    let bytes = image(
        NAMES,
        &[
            (1, 0x0800_0000, 130000),
            (7, 0x2000_0000, 2000),
            (13, 0x2000_1000, 0),
            (18, 0, 64),
        ],
        EHDR_SIZE as u64,
        None,
    );
    let sections = size(&bytes).unwrap();
    assert_eq!(pairs(&sections), expect(&[(".text", 130000), (".data", 2000)]));
}

#[test]
fn size_keeps_the_order_of_the_table() {
    let bytes = image(
        NAMES,
        &[(13, 0x30, 3), (7, 0x20, 2), (1, 0x10, 1), (7, 0x40, 4)],
        EHDR_SIZE as u64,
        None,
    );
    let sections = size(&bytes).unwrap();
    assert_eq!(pairs(&sections), expect(&[(".bss", 3), (".data", 2), (".text", 1), (".data", 4)]));
}

#[test]
fn size_refuses_a_section_beyond_32_bits() {
    let bytes = image(
        NAMES,
        &[(1, 0x1000, 5), (7, 0x2000, 1u64 << 32)],
        EHDR_SIZE as u64,
        None,
    );
    assert_eq!(size(&bytes).err(), Some(SizeError::SectionTooLarge));
    let unloaded = image(NAMES, &[(1, 0x1000, 5), (7, 0, 1u64 << 32)], EHDR_SIZE as u64, None);
    assert_eq!(pairs(&size(&unloaded).unwrap()), expect(&[(".text", 5)]));
    let largest = image(NAMES, &[(1, 0x1000, u32::MAX as u64)], EHDR_SIZE as u64, None);
    assert_eq!(pairs(&size(&largest).unwrap()), expect(&[(".text", u32::MAX)]));
}

#[test]
fn size_of_an_image_without_loaded_sections_is_empty() {
    let bytes = image(NAMES, &[(18, 0, 64)], EHDR_SIZE as u64, None);
    assert!(size(&bytes).unwrap().is_empty());
}

#[test]
fn size_rejects_what_is_no_image() {
    assert!(matches!(size(b"not an image at all"), Err(SizeError::Malformed(_))));
    assert!(matches!(size(&[]), Err(SizeError::Malformed(_))));
    let mut cut = image(NAMES, &[(1, 0x10, 1)], EHDR_SIZE as u64, None);
    cut.truncate(EHDR_SIZE + 10);
    assert!(matches!(size(&cut), Err(SizeError::Malformed(_))));
    match size(b"\x7fELX and sixteen bytes") {
        Err(SizeError::Malformed(message)) => assert!(message.contains("Magic")),
        _ => panic!("accepted"),
    }
}

#[test]
fn size_needs_section_headers() {
    let bytes = image(NAMES, &[(1, 0x10, 1)], 0, None);
    assert_eq!(size(&bytes).err(), Some(SizeError::NoSectionHeaders));
}

#[test]
fn size_needs_a_string_table() {
    let bytes = image(NAMES, &[(1, 0x10, 1)], EHDR_SIZE as u64, Some(0));
    assert_eq!(size(&bytes).err(), Some(SizeError::NoStringTable));
}

#[test]
fn size_needs_a_name_for_each_loaded_section() {
    let bytes = image(NAMES, &[(1, 0x10, 1), (5000, 0x20, 2)], EHDR_SIZE as u64, None);
    assert_eq!(size(&bytes).err(), Some(SizeError::BadSectionName));
    let unloaded = image(NAMES, &[(1, 0x10, 1), (5000, 0, 2)], EHDR_SIZE as u64, None);
    assert_eq!(pairs(&size(&unloaded).unwrap()), expect(&[(".text", 1)]));
}

fn entry(name: Option<&str>, addr: u64, size: u64) -> SectionHeader {
    SectionHeader { name: name.map(|n| n.to_string()), addr, size }
}

#[test]
fn sections_of_filters_by_address_and_size() {
    let table = SectionTable {
        headers: Some(vec![
            entry(Some(""), 0, 0),
            entry(Some(".text"), 0x10, 100),
            entry(Some(".noaddr"), 0, 100),
            entry(Some(".nosize"), 0x20, 0),
            entry(None, 0, 7),
            entry(Some(".data"), 0x30, u32::MAX as u64),
        ]),
        has_names: true,
    };
    let sections = sections_of(table).unwrap();
    assert_eq!(pairs(&sections), expect(&[(".text", 100), (".data", u32::MAX)]));
}

#[test]
fn sections_of_gives_each_error_in_turn() {
    let none = SectionTable { headers: None, has_names: true };
    assert_eq!(sections_of(none).err(), Some(SizeError::NoSectionHeaders));
    let neither = SectionTable { headers: None, has_names: false };
    assert_eq!(sections_of(neither).err(), Some(SizeError::NoSectionHeaders));
    let nameless = SectionTable { headers: Some(vec![entry(None, 1, 1)]), has_names: false };
    assert_eq!(sections_of(nameless).err(), Some(SizeError::NoStringTable));
    let bad = SectionTable {
        headers: Some(vec![entry(Some("a"), 1, 1), entry(None, 1, 1), entry(Some("b"), 1, 1 << 40)]),
        has_names: true,
    };
    assert_eq!(sections_of(bad).err(), Some(SizeError::BadSectionName));
    let large = SectionTable {
        headers: Some(vec![entry(Some("b"), 1, 1 << 40), entry(None, 1, 1)]),
        has_names: true,
    };
    assert_eq!(sections_of(large).err(), Some(SizeError::SectionTooLarge));
    let both = SectionTable { headers: Some(vec![entry(None, 1, 1 << 40)]), has_names: true };
    assert_eq!(sections_of(both).err(), Some(SizeError::BadSectionName));
    let empty = SectionTable { headers: Some(Vec::new()), has_names: true };
    assert!(sections_of(empty).unwrap().is_empty());
}
