//! The sections of an ELF image that take up memory, each with its size in
//! bytes.

use crate::find::{first_match, lemma_first_match_is, lemma_first_match_none};
use vstd::prelude::*;

verus! {

/// A section as a region reports it: its name, then its size in bytes.
#[derive(Debug, Clone)]
pub struct Section(pub String, pub u32);

/// The mathematical value of a [`Section`].
pub struct SectionView {
    pub name: Seq<char>,
    pub size: nat,
}

impl View for Section {
    type V = SectionView;

    open spec fn view(&self) -> SectionView {
        SectionView { name: self.0@, size: self.1 as nat }
    }
}

/// The values of a sequence of sections, in order.
pub open spec fn sections_view(sections: Seq<Section>) -> Seq<SectionView> {
    sections.map_values(|s: Section| s@)
}

impl Section {
    /// A section of the given name and size.
    pub fn new(name: String, size: u32) -> (s: Section)
        ensures
            s@ == (SectionView { name: name@, size: size as nat }),
    {
        Section(name, size)
    }

    /// A copy with the same name and size.
    pub fn duplicate(&self) -> (s: Section)
        ensures
            s@ == self@,
    {
        Section(self.0.clone(), self.1)
    }
}

/// One entry of the section header table of an image: the section's name
/// where the string table gives one, its address and its size.
#[derive(Debug, Clone)]
pub struct SectionHeader {
    pub name: Option<String>,
    pub addr: u64,
    pub size: u64,
}

/// The mathematical value of a [`SectionHeader`].
pub struct SectionHeaderView {
    pub name: Option<Seq<char>>,
    pub addr: nat,
    pub size: nat,
}

impl View for SectionHeader {
    type V = SectionHeaderView;

    open spec fn view(&self) -> SectionHeaderView {
        SectionHeaderView {
            name: match self.name {
                Some(n) => Some(n@),
                None => None,
            },
            addr: self.addr as nat,
            size: self.size as nat,
        }
    }
}

/// What an image holds of its sections: the entries of its section header
/// table, where it has one, and whether it has a string table for their names.
#[derive(Debug, Clone)]
pub struct SectionTable {
    pub headers: Option<Vec<SectionHeader>>,
    pub has_names: bool,
}

/// The mathematical value of a [`SectionTable`].
pub struct SectionTableView {
    pub headers: Option<Seq<SectionHeaderView>>,
    pub has_names: bool,
}

impl View for SectionTable {
    type V = SectionTableView;

    open spec fn view(&self) -> SectionTableView {
        SectionTableView {
            headers: match self.headers {
                Some(list) => Some(list@.map_values(|h: SectionHeader| h@)),
                None => None,
            },
            has_names: self.has_names,
        }
    }
}

/// Why the sections of an image could not be listed.
#[derive(Debug, Clone, PartialEq, Eq)]
pub enum SizeError {
    /// The bytes are no ELF image, or its section headers cannot be located.
    /// The message is the ELF reader's own.
    Malformed(String),
    /// The image has no section header table.
    NoSectionHeaders,
    /// The image has no string table for the names of its sections.
    NoStringTable,
    /// The string table holds no name for a section that takes up memory.
    BadSectionName,
    /// A section that takes up memory is larger than a section's size can
    /// hold.
    SectionTooLarge,
}

/// The kinds of failure that a [`SizeError`] stands for.
pub enum SizeFault {
    Malformed,
    NoSectionHeaders,
    NoStringTable,
    BadSectionName,
    SectionTooLarge,
}

/// The kind of failure that `error` stands for, whatever its message.
pub open spec fn fault_of(error: SizeError) -> SizeFault {
    match error {
        SizeError::Malformed(_) => SizeFault::Malformed,
        SizeError::NoSectionHeaders => SizeFault::NoSectionHeaders,
        SizeError::NoStringTable => SizeFault::NoStringTable,
        SizeError::BadSectionName => SizeFault::BadSectionName,
        SizeError::SectionTooLarge => SizeFault::SectionTooLarge,
    }
}

/// The view of a section table read from an image, where there is one.
pub open spec fn table_view(table: Result<SectionTable, String>) -> Option<SectionTableView> {
    match table {
        Ok(t) => Some(t@),
        Err(_) => None,
    }
}

/// The section table that the ELF reader finds in the bytes `data`, or
/// nothing where it rejects them.
pub uninterp spec fn elf_section_table(data: Seq<u8>) -> Option<SectionTableView>;

/// Whether the section of `header` takes up memory: it has an address and a
/// size other than zero.
pub open spec fn is_loaded(header: SectionHeaderView) -> bool {
    header.addr != 0 && header.size != 0
}

/// What keeps the section of `header` from being listed, if anything: it
/// takes up memory and has no name, or more bytes than a section's size can
/// hold.
pub open spec fn header_fault(header: SectionHeaderView) -> Option<SizeFault> {
    if !is_loaded(header) {
        None
    } else if header.name is None {
        Some(SizeFault::BadSectionName)
    } else if header.size > u32::MAX {
        Some(SizeFault::SectionTooLarge)
    } else {
        None
    }
}

/// The section that stands for `header`: its name and its size.
pub open spec fn section_of(header: SectionHeaderView) -> SectionView {
    SectionView { name: header.name->0, size: header.size }
}

/// The sections of `table` that take up memory, in the order of the table, or
/// the reason why they cannot be listed: that of the first header that cannot
/// be listed, where the table has headers and names.
pub open spec fn loaded_sections(table: SectionTableView) -> Result<Seq<SectionView>, SizeFault> {
    match table.headers {
        None => Err(SizeFault::NoSectionHeaders),
        Some(headers) => if !table.has_names {
            Err(SizeFault::NoStringTable)
        } else {
            match first_match(headers, |h: SectionHeaderView| header_fault(h) is Some) {
                Some(k) => Err(header_fault(headers[k])->0),
                None => Ok(
                    headers.filter(|h: SectionHeaderView| is_loaded(h)).map_values(
                        |h: SectionHeaderView| section_of(h),
                    ),
                ),
            }
        },
    }
}

/// The sections of the image `data` that take up memory, or the reason why
/// they cannot be listed.
pub open spec fn image_sections(data: Seq<u8>) -> Result<Seq<SectionView>, SizeFault> {
    match elf_section_table(data) {
        None => Err(SizeFault::Malformed),
        Some(table) => loaded_sections(table),
    }
}

/// The view of a list of sections or the kind of reason why there is none.
pub open spec fn listing_view(
    listing: Result<Vec<Section>, SizeError>,
) -> Result<Seq<SectionView>, SizeFault> {
    match listing {
        Ok(sections) => Ok(sections_view(sections@)),
        Err(e) => Err(fault_of(e)),
    }
}

/// Reads the section header table of an ELF image with the `elf` crate:
/// `ElfBytes::minimal_parse` on the bytes, `section_headers_with_strtab` on
/// what it gives, then for each header that the table's iterator yields its
/// `sh_addr`, its `sh_size` and the name that `StringTable::get` finds at
/// `sh_name`.
///
/// Assumed, not proved: these calls return, and whether they succeed and what
/// they find depends on the bytes alone. Where one of the first two calls
/// fails the result is its error as a text, of which nothing is claimed; a
/// header has no name where there is no string table or the lookup fails.
#[verifier::external_body]
fn read_section_table(data: &[u8]) -> (table: Result<SectionTable, String>)
    ensures
        table_view(table) == elf_section_table(data@),
{
    let file = elf::ElfBytes::<elf::endian::AnyEndian>::minimal_parse(data).map_err(|e| e.to_string())?;
    let (shdrs, strtab) = file.section_headers_with_strtab().map_err(|e| e.to_string())?;
    Ok(SectionTable {
        headers: shdrs.map(|table| table.iter().map(|shdr| SectionHeader {
            name: strtab.and_then(|names| names.get(shdr.sh_name as usize).ok()).map(String::from),
            addr: shdr.sh_addr,
            size: shdr.sh_size,
        }).collect()),
        has_names: strtab.is_some(),
    })
}

/// Lists the sections of `table` that take up memory: those with an address
/// and a size other than zero, in the order of the table, each with its name
/// and its size.
///
/// There is no list where the table has no headers, where it has no string
/// table, or where a section that takes up memory has no name or is larger
/// than a section's size can hold.
pub fn sections_of(table: SectionTable) -> (listing: Result<Vec<Section>, SizeError>)
    ensures
        listing_view(listing) == loaded_sections(table@),
{
    let SectionTable { headers, has_names } = table;
    let headers = match headers {
        Some(list) => list,
        None => {
            return Err(SizeError::NoSectionHeaders);
        },
    };
    if !has_names {
        return Err(SizeError::NoStringTable);
    }
    let ghost views = headers@.map_values(|h: SectionHeader| h@);
    let ghost loaded = |h: SectionHeaderView| is_loaded(h);
    let ghost convert = |h: SectionHeaderView| section_of(h);
    let ghost faulty = |h: SectionHeaderView| header_fault(h) is Some;
    let mut sections: Vec<Section> = Vec::new();
    proof {
        reveal(Seq::filter);
        assert(views.take(0) =~= Seq::<SectionHeaderView>::empty());
        assert(sections_view(sections@) =~= views.take(0).filter(loaded).map_values(convert));
    }
    for header in iter: headers
        invariant
            iter.seq() == headers@,
            views == headers@.map_values(|h: SectionHeader| h@),
            table@.headers == Some(views),
            table@.has_names,
            loaded == (|h: SectionHeaderView| is_loaded(h)),
            convert == (|h: SectionHeaderView| section_of(h)),
            faulty == (|h: SectionHeaderView| header_fault(h) is Some),
            forall|k: int| 0 <= k < iter.index() ==> !faulty(#[trigger] views[k]),
            sections_view(sections@) == views.take(iter.index() as int).filter(loaded).map_values(
                convert,
            ),
    {
        let ghost at = iter.index() as int;
        proof {
            reveal(Seq::filter);
            assert(views.take(at + 1).drop_last() =~= views.take(at));
            assert(views.take(at + 1).last() == header@);
        }
        if header.addr != 0 && header.size != 0 {
            let SectionHeader { name, addr: _, size } = header;
            let name = match name {
                Some(n) => n,
                None => {
                    proof {
                        lemma_first_match_is(views, faulty, at);
                    }
                    return Err(SizeError::BadSectionName);
                },
            };
            if size > u32::MAX as u64 {
                proof {
                    lemma_first_match_is(views, faulty, at);
                }
                return Err(SizeError::SectionTooLarge);
            }
            let ghost before = sections@;
            sections.push(Section(name, size as u32));
            proof {
                assert(sections_view(sections@) =~= sections_view(before).push(
                    section_of(views[at]),
                ));
            }
        }
    }
    proof {
        assert(views.take(views.len() as int) =~= views);
        lemma_first_match_none(views, faulty);
    }
    Ok(sections)
}

/// Lists the sections of the ELF image `data` that take up memory: those with
/// an address and a size other than zero, each with its name and size.
pub fn size(data: &[u8]) -> (listing: Result<Vec<Section>, SizeError>)
    ensures
        listing_view(listing) == image_sections(data@),
{
    match read_section_table(data) {
        Ok(table) => sections_of(table),
        Err(message) => Err(SizeError::Malformed(message)),
    }
}

} // verus!
