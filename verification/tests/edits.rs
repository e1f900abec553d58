use pretty_size::edit::{apply_edits, SectionEdit};
use pretty_size::region::DetailedRegion;
use pretty_size::size::Section;

fn region(name: &str, length: u64, sections: &[(&str, u32)]) -> DetailedRegion {
    DetailedRegion {
        name: name.to_string(),
        length,
        sections: sections.iter().map(|(n, s)| Section(n.to_string(), *s)).collect(),
    }
}

fn shape(regions: &[DetailedRegion]) -> Vec<(String, u64, Vec<(String, u32)>)> {
    regions
        .iter()
        .map(|r| {
            (r.name.clone(), r.length, r.sections.iter().map(|s| (s.0.clone(), s.1)).collect())
        })
        .collect()
}

fn group(source: &str, dest: &str, section: &str) -> SectionEdit {
    SectionEdit::GroupRegions {
        region_to_insert_as_section: source.to_string(),
        output_region: dest.to_string(),
        output_section_name: section.to_string(),
    }
}

fn ignore(region: &str, section: &str) -> SectionEdit {
    SectionEdit::Ignore {
        region_name: region.to_string(),
        section_name_to_ignore: section.to_string(),
    }
}

fn flash_and_boot() -> Vec<DetailedRegion> {
    vec![
        region("FLASH", 524288, &[(".text", 130000), ("miscellaneous", 2500)]),
        region("BOOT", 8192, &[]),
    ]
}

#[test]
fn group_regions_folds_boot_into_flash() {
    let mut layout = flash_and_boot();
    let edit = group("BOOT", "FLASH", "bootloader");
    assert!(edit.fits(&layout));
    assert_eq!(edit.apply_to(&mut layout), Some(()));
    assert_eq!(layout.len(), 1);
    assert_eq!(layout[0].name, "FLASH");
    assert_eq!(layout[0].length, 532480);
    assert_eq!(layout[0].sections[0].0, "bootloader");
    assert_eq!(layout[0].sections[0].1, 8192);
    assert_eq!(
        shape(&layout),
        shape(&[region(
            "FLASH",
            532480,
            &[("bootloader", 8192), (".text", 130000), ("miscellaneous", 2500)]
        )])
    );
}

#[test]
fn group_regions_discards_the_sections_of_the_source() {
    let mut layout = vec![
        region("A", 100, &[("x", 10), ("y", 20)]),
        region("B", 1000, &[("z", 30)]),
        region("C", 5, &[]),
    ];
    assert_eq!(group("A", "B", "a").apply_to(&mut layout), Some(()));
    assert_eq!(
        shape(&layout),
        shape(&[region("B", 1100, &[("a", 100), ("z", 30)]), region("C", 5, &[])])
    );
}

#[test]
fn group_regions_without_source_changes_nothing() {
    let mut layout = flash_and_boot();
    assert_eq!(group("NOPE", "FLASH", "n").apply_to(&mut layout), None);
    assert_eq!(shape(&layout), shape(&flash_and_boot()));
}

#[test]
fn group_regions_without_destination_changes_nothing() {
    let mut layout = vec![region("BOOT", 8192, &[]), region("FLASH", 524288, &[])];
    assert_eq!(group("BOOT", "NOPE", "b").apply_to(&mut layout), None);
    assert_eq!(
        shape(&layout),
        shape(&[region("BOOT", 8192, &[]), region("FLASH", 524288, &[])])
    );
    let mut layout = flash_and_boot();
    assert_eq!(group("BOOT", "NOPE", "n").apply_to(&mut layout), None);
    assert_eq!(shape(&layout), shape(&flash_and_boot()));
}

#[test]
fn group_regions_into_itself_changes_nothing() {
    let mut layout = flash_and_boot();
    assert_eq!(group("BOOT", "BOOT", "n").apply_to(&mut layout), None);
    assert_eq!(shape(&layout), shape(&flash_and_boot()));
}

#[test]
fn group_regions_records_the_capacity_of_the_source() {
    let mut layout = vec![
        region("DEST", 1, &[("x", 1)]),
        region("SRC", u32::MAX as u64, &[("gone", 5)]),
    ];
    let edit = group("SRC", "DEST", "src");
    assert!(edit.fits(&layout));
    assert_eq!(edit.apply_to(&mut layout), Some(()));
    assert_eq!(
        shape(&layout),
        shape(&[region("DEST", 1u64 << 32, &[("src", u32::MAX), ("x", 1)])])
    );
}

#[test]
fn group_regions_of_a_capacity_beyond_32_bits_does_not_fit() {
    let layout = vec![region("HUGE", (1u64 << 32) + 7, &[]), region("DEST", 1, &[])];
    assert!(!group("HUGE", "DEST", "huge").fits(&layout));
    assert!(group("DEST", "HUGE", "dest").fits(&layout));
    assert!(apply_edits(layout, vec![group("HUGE", "DEST", "huge")]).is_none());
    let exact = vec![region("HUGE", 1u64 << 32, &[]), region("DEST", 1, &[])];
    assert!(!group("HUGE", "DEST", "huge").fits(&exact));
}

#[test]
fn ignore_drops_the_first_section_of_the_name() {
    let mut layout = vec![
        region("A", 100, &[("x", 1), ("y", 2), ("x", 3)]),
        region("B", 100, &[("x", 4)]),
    ];
    assert_eq!(ignore("A", "x").apply_to(&mut layout), Some(()));
    assert_eq!(
        shape(&layout),
        shape(&[region("A", 100, &[("y", 2), ("x", 3)]), region("B", 100, &[("x", 4)])])
    );
    assert_eq!(ignore("A", "x").apply_to(&mut layout), Some(()));
    assert_eq!(ignore("A", "x").apply_to(&mut layout), None);
    assert_eq!(
        shape(&layout),
        shape(&[region("A", 100, &[("y", 2)]), region("B", 100, &[("x", 4)])])
    );
}

#[test]
fn ignore_without_region_or_section_changes_nothing() {
    let mut layout = flash_and_boot();
    assert_eq!(ignore("NOPE", ".text").apply_to(&mut layout), None);
    assert_eq!(ignore("FLASH", ".nope").apply_to(&mut layout), None);
    assert_eq!(ignore("BOOT", ".text").apply_to(&mut layout), None);
    assert_eq!(shape(&layout), shape(&flash_and_boot()));
}

#[test]
fn edit_order_decides_what_ignore_finds() {
    let start = || vec![region("A", 64, &[("x", 8), ("y", 9)]), region("B", 1000, &[("z", 30)])];

    let mut first = start();
    assert_eq!(ignore("A", "x").apply_to(&mut first), Some(()));
    assert_eq!(
        shape(&first),
        shape(&[region("A", 64, &[("y", 9)]), region("B", 1000, &[("z", 30)])])
    );
    assert_eq!(group("A", "B", "a").apply_to(&mut first), Some(()));

    let mut second = start();
    assert_eq!(group("A", "B", "a").apply_to(&mut second), Some(()));
    let before = shape(&second);
    assert_eq!(ignore("A", "x").apply_to(&mut second), None);
    assert_eq!(shape(&second), before);

    assert_eq!(shape(&second), shape(&[region("B", 1064, &[("a", 64), ("z", 30)])]));
    assert_eq!(shape(&first), shape(&second));
}

#[test]
fn edit_order_changes_the_layout_when_the_section_is_in_the_destination() {
    let start = || vec![region("A", 64, &[]), region("B", 1000, &[("a", 30)])];
    let first =
        apply_edits(start(), vec![ignore("B", "a"), group("A", "B", "a")]).unwrap();
    let second =
        apply_edits(start(), vec![group("A", "B", "a"), ignore("B", "a")]).unwrap();
    assert_eq!(shape(&first), shape(&[region("B", 1064, &[("a", 64)])]));
    assert_eq!(shape(&second), shape(&[region("B", 1064, &[("a", 30)])]));
}

#[test]
fn fits_tells_when_a_capacity_cannot_be_held() {
    let layout = vec![region("A", u64::MAX, &[]), region("B", 1, &[]), region("C", 0, &[])];
    assert!(!group("A", "B", "a").fits(&layout));
    assert!(!group("B", "A", "b").fits(&layout));
    assert!(!group("A", "C", "a").fits(&layout));
    assert!(group("C", "A", "c").fits(&layout));
    assert!(group("B", "C", "b").fits(&layout));
    assert!(group("A", "NOPE", "a").fits(&layout));
    assert!(group("NOPE", "B", "a").fits(&layout));
    assert!(group("A", "A", "a").fits(&layout));
    assert!(ignore("A", "x").fits(&layout));
    let near = vec![region("A", u64::MAX - 5, &[]), region("B", 5, &[]), region("C", 6, &[])];
    assert!(group("B", "A", "b").fits(&near));
    assert!(!group("C", "A", "c").fits(&near));
}

#[test]
fn fits_looks_for_the_destination_among_the_remaining_regions() {
    let layout = vec![region("B", 5, &[]), region("A", u64::MAX, &[]), region("A", 1, &[])];
    assert!(group("A", "A", "a").fits(&layout) == false);
    assert!(group("B", "A", "b").fits(&layout) == false);
    let layout = vec![region("A", 7, &[]), region("A", u64::MAX, &[])];
    assert!(group("A", "A", "a").fits(&layout) == false);
    let layout = vec![region("A", 1, &[]), region("A", u64::MAX - 1, &[])];
    let mut edited = vec![region("A", 1, &[]), region("A", u64::MAX - 1, &[])];
    assert!(group("A", "A", "a").fits(&layout));
    assert_eq!(group("A", "A", "a").apply_to(&mut edited), Some(()));
    assert_eq!(shape(&edited), shape(&[region("A", u64::MAX, &[("a", 1)])]));
}

#[test]
fn apply_edits_runs_them_in_order() {
    let layout = vec![
        region("FLASH", 524288, &[(".text", 130000), ("miscellaneous", 2500)]),
        region("BOOT", 8192, &[]),
        region("RAM", 131072, &[(".bss", 40000)]),
    ];
    let edits = vec![
        ignore("BOOT", "nothing"),
        group("BOOT", "FLASH", "bootloader"),
        ignore("FLASH", "miscellaneous"),
        group("BOOT", "RAM", "again"),
        ignore("RAM", ".bss"),
    ];
    let result = apply_edits(layout, edits).unwrap();
    assert_eq!(
        shape(&result),
        shape(&[
            region("FLASH", 532480, &[("bootloader", 8192), (".text", 130000)]),
            region("RAM", 131072, &[]),
        ])
    );
}

#[test]
fn apply_edits_without_edits_returns_the_layout() {
    let result = apply_edits(flash_and_boot(), Vec::new()).unwrap();
    assert_eq!(shape(&result), shape(&flash_and_boot()));
    assert!(apply_edits(Vec::new(), vec![ignore("A", "x")]).unwrap().is_empty());
}

#[test]
fn apply_edits_stops_at_a_capacity_that_cannot_be_held() {
    let layout = vec![region("A", u64::MAX, &[]), region("B", 1, &[]), region("C", 0, &[])];
    let edits = vec![group("C", "B", "c"), group("A", "B", "a")];
    assert!(apply_edits(layout, edits).is_none());
}
