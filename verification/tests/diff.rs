use pretty_size::diff::{compute_layout_diff, compute_sections_size_diff};
use pretty_size::region::DetailedRegion;
use pretty_size::size::Section;

fn secs(items: &[(&str, u32)]) -> Vec<Section> {
    items.iter().map(|(n, s)| Section(n.to_string(), *s)).collect()
}

fn flat(diffs: &[(Section, i64)]) -> Vec<(String, u32, i64)> {
    diffs.iter().map(|(s, d)| (s.0.clone(), s.1, *d)).collect()
}

fn want(items: &[(&str, u32, i64)]) -> Vec<(String, u32, i64)> {
    items.iter().map(|(n, s, d)| (n.to_string(), *s, *d)).collect()
}

#[test]
fn diff_is_current_size_less_previous_size() {
    let previous = secs(&[(".text", 1000), (".data", 500), (".bss", 64)]);
    let current = secs(&[(".text", 1024), (".data", 400), (".bss", 64)]);
    let diffs = compute_sections_size_diff(current, Some(&previous));
    assert_eq!(flat(&diffs), want(&[(".text", 1024, 24), (".data", 400, -100), (".bss", 64, 0)]));
}

#[test]
fn diff_of_a_new_section_is_zero() {
    let previous = secs(&[(".text", 1000)]);
    let current = secs(&[(".text", 1000), (".fresh", 4096)]);
    let diffs = compute_sections_size_diff(current, Some(&previous));
    assert_eq!(flat(&diffs), want(&[(".text", 1000, 0), (".fresh", 4096, 0)]));
    assert_ne!(diffs[1].1, 4096);
}

#[test]
fn diff_without_history_is_zero() {
    let diffs = compute_sections_size_diff(secs(&[(".text", 1000), (".data", 2)]), None);
    assert_eq!(flat(&diffs), want(&[(".text", 1000, 0), (".data", 2, 0)]));
    assert!(compute_sections_size_diff(Vec::new(), None).is_empty());
}

#[test]
fn diff_ignores_sections_that_are_gone() {
    let previous = secs(&[(".gone", 777), (".text", 10)]);
    let diffs = compute_sections_size_diff(secs(&[(".text", 15)]), Some(&previous));
    assert_eq!(flat(&diffs), want(&[(".text", 15, 5)]));
    let none_left = compute_sections_size_diff(Vec::new(), Some(&previous));
    assert!(none_left.is_empty());
}

#[test]
fn diff_goes_by_the_first_previous_section_of_the_name() {
    let previous = secs(&[(".text", 10), (".text", 999)]);
    let current = secs(&[(".text", 30), (".text", 40)]);
    let diffs = compute_sections_size_diff(current, Some(&previous));
    assert_eq!(flat(&diffs), want(&[(".text", 30, 20), (".text", 40, 30)]));
}

#[test]
fn diff_spans_the_whole_range_of_sizes() {
    let previous = secs(&[("a", 0), ("b", u32::MAX)]);
    let current = secs(&[("a", u32::MAX), ("b", 0)]);
    let diffs = compute_sections_size_diff(current, Some(&previous));
    assert_eq!(
        flat(&diffs),
        want(&[("a", u32::MAX, 4294967295), ("b", 0, -4294967295)])
    );
}

fn region(name: &str, length: u64, sections: &[(&str, u32)]) -> DetailedRegion {
    DetailedRegion { name: name.to_string(), length, sections: secs(sections) }
}

#[test]
fn layout_diff_matches_regions_by_name() {
    let previous = vec![
        region("RAM", 100, &[(".data", 10), (".text", 1)]),
        region("FLASH", 1000, &[(".text", 500), (".data", 20)]),
    ];
    let current = vec![
        region("FLASH", 2000, &[(".text", 600), (".data", 20), (".new", 5)]),
        region("RAM", 100, &[(".data", 4)]),
        region("EXTRA", 50, &[(".text", 7)]),
    ];
    let reports = compute_layout_diff(current, Some(&previous));
    assert_eq!(reports.len(), 3);
    assert_eq!((reports[0].name.as_str(), reports[0].length), ("FLASH", 2000));
    assert_eq!(
        flat(&reports[0].sections),
        want(&[(".text", 600, 100), (".data", 20, 0), (".new", 5, 0)])
    );
    assert_eq!((reports[1].name.as_str(), reports[1].length), ("RAM", 100));
    assert_eq!(flat(&reports[1].sections), want(&[(".data", 4, -6)]));
    assert_eq!((reports[2].name.as_str(), reports[2].length), ("EXTRA", 50));
    assert_eq!(flat(&reports[2].sections), want(&[(".text", 7, 0)]));
}

#[test]
fn layout_diff_without_history_is_zero_everywhere() {
    let current = vec![region("FLASH", 2000, &[(".text", 600)]), region("RAM", 100, &[])];
    let reports = compute_layout_diff(current, None);
    assert_eq!(reports.len(), 2);
    assert_eq!(flat(&reports[0].sections), want(&[(".text", 600, 0)]));
    assert!(reports[1].sections.is_empty());
    let empty_history: Vec<DetailedRegion> = Vec::new();
    let again =
        compute_layout_diff(vec![region("FLASH", 1, &[("a", 1)])], Some(&empty_history));
    assert_eq!(flat(&again[0].sections), want(&[("a", 1, 0)]));
}
