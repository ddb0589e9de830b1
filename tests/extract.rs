use rmkit::archive::{path_segments, plan_extraction, ArchiveEntry, ExtractStep};
use rmkit::error::PipelineError;

fn entry(name: &str, is_dir: bool) -> ArchiveEntry {
    ArchiveEntry { name: name.to_string(), is_dir }
}

fn paths(steps: &[ExtractStep]) -> Vec<String> {
    steps.iter().map(|s| s.path.join("/")).collect()
}

#[test]
fn end_to_end_selects_only_the_variant() {
    let entries = vec![
        entry("root/nrf52840/keyboard.toml", false),
        entry("root/nrf52840/src/main.rs", false),
        entry("root/other_chip/keyboard.toml", false),
    ];
    let steps = plan_extraction(&entries, "nrf52840").unwrap();
    assert_eq!(paths(&steps), vec!["keyboard.toml".to_string(), "src/main.rs".to_string()]);
    assert_eq!(steps.iter().map(|s| s.index).collect::<Vec<_>>(), vec![0, 1]);
    assert!(steps.iter().all(|s| !s.is_dir));
}

#[test]
fn missing_variant_is_reported() {
    let entries = vec![
        entry("root/", true),
        entry("root/other_chip/keyboard.toml", false),
        entry("root/x/nrf52840/keyboard.toml", false),
    ];
    let r = plan_extraction(&entries, "nrf52840");
    assert_eq!(
        r.unwrap_err(),
        PipelineError::VariantNotFound { selector: "nrf52840".to_string() }
    );
}

#[test]
fn empty_archive_has_no_variant() {
    let r = plan_extraction(&Vec::new(), "rp2040");
    assert!(matches!(r, Err(PipelineError::VariantNotFound { .. })));
}

#[test]
fn selector_match_is_exact_and_case_sensitive() {
    let entries = vec![
        entry("root/NRF52840/a.rs", false),
        entry("root/nrf52840_split/b.rs", false),
        entry("root/nrf5284/c.rs", false),
    ];
    assert!(matches!(
        plan_extraction(&entries, "nrf52840"),
        Err(PipelineError::VariantNotFound { .. })
    ));
    let steps = plan_extraction(&entries, "nrf52840_split").unwrap();
    assert_eq!(paths(&steps), vec!["b.rs".to_string()]);
    assert_eq!(steps[0].index, 1);
}

#[test]
fn directory_entries_keep_their_kind_and_order() {
    let entries = vec![
        entry("root/rp2040/src/main.rs", false),
        entry("root/rp2040/", true),
        entry("root/rp2040/src/", true),
    ];
    let steps = plan_extraction(&entries, "rp2040").unwrap();
    assert_eq!(steps.len(), 3);
    assert_eq!(paths(&steps), vec!["src/main.rs".to_string(), "".to_string(), "src".to_string()]);
    assert_eq!(steps.iter().map(|s| s.is_dir).collect::<Vec<_>>(), vec![false, true, true]);
}

#[test]
fn parent_segments_that_escape_are_rejected() {
    let entries = vec![
        entry("root/nrf52840/keyboard.toml", false),
        entry("root/nrf52840/../../etc/passwd", false),
        entry("root/nrf52840/../x", false),
    ];
    assert_eq!(
        plan_extraction(&entries, "nrf52840").unwrap_err(),
        PipelineError::UnsafeArchivePath { path: "root/nrf52840/../../etc/passwd".to_string() }
    );
}

#[test]
fn single_parent_segment_escapes() {
    let entries = vec![entry("root/nrf52840/../x", false)];
    assert!(matches!(
        plan_extraction(&entries, "nrf52840"),
        Err(PipelineError::UnsafeArchivePath { .. })
    ));
}

#[test]
fn parent_segments_that_stay_inside_are_kept() {
    let entries = vec![entry("root/nrf52840/a/./../b.rs", false)];
    let steps = plan_extraction(&entries, "nrf52840").unwrap();
    assert_eq!(paths(&steps), vec!["a/./../b.rs".to_string()]);
}

#[test]
fn unsafe_entries_of_other_variants_are_ignored() {
    let entries = vec![
        entry("root/other/../../evil", false),
        entry("root/nrf52840/ok.rs", false),
    ];
    let steps = plan_extraction(&entries, "nrf52840").unwrap();
    assert_eq!(paths(&steps), vec!["ok.rs".to_string()]);
    assert_eq!(steps[0].index, 1);
}

#[test]
fn segments_skip_empty_pieces() {
    assert_eq!(path_segments("root//a/b/"), vec!["root", "a", "b"]);
    assert_eq!(path_segments("/x"), vec!["x"]);
    assert!(path_segments("").is_empty());
    assert!(path_segments("///").is_empty());
}
