//! The eligibility filter on concrete names, and whole-run totals.

use linepatch::directory_patcher::{DirectoryPatcher, FileEntry};
use linepatch::errors::Error;
use linepatch::filter::{build_rules, default_file_types, eligible, Settings};
use linepatch::query::Query;

fn settings_with_types(selected: Vec<Vec<u8>>, ignored: Vec<Vec<u8>>) -> Settings {
    Settings {
        dry_run: false,
        selected_file_types: selected,
        ignored_file_types: ignored,
        ignored: false,
        hidden: false,
    }
}

#[test]
fn select_rust_negate_test_files() {
    // selected = ["rust"], ignored = ["*_test.rs"]: of a.rs, a_test.rs and
    // a.py exactly a.rs passes.
    let registry = default_file_types();
    let settings = settings_with_types(
        vec![b"rust".to_vec()],
        vec![b"*_test.rs".to_vec()],
    );
    let rules = build_rules(&settings, &registry).unwrap();
    assert!(eligible(&rules, &b"a.rs".to_vec()));
    assert!(!eligible(&rules, &b"a_test.rs".to_vec()));
    assert!(!eligible(&rules, &b"a.py".to_vec()));
}

#[test]
fn no_selection_admits_everything_but_negated() {
    let registry = default_file_types();
    let settings = settings_with_types(Vec::new(), vec![b"py".to_vec()]);
    let rules = build_rules(&settings, &registry).unwrap();
    assert!(eligible(&rules, &b"a.rs".to_vec()));
    assert!(eligible(&rules, &b"notes".to_vec()));
    assert!(!eligible(&rules, &b"a.py".to_vec()));
}

#[test]
fn glob_entry_acts_as_synthetic_type() {
    let registry = default_file_types();
    let settings = settings_with_types(vec![b"*.conf".to_vec()], Vec::new());
    let rules = build_rules(&settings, &registry).unwrap();
    assert!(eligible(&rules, &b"app.conf".to_vec()));
    assert!(!eligible(&rules, &b"app.toml".to_vec()));
}

#[test]
fn negation_wins_over_selection() {
    let registry = default_file_types();
    let settings = settings_with_types(
        vec![b"rust".to_vec()],
        vec![b"rust".to_vec()],
    );
    let rules = build_rules(&settings, &registry).unwrap();
    assert!(!eligible(&rules, &b"a.rs".to_vec()));
}

#[test]
fn unknown_type_name_is_rejected() {
    let registry = default_file_types();
    let settings = settings_with_types(vec![b"nosuchtype".to_vec()], Vec::new());
    assert_eq!(build_rules(&settings, &registry).err(), Some(Error::InvalidFilter));
}

#[test]
fn malformed_glob_is_rejected() {
    let registry = default_file_types();
    let settings = settings_with_types(Vec::new(), vec![b"*[".to_vec()]);
    assert_eq!(build_rules(&settings, &registry).err(), Some(Error::InvalidFilter));
}

#[test]
fn walk_toggles_follow_settings() {
    let registry = default_file_types();
    let mut settings = settings_with_types(Vec::new(), Vec::new());
    settings.ignored = true;
    settings.hidden = true;
    let rules = build_rules(&settings, &registry).unwrap();
    assert!(!rules.respect_vcs_ignore);
    assert!(!rules.skip_hidden);
}

#[test]
fn multi_glob_type_covers_all_extensions() {
    let registry = default_file_types();
    let settings = settings_with_types(vec![b"c".to_vec()], Vec::new());
    let rules = build_rules(&settings, &registry).unwrap();
    assert!(eligible(&rules, &b"main.c".to_vec()));
    assert!(eligible(&rules, &b"main.h".to_vec()));
    assert!(!eligible(&rules, &b"main.py".to_vec()));
}

#[test]
fn cpp_type_covers_its_many_extensions() {
    let registry = default_file_types();
    let settings = settings_with_types(vec![b"cpp".to_vec()], Vec::new());
    let rules = build_rules(&settings, &registry).unwrap();
    assert!(eligible(&rules, &b"a.cc".to_vec()));
    assert!(eligible(&rules, &b"a.cpp".to_vec()));
    assert!(eligible(&rules, &b"a.hpp".to_vec()));
    assert!(eligible(&rules, &b"a.cxx".to_vec()));
    assert!(!eligible(&rules, &b"a.rs".to_vec()));
}

#[test]
fn type_aliases_share_their_globs() {
    let registry = default_file_types();
    let settings = settings_with_types(vec![b"python".to_vec()], Vec::new());
    let rules = build_rules(&settings, &registry).unwrap();
    assert!(eligible(&rules, &b"a.py".to_vec()));
    let settings = settings_with_types(vec![b"markdown".to_vec()], Vec::new());
    let rules = build_rules(&settings, &registry).unwrap();
    assert!(eligible(&rules, &b"notes.md".to_vec()));
}

#[test]
fn run_totals_match_batch() {
    // The aggregate result over a batch equals the number of changed
    // files and the sum of their replacement counts.
    let settings = settings_with_types(Vec::new(), Vec::new());
    let query = Query::substring(b"foo".to_vec(), b"qux".to_vec());
    let mut dp = DirectoryPatcher::new(b".".to_vec(), settings);
    let files = vec![
        FileEntry { path: b"a.txt".to_vec(), contents: b"foo\nfoo\n".to_vec() },
        FileEntry { path: b"b.txt".to_vec(), contents: b"nothing\n".to_vec() },
        FileEntry { path: b"c.txt".to_vec(), contents: b"a foo b\n".to_vec() },
        FileEntry { path: b"d.bin".to_vec(), contents: b"foo\x00".to_vec() },
    ];
    let reports = dp.run(&query, &files);
    assert_eq!(reports.len(), 4);
    assert_eq!(reports[0].replacements.len(), 2);
    assert!(reports[0].new_contents.is_some());
    assert!(reports[1].replacements.is_empty());
    assert!(reports[1].new_contents.is_none());
    assert_eq!(reports[2].replacements.len(), 1);
    assert!(reports[3].replacements.is_empty());
    assert!(reports[3].new_contents.is_none());
    let stats = dp.stats();
    assert_eq!(stats.files_patched(), 2);
    assert_eq!(stats.total_replacements(), 3);
}

#[test]
fn io_error_variants_exist_for_the_caller() {
    // The engine itself never produces these; the caller reports them.
    assert_ne!(Error::IoError, Error::DirectoryReadError);
    assert_ne!(Error::InvalidPattern, Error::InvalidFilter);
}
