//! End-to-end behaviour of the match-and-patch engine on concrete files.

use linepatch::directory_patcher::DirectoryPatcher;
use linepatch::errors::Error;
use linepatch::file_patcher::FilePatcher;
use linepatch::filter::Settings;
use linepatch::query::Query;

fn default_settings() -> Settings {
    Settings {
        dry_run: false,
        selected_file_types: Vec::new(),
        ignored_file_types: Vec::new(),
        ignored: false,
        hidden: false,
    }
}

fn dry_run_settings() -> Settings {
    Settings {
        dry_run: true,
        selected_file_types: Vec::new(),
        ignored_file_types: Vec::new(),
        ignored: false,
        hidden: false,
    }
}

#[test]
fn literal_scenario_three_lines() {
    // File lines ["foo", "bar foo", "baz"], literal "foo" -> "qux".
    let contents = b"foo\nbar foo\nbaz\n".to_vec();
    let query = Query::substring(b"foo".to_vec(), b"qux".to_vec());
    let mut dp = DirectoryPatcher::new(b".".to_vec(), default_settings());
    let outcome = dp.patch_file(&b"f.txt".to_vec(), &contents, &query);

    assert_eq!(outcome.replacements.len(), 2);
    assert_eq!(outcome.replacements[0].line_number, 1);
    assert_eq!(outcome.replacements[0].original_line, b"foo".to_vec());
    assert_eq!(outcome.replacements[0].new_line, b"qux".to_vec());
    assert_eq!(outcome.replacements[1].line_number, 2);
    assert_eq!(outcome.replacements[1].original_line, b"bar foo".to_vec());
    assert_eq!(outcome.replacements[1].new_line, b"bar qux".to_vec());
    assert_eq!(outcome.new_contents, Some(b"qux\nbar qux\nbaz\n".to_vec()));

    let stats = dp.stats();
    assert_eq!(stats.files_patched(), 1);
    assert_eq!(stats.total_replacements(), 2);
}

#[test]
fn literal_scenario_no_trailing_newline() {
    let contents = b"foo\nbar foo\nbaz".to_vec();
    let query = Query::substring(b"foo".to_vec(), b"qux".to_vec());
    let mut dp = DirectoryPatcher::new(b".".to_vec(), default_settings());
    let outcome = dp.patch_file(&b"f.txt".to_vec(), &contents, &query);
    assert_eq!(outcome.new_contents, Some(b"qux\nbar qux\nbaz".to_vec()));
}

#[test]
fn regex_scenario_version_capture() {
    // r"v(\d+)" -> "version-$1" on "v2 release" yields "version-2 release".
    let query = Query::regex(b"v(\\d+)".to_vec(), b"version-$1".to_vec()).unwrap();
    let line = b"v2 release".to_vec();
    let replaced = query.matches(&line);
    assert_eq!(replaced, Some(b"version-2 release".to_vec()));
}

#[test]
fn regex_scenario_through_patch_file() {
    let contents = b"v2 release\nnothing here\n".to_vec();
    let query = Query::regex(b"v(\\d+)".to_vec(), b"version-$1".to_vec()).unwrap();
    let mut dp = DirectoryPatcher::new(b".".to_vec(), default_settings());
    let outcome = dp.patch_file(&b"notes.txt".to_vec(), &contents, &query);
    assert_eq!(outcome.replacements.len(), 1);
    assert_eq!(outcome.replacements[0].line_number, 1);
    assert_eq!(outcome.new_contents, Some(b"version-2 release\nnothing here\n".to_vec()));
}

#[test]
fn no_match_is_a_noop() {
    // A file with no matching line: empty replacements and no write.
    let contents = b"alpha\nbeta\n".to_vec();
    let query = Query::substring(b"foo".to_vec(), b"qux".to_vec());
    let mut dp = DirectoryPatcher::new(b".".to_vec(), default_settings());
    let outcome = dp.patch_file(&b"f.txt".to_vec(), &contents, &query);
    assert!(outcome.replacements.is_empty());
    assert_eq!(outcome.new_contents, None);
    let stats = dp.stats();
    assert_eq!(stats.files_patched(), 0);
    assert_eq!(stats.total_replacements(), 0);
}

#[test]
fn one_replacement_per_matching_line() {
    // k matching lines give k replacements with the 1-based positions.
    let contents = b"a\nfoo\nb\nfoo foo\n".to_vec();
    let query = Query::substring(b"foo".to_vec(), b"qux".to_vec());
    let mut dp = DirectoryPatcher::new(b".".to_vec(), default_settings());
    let outcome = dp.patch_file(&b"f.txt".to_vec(), &contents, &query);
    assert_eq!(outcome.replacements.len(), 2);
    assert_eq!(outcome.replacements[0].line_number, 2);
    assert_eq!(outcome.replacements[1].line_number, 4);
    assert_eq!(outcome.replacements[1].new_line, b"qux qux".to_vec());
    assert_eq!(dp.stats().total_replacements(), 2);
}

#[test]
fn second_application_is_idempotent() {
    // Patching the already-patched content again finds nothing, since
    // "qux" no longer matches "foo".
    let contents = b"foo\nbar foo\nbaz\n".to_vec();
    let query = Query::substring(b"foo".to_vec(), b"qux".to_vec());
    let mut dp = DirectoryPatcher::new(b".".to_vec(), default_settings());
    let first = dp.patch_file(&b"f.txt".to_vec(), &contents, &query);
    let patched = first.new_contents.unwrap();
    let second = dp.patch_file(&b"f.txt".to_vec(), &patched, &query);
    assert!(second.replacements.is_empty());
    assert_eq!(second.new_contents, None);
}

#[test]
fn dry_run_same_preview_no_write() {
    // Dry-run gives an identical preview but never a write.
    let contents = b"foo\nbar foo\nbaz\n".to_vec();
    let query = Query::substring(b"foo".to_vec(), b"qux".to_vec());

    let mut wet = DirectoryPatcher::new(b".".to_vec(), default_settings());
    let wet_outcome = wet.patch_file(&b"f.txt".to_vec(), &contents, &query);

    let mut dry = DirectoryPatcher::new(b".".to_vec(), dry_run_settings());
    let dry_outcome = dry.patch_file(&b"f.txt".to_vec(), &contents, &query);

    assert_eq!(wet_outcome.replacements, dry_outcome.replacements);
    assert!(wet_outcome.new_contents.is_some());
    assert_eq!(dry_outcome.new_contents, None);
    // The totals are counted the same way in both modes.
    assert_eq!(wet.stats().total_replacements(), dry.stats().total_replacements());
}

#[test]
fn binary_content_never_written() {
    // A null byte disqualifies the file even though its text matches.
    let contents = b"foo\n\x00\nfoo\n".to_vec();
    let query = Query::substring(b"foo".to_vec(), b"qux".to_vec());
    let mut dp = DirectoryPatcher::new(b".".to_vec(), default_settings());
    let outcome = dp.patch_file(&b"f.bin".to_vec(), &contents, &query);
    assert!(outcome.replacements.is_empty());
    assert_eq!(outcome.new_contents, None);
    assert_eq!(dp.stats().files_patched(), 0);
}

#[test]
fn crlf_terminators_preserved() {
    let contents = b"foo\r\nbar\r\n".to_vec();
    let query = Query::substring(b"foo".to_vec(), b"qux".to_vec());
    let mut dp = DirectoryPatcher::new(b".".to_vec(), default_settings());
    let outcome = dp.patch_file(&b"f.txt".to_vec(), &contents, &query);
    assert_eq!(outcome.new_contents, Some(b"qux\r\nbar\r\n".to_vec()));
}

#[test]
fn empty_pattern_matches_nothing() {
    let query = Query::substring(Vec::new(), b"x".to_vec());
    assert_eq!(query.matches(&b"abc".to_vec()), None);
}

#[test]
fn replacement_scans_left_to_right_without_overlap() {
    let query = Query::substring(b"aa".to_vec(), b"b".to_vec());
    assert_eq!(query.matches(&b"aaa".to_vec()), Some(b"ba".to_vec()));
    assert_eq!(query.matches(&b"aaaa".to_vec()), Some(b"bb".to_vec()));
}

#[test]
fn empty_file_is_a_noop() {
    let contents = Vec::new();
    let query = Query::substring(b"foo".to_vec(), b"qux".to_vec());
    let mut dp = DirectoryPatcher::new(b".".to_vec(), default_settings());
    let outcome = dp.patch_file(&b"f.txt".to_vec(), &contents, &query);
    assert!(outcome.replacements.is_empty());
    assert_eq!(outcome.new_contents, None);
}

#[test]
fn file_patcher_component_roundtrip() {
    let contents = b"foo\nbaz\n".to_vec();
    let query = Query::substring(b"foo".to_vec(), b"qux".to_vec());
    let fp = FilePatcher::build(&b"f.txt".to_vec(), &contents, &query).unwrap();
    assert_eq!(fp.path(), &b"f.txt".to_vec());
    assert_eq!(fp.replacements().len(), 1);
    assert_eq!(fp.patched_contents(), b"qux\nbaz\n".to_vec());
    let repls = fp.into_replacements();
    assert_eq!(repls[0].line_number, 1);
    assert_eq!(repls[0].original_line, b"foo".to_vec());
    assert_eq!(repls[0].new_line, b"qux".to_vec());
}

#[test]
fn file_patcher_rejects_binary() {
    let contents = b"fo\x00o\n".to_vec();
    let query = Query::substring(b"foo".to_vec(), b"qux".to_vec());
    assert!(FilePatcher::build(&b"f.bin".to_vec(), &contents, &query).is_none());
}

#[test]
fn invalid_regex_is_rejected() {
    let r = Query::regex(b"(".to_vec(), b"x".to_vec());
    assert_eq!(r.err(), Some(Error::InvalidPattern));
}

#[test]
fn regex_non_matching_line_untouched() {
    let query = Query::regex(b"v(\\d+)".to_vec(), b"version-$1".to_vec()).unwrap();
    assert_eq!(query.matches(&b"no versions here".to_vec()), None);
}
