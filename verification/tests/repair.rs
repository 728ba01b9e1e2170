use path_repair::repair::{repair, repair_with};
use path_repair::substring::contains_dir;

#[test]
fn empty_path_gets_two_candidates() {
    // empty PATH, two candidates: both are prepended, joined by one colon;
    // the empty original value contributes nothing, so there is no trailing
    // colon.
    let candidates = vec![
        String::from("/opt/homebrew/bin"),
        String::from("/usr/local/bin"),
    ];
    let result = repair_with("", &candidates);
    assert_eq!(result, Some(String::from("/opt/homebrew/bin:/usr/local/bin")));
}

#[test]
fn empty_path_gets_all_default_candidates() {
    let result = repair("");
    assert_eq!(
        result,
        Some(String::from(
            "/opt/homebrew/bin:/usr/local/bin:/home/linuxbrew/.linuxbrew/bin:/usr/bin"
        ))
    );
}

#[test]
fn present_candidate_skipped_original_suffix_untouched() {
    let result = repair("/usr/bin:/bin");
    assert_eq!(
        result,
        Some(String::from(
            "/opt/homebrew/bin:/usr/local/bin:/home/linuxbrew/.linuxbrew/bin:/usr/bin:/bin"
        ))
    );
}

#[test]
fn all_candidates_present_means_no_write() {
    let full = "/opt/homebrew/bin:/usr/local/bin:/home/linuxbrew/.linuxbrew/bin:/usr/bin";
    assert_eq!(repair(full), None);
}

#[test]
fn repair_is_idempotent_on_a_concrete_value() {
    let first = repair("/bin").unwrap();
    assert_eq!(repair(&first), None);
}

#[test]
fn empty_candidate_list_changes_nothing() {
    assert_eq!(repair_with("/bin", &vec![]), None);
}

#[test]
fn substring_match_counts_as_present() {
    // raw substring containment: a candidate hiding inside a longer segment
    // counts as present — the documented semantics of the static strategy
    let candidates = vec![String::from("/usr/bin")];
    assert_eq!(repair_with("/usr/bin2", &candidates), None);
}

#[test]
fn each_missing_candidate_appears_once_in_order() {
    let result = repair("/home/linuxbrew/.linuxbrew/bin").unwrap();
    assert_eq!(
        result,
        "/opt/homebrew/bin:/usr/local/bin:/usr/bin:/home/linuxbrew/.linuxbrew/bin"
    );
}

#[test]
fn original_path_is_preserved_as_suffix() {
    let original = "/some/dir:/other";
    let result = repair(original).unwrap();
    assert!(result.ends_with(original));
    let boundary = result.len() - original.len();
    assert_eq!(&result[boundary..], original);
    assert_eq!(result.as_bytes()[boundary - 1], b':');
}

#[test]
fn contains_dir_decides_substring_containment() {
    assert!(contains_dir("/usr/bin:/bin", "/bin"));
    assert!(!contains_dir("/usr/bin", "/usr/local/bin"));
    assert!(contains_dir("anything", ""));
    assert!(!contains_dir("", "/usr/bin"));
    assert!(contains_dir("/usr/bin", "/usr/bin"));
}
