use kernel_ci_center::text::{decimal_string, join_path, str_equal, to_hex_lower};
use kernel_ci_center::util::{
    choose_artifact, has_zip_extension, join_words, newest_index, pick_new_zip, retry_delay, retry_next,
    sha256_hex, zip_names, RetryAction,
};

fn strings(v: &[&str]) -> Vec<String> {
    v.iter().map(|s| s.to_string()).collect()
}

#[test]
fn sha256_of_known_inputs() {
    assert_eq!(sha256_hex(b"abc"), "ba7816bf8f01cfea414140de5dae2223b00361a396177a9cb410ff61f20015ad");
    assert_eq!(sha256_hex(b""), "e3b0c44298fc1c149afbf4c8996fb92427ae41e4649b934ca495991b7852b855");
}

#[test]
fn hex_and_decimal() {
    assert_eq!(to_hex_lower(&[0x00, 0x0f, 0xa5, 0xff]), "000fa5ff");
    assert_eq!(to_hex_lower(&[]), "");
    assert_eq!(decimal_string(0), "0");
    assert_eq!(decimal_string(987654321), "987654321");
    assert_eq!(decimal_string(u64::MAX), "18446744073709551615");
}

#[test]
fn paths_and_equality() {
    assert_eq!(join_path("", "a"), "a");
    assert_eq!(join_path("/w", ".git"), "/w/.git");
    assert_eq!(join_path("/w", ""), "/w/");
    assert!(str_equal("äb", "äb"));
    assert!(!str_equal("ab", "abc"));
}

#[test]
fn zip_extension() {
    assert!(has_zip_extension("kernel.zip"));
    assert!(has_zip_extension("..zip"));
    assert!(!has_zip_extension(".zip"));
    assert!(!has_zip_extension("kernel.ZIP"));
    assert!(!has_zip_extension("kernel.zip.sha256"));
    assert!(!has_zip_extension("zip"));
    assert_eq!(zip_names(&strings(&["a.zip", "b.tar", ".zip", "c.zip"])), strings(&["a.zip", "c.zip"]));
}

#[test]
fn new_zip_is_first_unseen() {
    let before = strings(&["/w/a.zip"]);
    let after = strings(&["/w/a.zip", "/w/b.zip", "/w/c.zip"]);
    assert_eq!(pick_new_zip(&before, &after).as_deref(), Some("/w/b.zip"));
    assert_eq!(pick_new_zip(&after, &before), None);
    assert_eq!(pick_new_zip(&before, &strings(&[])), None);
}

#[test]
fn newest_is_last_of_latest() {
    assert_eq!(newest_index(&vec![]), None);
    assert_eq!(newest_index(&vec![5, 9, 3, 9, 1]), Some(3));
    assert_eq!(newest_index(&vec![-4, -7]), Some(0));
}

#[test]
fn words_are_space_joined() {
    assert_eq!(join_words(&strings(&["-C", "/w", "fetch"])), "-C /w fetch");
    assert_eq!(join_words(&strings(&[])), "");
    assert_eq!(join_words(&strings(&["one"])), "one");
}

#[test]
fn retry_delays_double_up_to_a_minute() {
    assert_eq!(retry_delay(2, 1), 2);
    assert_eq!(retry_delay(2, 2), 4);
    assert_eq!(retry_delay(2, 5), 32);
    assert_eq!(retry_delay(2, 6), 60);
    assert_eq!(retry_delay(0, 40), 0);
    assert_eq!(retry_delay(1, 100), 60);
    assert_eq!(retry_delay(u64::MAX, 3), 60);
}

#[test]
fn retry_decisions() {
    assert_eq!(retry_next(1, 3, 5, true), RetryAction::Finish);
    assert_eq!(retry_next(1, 3, 5, false), RetryAction::WaitSecs(5));
    assert_eq!(retry_next(2, 3, 5, false), RetryAction::WaitSecs(10));
    assert_eq!(retry_next(3, 3, 5, false), RetryAction::GiveUp);
}

#[test]
fn artifact_prefers_new_zip_then_newest() {
    let before = strings(&["/w/a.zip"]);
    let after = strings(&["/w/a.zip", "/w/b.zip"]);
    assert_eq!(choose_artifact(&before, &after, Some("/w/a.zip".to_string())).as_deref(), Some("/w/b.zip"));
    assert_eq!(choose_artifact(&after, &after, Some("/w/a.zip".to_string())).as_deref(), Some("/w/a.zip"));
    assert_eq!(choose_artifact(&after, &before, None), None);
}
