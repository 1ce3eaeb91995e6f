use cross_booster::power::cleanup_duplicate_schemes;

const BALANCED: &str = "381b4222-f694-41f0-9685-ff5bb260df2e";
const HIGH_PERF: &str = "8c5e7fda-e8bf-4a96-9a85-a6e23a8c635c";
const POWER_SAVER: &str = "a1841308-3541-4fab-bc81-f71556f20b4a";
const A: &str = "aaaaaaaa-aaaa-aaaa-aaaa-aaaaaaaaaaaa";
const B: &str = "bbbbbbbb-bbbb-bbbb-bbbb-bbbbbbbbbbbb";
const C: &str = "cccccccc-cccc-cccc-cccc-cccccccccccc";

fn pairs(v: &[(&str, &str)]) -> Vec<(String, String)> {
    v.iter().map(|(g, n)| (g.to_string(), n.to_string())).collect()
}

#[test]
fn later_duplicate_is_deleted_first_kept() {
    let schemes = pairs(&[(A, "X"), (B, "X"), (C, "Y")]);
    assert_eq!(cleanup_duplicate_schemes(&schemes), vec![B.to_string()]);
}

#[test]
fn no_duplicates_means_no_deletions() {
    let schemes = pairs(&[(A, "X"), (B, "Y"), (C, "Z")]);
    assert!(cleanup_duplicate_schemes(&schemes).is_empty());
}

#[test]
fn reserved_duplicates_are_never_deleted() {
    let schemes = pairs(&[
        (A, "Balanced"),
        (BALANCED, "Balanced"),
        (HIGH_PERF, "Balanced"),
        (POWER_SAVER, "Balanced"),
    ]);
    assert!(cleanup_duplicate_schemes(&schemes).is_empty());
}

#[test]
fn unreserved_duplicate_of_reserved_name_is_deleted() {
    let schemes = pairs(&[(BALANCED, "Balanced"), (A, "Balanced"), (B, "Balanced")]);
    assert_eq!(
        cleanup_duplicate_schemes(&schemes),
        vec![A.to_string(), B.to_string()]
    );
}

#[test]
fn all_later_same_named_schemes_are_candidates() {
    let schemes = pairs(&[(A, "X"), (B, "X"), (C, "X")]);
    assert_eq!(
        cleanup_duplicate_schemes(&schemes),
        vec![B.to_string(), C.to_string()]
    );
}
