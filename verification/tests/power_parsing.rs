use cross_booster::power::PowerError;
use cross_booster::power::check_if_scheme_exists;
use cross_booster::power::create_scheme_if_not_exists;
use cross_booster::power::delete_scheme;
use cross_booster::power::get_current_power_scheme_guid;
use cross_booster::power::get_power_schemes;
use cross_booster::power::is_reserved_scheme_id;

const BALANCED: &str = "381b4222-f694-41f0-9685-ff5bb260df2e";
const HIGH_PERF: &str = "8c5e7fda-e8bf-4a96-9a85-a6e23a8c635c";
const POWER_SAVER: &str = "a1841308-3541-4fab-bc81-f71556f20b4a";

#[test]
fn active_guid_from_english_line() {
    let out = "Power Scheme GUID: 381b4222-f694-41f0-9685-ff5bb260df2e  (Balanced)";
    assert_eq!(get_current_power_scheme_guid(out), Ok(BALANCED.to_string()));
}

#[test]
fn active_guid_from_russian_line() {
    let out = "GUID схемы питания: 8c5e7fda-e8bf-4a96-9a85-a6e23a8c635c  (Сбалансированная)";
    assert_eq!(get_current_power_scheme_guid(out), Ok(HIGH_PERF.to_string()));
}

#[test]
fn active_guid_skips_earlier_lines() {
    let out = "Subgroup GUID is elsewhere\r\nPower Scheme GUID: 381b4222-f694-41f0-9685-ff5bb260df2e  (Balanced)\r\n";
    assert_eq!(get_current_power_scheme_guid(out), Ok(BALANCED.to_string()));
}

#[test]
fn active_guid_wrong_length_is_parse_error() {
    let out = "Power Scheme GUID: tooshort  (Balanced)";
    assert_eq!(get_current_power_scheme_guid(out), Err(PowerError::Parse));
}

#[test]
fn active_guid_missing_line_is_parse_error() {
    assert_eq!(
        get_current_power_scheme_guid("no scheme information here"),
        Err(PowerError::Parse)
    );
    assert_eq!(get_current_power_scheme_guid(""), Err(PowerError::Parse));
}

#[test]
fn list_parsing_keeps_valid_lines_in_order() {
    let out = "Existing Power Schemes (* Active)\r\n\
               -----------------------------------\r\n\
               Power Scheme GUID: 381b4222-f694-41f0-9685-ff5bb260df2e  (Balanced)\r\n\
               Power Scheme GUID: badbadbad  (Broken)\r\n\
               Power Scheme GUID: 8c5e7fda-e8bf-4a96-9a85-a6e23a8c635c  (High performance) *\r\n";
    let schemes = get_power_schemes(out);
    assert_eq!(schemes.len(), 2);
    assert_eq!(schemes[0], (BALANCED.to_string(), "(Balanced)".to_string()));
    assert_eq!(
        schemes[1],
        (HIGH_PERF.to_string(), "(High performance)".to_string())
    );
}

#[test]
fn list_parsing_reads_russian_labels() {
    let out = "GUID схемы питания: a1841308-3541-4fab-bc81-f71556f20b4a  (Экономия энергии) *\n";
    let schemes = get_power_schemes(out);
    assert_eq!(schemes.len(), 1);
    assert_eq!(schemes[0].0, POWER_SAVER);
    assert_eq!(schemes[0].1, "(Экономия энергии)");
}

#[test]
fn list_parsing_of_empty_output() {
    assert_eq!(get_power_schemes("").len(), 0);
    assert_eq!(get_power_schemes("nothing relevant\r\n\r\n").len(), 0);
}

#[test]
fn existence_is_substring_containment() {
    let out = format!("Power Scheme GUID: {}  (Balanced)", BALANCED);
    assert!(check_if_scheme_exists(&out, BALANCED));
    assert!(!check_if_scheme_exists(&out, HIGH_PERF));
    // deliberately plain containment, not structural parsing
    assert!(check_if_scheme_exists("xx381b4222-f694-41f0-9685-ff5bb260df2exx", BALANCED));
}

#[test]
fn creation_decision_issues_duplicate_only_when_absent() {
    let without = format!("Power Scheme GUID: {}  (Balanced)", BALANCED);
    let with = format!(
        "Power Scheme GUID: {}  (Balanced)\r\nPower Scheme GUID: {}  (High performance)",
        BALANCED, HIGH_PERF
    );
    // first call: the scheme is missing, so the duplicate command is issued
    assert_eq!(
        create_scheme_if_not_exists(&without, HIGH_PERF),
        Some(format!(
            "powercfg /duplicatescheme 381b4222-f694-41f0-9685-ff5bb260df2e {}",
            HIGH_PERF
        ))
    );
    // second call: the scheme now exists, so nothing further is issued
    assert_eq!(create_scheme_if_not_exists(&with, HIGH_PERF), None);
}

#[test]
fn delete_command_text() {
    assert_eq!(
        delete_scheme(HIGH_PERF),
        format!("powercfg /delete {}", HIGH_PERF)
    );
}

#[test]
fn reserved_identifiers() {
    assert!(is_reserved_scheme_id(BALANCED));
    assert!(is_reserved_scheme_id(HIGH_PERF));
    assert!(is_reserved_scheme_id(POWER_SAVER));
    assert!(!is_reserved_scheme_id("00000000-0000-0000-0000-000000000000"));
}
