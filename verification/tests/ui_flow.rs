use cross_booster::app_state::AppState;
use cross_booster::app_state::restart_shell_command;
use cross_booster::console::decode_console_bytes;
use cross_booster::power::get_power_schemes;
use cross_booster::utils::get_system_language;
use cross_booster::utils::get_version;
use cross_booster::utils::language_for_ui_language_id;

const BALANCED: &str = "381b4222-f694-41f0-9685-ff5bb260df2e";
const HIGH_PERF: &str = "8c5e7fda-e8bf-4a96-9a85-a6e23a8c635c";

#[test]
fn fresh_state_is_uninitialized() {
    let s = AppState::default();
    assert!(!s.high_performance_enabled);
    assert!(!s.performance_optimized);
    assert!(!s.initialized);
}

#[test]
fn initialization_mirrors_external_state() {
    let mut s = AppState::default();
    s.initialize(Some(HIGH_PERF), Some(2));
    assert!(s.initialized);
    assert!(s.high_performance_enabled);
    assert!(s.performance_optimized);

    let mut s = AppState::default();
    s.initialize(Some(BALANCED), Some(1));
    assert!(!s.high_performance_enabled);
    assert!(!s.performance_optimized);

    // a failed scheme query leaves the flag, a failed read clears it
    let mut s = AppState::default();
    s.performance_optimized = true;
    s.high_performance_enabled = true;
    s.initialize(None, None);
    assert!(s.high_performance_enabled);
    assert!(!s.performance_optimized);
}

#[test]
fn toggle_on_without_scheme_duplicates_then_activates() {
    let mut s = AppState::default();
    let listing = format!("Power Scheme GUID: {}  (Balanced)", BALANCED);
    let cmds = s.toggle_high_performance(true, &listing);
    assert_eq!(
        cmds,
        vec![
            format!(
                "powercfg /duplicatescheme 381b4222-f694-41f0-9685-ff5bb260df2e {}",
                HIGH_PERF
            ),
            format!("powercfg /setactive {}", HIGH_PERF),
        ]
    );
    assert!(s.high_performance_enabled);
}

#[test]
fn toggle_on_with_scheme_only_activates() {
    let mut s = AppState::default();
    let listing = format!(
        "Power Scheme GUID: {}  (Balanced)\r\nPower Scheme GUID: {}  (High performance)",
        BALANCED, HIGH_PERF
    );
    let cmds = s.toggle_high_performance(true, &listing);
    assert_eq!(cmds, vec![format!("powercfg /setactive {}", HIGH_PERF)]);
}

#[test]
fn toggle_off_activates_balanced_only() {
    let mut s = AppState::default();
    s.high_performance_enabled = true;
    let listing = format!("Power Scheme GUID: {}  (High performance)", HIGH_PERF);
    let cmds = s.toggle_high_performance(false, &listing);
    assert_eq!(cmds, vec![format!("powercfg /setactive {}", BALANCED)]);
    assert!(!s.high_performance_enabled);
}

#[test]
fn effects_toggle_values_and_restart_command() {
    let mut s = AppState::default();
    assert_eq!(s.toggle_visual_effects(true), 2);
    assert!(s.performance_optimized);
    assert_eq!(s.toggle_visual_effects(false), 1);
    assert!(!s.performance_optimized);
    assert_eq!(
        restart_shell_command(),
        "taskkill /f /im explorer.exe && start explorer.exe"
    );
}

#[test]
fn console_decoding_is_ibm866() {
    // ASCII passes through
    assert_eq!(decode_console_bytes(b"powercfg output"), "powercfg output");
    // the high half maps through the code page, not through identity
    assert_eq!(decode_console_bytes(&[0x80]), "\u{0410}");
    assert_eq!(decode_console_bytes(&[]), "");
}

#[test]
fn decoded_russian_listing_parses() {
    let line = format!(
        "GUID схемы питания: {}  (Сбалансированная) *\r\n",
        BALANCED
    );
    let (bytes, _, _) = encoding_rs::IBM866.encode(&line);
    let text = decode_console_bytes(&bytes);
    let schemes = get_power_schemes(&text);
    assert_eq!(schemes.len(), 1);
    assert_eq!(schemes[0].0, BALANCED);
    assert_eq!(schemes[0].1, "(Сбалансированная)");
}

#[test]
fn version_and_language_defaults() {
    assert_eq!(get_version(), "1.0.0");
    assert_eq!(get_system_language(), "en");
    assert_eq!(language_for_ui_language_id(0x0409), "en");
    assert_eq!(language_for_ui_language_id(0x0419), "ru");
    assert_eq!(language_for_ui_language_id(0x0407), "en");
}
