use cross_booster::registry::RegistryError;
use cross_booster::registry::RegistryRoot;
use cross_booster::registry::RegistryUtils;
use cross_booster::registry::is_performance_optimized;

#[test]
fn unknown_root_fails_without_store_access() {
    assert_eq!(
        RegistryUtils::resolve_path("FOO\\Bar"),
        Err(RegistryError::InvalidPath)
    );
}

#[test]
fn single_segment_path_is_invalid() {
    assert_eq!(
        RegistryUtils::resolve_path("HKCU"),
        Err(RegistryError::InvalidPath)
    );
    assert_eq!(RegistryUtils::resolve_path(""), Err(RegistryError::InvalidPath));
}

#[test]
fn all_five_roots_resolve() {
    assert_eq!(
        RegistryUtils::resolve_path("HKCR\\Sub"),
        Ok((RegistryRoot::ClassesRoot, "Sub".to_string()))
    );
    assert_eq!(
        RegistryUtils::resolve_path("HKCU\\Sub"),
        Ok((RegistryRoot::CurrentUser, "Sub".to_string()))
    );
    assert_eq!(
        RegistryUtils::resolve_path("HKLM\\Sub"),
        Ok((RegistryRoot::LocalMachine, "Sub".to_string()))
    );
    assert_eq!(
        RegistryUtils::resolve_path("HKU\\Sub"),
        Ok((RegistryRoot::Users, "Sub".to_string()))
    );
    assert_eq!(
        RegistryUtils::resolve_path("HKCC\\Sub"),
        Ok((RegistryRoot::CurrentConfig, "Sub".to_string()))
    );
}

#[test]
fn subpath_keeps_inner_backslashes() {
    assert_eq!(
        RegistryUtils::resolve_path(
            "HKCU\\Software\\Microsoft\\Windows\\CurrentVersion\\Explorer\\VisualEffects"
        ),
        Ok((
            RegistryRoot::CurrentUser,
            "Software\\Microsoft\\Windows\\CurrentVersion\\Explorer\\VisualEffects".to_string()
        ))
    );
}

#[test]
fn visual_fx_location_constants() {
    assert_eq!(
        RegistryUtils::performance_visual_fx_path(),
        "HKCU\\Software\\Microsoft\\Windows\\CurrentVersion\\Explorer\\VisualEffects"
    );
    assert_eq!(RegistryUtils::performance_visual_fx_key(), "VisualFXSetting");
}

#[test]
fn only_two_means_optimized() {
    assert!(is_performance_optimized(2));
    assert!(!is_performance_optimized(1));
    assert!(!is_performance_optimized(0));
    assert!(!is_performance_optimized(3));
}
