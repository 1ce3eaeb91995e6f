//! Small application facts: the displayed version and the UI language
//! choice. Querying the OS for its UI language identifier is a system call
//! left to the unverified shell; the decision it feeds is made here.

use vstd::prelude::*;

verus! {

/// The displayed application version when no build overrides it.
pub fn get_version() -> (r: &'static str)
    ensures
        r@ == "1.0.0"@,
{
    "1.0.0"
}

/// The UI language on platforms without a language query: English.
pub fn get_system_language() -> (r: &'static str)
    ensures
        r@ == "en"@,
{
    "en"
}

/// The UI language a Windows user-default-UI-language identifier selects:
/// its primary-language bits pick Russian or English, defaulting to
/// English.
pub fn language_for_ui_language_id(lang_id: u16) -> (r: &'static str)
    ensures
        r@ == if lang_id & 0x3FF == 0x19 {
            "ru"@
        } else {
            "en"@
        },
{
    let primary = lang_id & 0x3FF;
    if primary == 0x09 {
        "en"
    } else if primary == 0x19 {
        "ru"
    } else {
        "en"
    }
}

} // verus!
