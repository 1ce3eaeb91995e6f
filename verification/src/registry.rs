//! The visual-effects setting manager's verified half: resolving a
//! backslash-delimited registry-style path into one of the five well-known
//! root scopes plus a subpath, and the fixed path, key and values of the
//! visual-effects setting. The unverified shell performs the actual store
//! reads and writes with the resolved parts.

use vstd::prelude::*;
use vstd::string::StrSliceExecFns;

use crate::text::find_from;
use crate::text::lemma_find_from;
use crate::text::find_char_from;
use crate::text::str_eq;

verus! {

/// The five well-known root scopes a path's first segment may name.
#[derive(Clone, Copy, PartialEq, Eq, Debug, Structural)]
pub enum RegistryRoot {
    ClassesRoot,
    CurrentUser,
    LocalMachine,
    Users,
    CurrentConfig,
}

/// Errors of the visual-effects setting manager. `InvalidPath` arises in
/// this crate when a path has no recognized root segment; `NotFound` and
/// `Access` are for the caller to map store failures onto.
#[derive(Clone, Copy, PartialEq, Eq, Debug, Structural)]
pub enum RegistryError {
    InvalidPath,
    NotFound,
    Access,
}

/// The root scope a path's first segment names, if any.
pub open spec fn root_of_segment(seg: Seq<char>) -> Option<RegistryRoot> {
    if seg == "HKCR"@ {
        Some(RegistryRoot::ClassesRoot)
    } else if seg == "HKCU"@ {
        Some(RegistryRoot::CurrentUser)
    } else if seg == "HKLM"@ {
        Some(RegistryRoot::LocalMachine)
    } else if seg == "HKU"@ {
        Some(RegistryRoot::Users)
    } else if seg == "HKCC"@ {
        Some(RegistryRoot::CurrentConfig)
    } else {
        None
    }
}

/// What resolving a path yields: the root scope its first
/// backslash-delimited segment names together with the rest of the path, or
/// `InvalidPath` when the path has fewer than two segments or an
/// unrecognized root.
pub open spec fn resolved_path(path: Seq<char>) -> Result<(RegistryRoot, Seq<char>), RegistryError> {
    match find_from(path, '\\', 0) {
        None => Err(RegistryError::InvalidPath),
        Some(i) => match root_of_segment(path.subrange(0, i)) {
            Some(root) => Ok((root, path.subrange(i + 1, path.len() as int))),
            None => Err(RegistryError::InvalidPath),
        },
    }
}

/// Registry path and value-name utilities shared by the store accessors.
pub struct RegistryUtils;

impl RegistryUtils {
    /// Splits a registry-style path into its root scope and subpath.
    /// Fails with `InvalidPath`, before any store could be touched, exactly
    /// when the path has no backslash or its first segment names no
    /// recognized root.
    pub fn resolve_path(path: &str) -> (r: Result<(RegistryRoot, String), RegistryError>)
        ensures
            match r {
                Ok(p) => resolved_path(path@) == Ok::<(RegistryRoot, Seq<char>), RegistryError>(
                    (p.0, p.1@),
                ),
                Err(e) => resolved_path(path@) == Err::<(RegistryRoot, Seq<char>), RegistryError>(
                    e,
                ),
            },
    {
        let llen = path.unicode_len();
        match find_char_from(path, '\\', 0) {
            None => Err(RegistryError::InvalidPath),
            Some(i) => {
                proof {
                    lemma_find_from(path@, '\\', 0);
                }
                let seg = path.substring_char(0, i);
                let rest = path.substring_char(i + 1, llen).to_owned();
                if str_eq(seg, "HKCR") {
                    Ok((RegistryRoot::ClassesRoot, rest))
                } else if str_eq(seg, "HKCU") {
                    Ok((RegistryRoot::CurrentUser, rest))
                } else if str_eq(seg, "HKLM") {
                    Ok((RegistryRoot::LocalMachine, rest))
                } else if str_eq(seg, "HKU") {
                    Ok((RegistryRoot::Users, rest))
                } else if str_eq(seg, "HKCC") {
                    Ok((RegistryRoot::CurrentConfig, rest))
                } else {
                    Err(RegistryError::InvalidPath)
                }
            },
        }
    }

    /// The fixed path of the visual-effects setting.
    pub fn performance_visual_fx_path() -> (r: &'static str)
        ensures
            r@ == visual_fx_path(),
    {
        "HKCU\\Software\\Microsoft\\Windows\\CurrentVersion\\Explorer\\VisualEffects"
    }

    /// The fixed value name of the visual-effects setting.
    pub fn performance_visual_fx_key() -> (r: &'static str)
        ensures
            r@ == visual_fx_key(),
    {
        "VisualFXSetting"
    }
}

/// The registry path under which the visual-effects setting is stored.
pub open spec fn visual_fx_path() -> Seq<char> {
    "HKCU\\Software\\Microsoft\\Windows\\CurrentVersion\\Explorer\\VisualEffects"@
}

/// The value name under which the visual-effects setting is stored.
pub open spec fn visual_fx_key() -> Seq<char> {
    "VisualFXSetting"@
}

/// The stored value that stands for each state of the visual-effects
/// toggle: 2 is performance-optimized, 1 is effects enabled.
pub open spec fn visual_fx_value(optimized: bool) -> u32 {
    if optimized {
        2
    } else {
        1
    }
}

/// Whether a stored value means performance-optimized: only the exact value
/// 2 does; any other stored value counts as not optimized.
pub fn is_performance_optimized(value: u32) -> (r: bool)
    ensures
        r == (value == 2),
{
    value == 2
}

} // verus!
