//! The window's state and every decision its two checkboxes trigger, as a
//! state machine over plain values: the queried external state comes in as
//! arguments, and each toggle returns exactly the commands to run or the
//! value to store. The unverified frame loop renders the checkboxes,
//! executes what is returned, and ignores failures as the error policy asks.

use vstd::prelude::*;
use vstd::string::StringExecFns;

use crate::power::balanced_guid;
use crate::power::create_scheme_if_not_exists;
use crate::power::duplicate_command;
use crate::power::high_performance_guid;
use crate::power::set_active_command;
use crate::text::contains_sub;
use crate::text::str_eq;

verus! {

/// The two checkbox flags and the once-per-run initialization flag.
pub struct AppState {
    pub high_performance_enabled: bool,
    pub performance_optimized: bool,
    pub initialized: bool,
}

impl Default for AppState {
    /// The state before the first frame: both toggles off, not yet
    /// synchronized from the external state.
    fn default() -> (r: AppState)
        ensures
            !r.high_performance_enabled,
            !r.performance_optimized,
            !r.initialized,
    {
        AppState { high_performance_enabled: false, performance_optimized: false, initialized: false }
    }
}

/// The commands a change of the high-performance checkbox issues, in order:
/// switching on duplicates the Balanced scheme first when the listing lacks
/// the High Performance identifier, then activates High Performance;
/// switching off only activates Balanced.
pub open spec fn high_performance_plan(enabled: bool, exists: bool) -> Seq<Seq<char>> {
    if enabled {
        if exists {
            seq![set_active_command(high_performance_guid())]
        } else {
            seq![
                duplicate_command(high_performance_guid()),
                set_active_command(high_performance_guid()),
            ]
        }
    } else {
        seq![set_active_command(balanced_guid())]
    }
}

impl AppState {
    /// First-frame synchronization from the queried external state: the
    /// power flag mirrors whether the active scheme is High Performance
    /// (left as it was when the query failed), the effects flag mirrors
    /// whether the stored value is exactly 2 (off when the read failed),
    /// and initialization is recorded so this happens once per run.
    pub fn initialize(&mut self, active_guid: Option<&str>, fx_setting: Option<u32>)
        ensures
            final(self).initialized,
            final(self).high_performance_enabled == match active_guid {
                Some(g) => g@ == high_performance_guid(),
                None => old(self).high_performance_enabled,
            },
            final(self).performance_optimized == (fx_setting == Some(2u32)),
    {
        match active_guid {
            Some(g) => {
                self.high_performance_enabled = str_eq(g, "8c5e7fda-e8bf-4a96-9a85-a6e23a8c635c");
            },
            None => {},
        }
        match fx_setting {
            Some(v) => {
                self.performance_optimized = v == 2;
            },
            None => {
                self.performance_optimized = false;
            },
        }
        self.initialized = true;
    }

    /// Applies a change of the high-performance checkbox: records the new
    /// flag and returns the commands to run, in order, deciding the
    /// duplication from the given `powercfg /list` output. Duplicate
    /// removal follows separately, on a fresh listing.
    pub fn toggle_high_performance(&mut self, enabled: bool, list_output: &str) -> (r: Vec<String>)
        ensures
            final(self).high_performance_enabled == enabled,
            final(self).performance_optimized == old(self).performance_optimized,
            final(self).initialized == old(self).initialized,
            r.deep_view() == high_performance_plan(
                enabled,
                contains_sub(list_output@, high_performance_guid()),
            ),
    {
        self.high_performance_enabled = enabled;
        let mut cmds: Vec<String> = Vec::new();
        if enabled {
            let created = create_scheme_if_not_exists(
                list_output,
                "8c5e7fda-e8bf-4a96-9a85-a6e23a8c635c",
            );
            match created {
                Some(cmd) => {
                    cmds.push(cmd);
                },
                None => {},
            }
            let activate = String::from_str("powercfg /setactive ").concat(
                "8c5e7fda-e8bf-4a96-9a85-a6e23a8c635c",
            );
            cmds.push(activate);
        } else {
            let activate = String::from_str("powercfg /setactive ").concat(
                "381b4222-f694-41f0-9685-ff5bb260df2e",
            );
            cmds.push(activate);
        }
        proof {
            assert(cmds.deep_view() =~= high_performance_plan(
                enabled,
                contains_sub(list_output@, high_performance_guid()),
            ));
        }
        cmds
    }

    /// Applies a change of the effects checkbox: records the new flag and
    /// returns the value to store under the visual-effects key, 2 to
    /// optimize and 1 to restore effects. After a successful store the
    /// caller restarts the desktop shell to apply it.
    pub fn toggle_visual_effects(&mut self, optimized: bool) -> (r: u32)
        ensures
            final(self).performance_optimized == optimized,
            final(self).high_performance_enabled == old(self).high_performance_enabled,
            final(self).initialized == old(self).initialized,
            r == crate::registry::visual_fx_value(optimized),
    {
        self.performance_optimized = optimized;
        if optimized {
            2
        } else {
            1
        }
    }
}

/// The fire-and-forget command that restarts the desktop shell so a stored
/// visual-effects value takes effect.
pub fn restart_shell_command() -> (r: String)
    ensures
        r@ == "taskkill /f /im explorer.exe && start explorer.exe"@,
{
    String::from_str("taskkill /f /im explorer.exe && start explorer.exe")
}

} // verus!
