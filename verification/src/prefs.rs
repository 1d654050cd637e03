//! The hub's persisted preferences record and its mutation rule.
//!
//! The record is read once at start and rewritten in full on every change.
//! A partial update can set only the boolean flags; the install-directory
//! and installer-type overrides ride along unchanged.

use vstd::prelude::*;

verus! {

/// The mathematical content of a preferences record.
pub struct PrefsView {
    /// Launch the hub when the user logs in.
    pub open_on_startup: bool,
    /// Closing the main window hides it to the tray instead.
    pub close_to_tray: bool,
    /// Minimizing the main window hides it to the tray instead.
    pub minimize_to_tray: bool,
    /// The user's default install directory, when set.
    pub install_dir: Option<Seq<char>>,
    /// The user's default installer type, when set.
    pub installer_type: Option<Seq<char>>,
}

/// The persisted preferences record.
#[derive(Debug, Clone, PartialEq, Eq)]
pub struct HubPreferences {
    /// Launch the hub when the user logs in.
    pub open_on_startup: bool,
    /// Closing the main window hides it to the tray instead.
    pub close_to_tray: bool,
    /// Minimizing the main window hides it to the tray instead.
    pub minimize_to_tray: bool,
    /// The user's default install directory, when set.
    pub install_dir: Option<String>,
    /// The user's default installer type, when set.
    pub installer_type: Option<String>,
}

impl View for HubPreferences {
    type V = PrefsView;

    open spec fn view(&self) -> PrefsView {
        PrefsView {
            open_on_startup: self.open_on_startup,
            close_to_tray: self.close_to_tray,
            minimize_to_tray: self.minimize_to_tray,
            install_dir: match self.install_dir {
                Some(d) => Some(d@),
                None => None,
            },
            installer_type: match self.installer_type {
                Some(t) => Some(t@),
                None => None,
            },
        }
    }
}

/// The record every reader falls back to: all flags off, no overrides.
pub open spec fn default_prefs() -> PrefsView {
    PrefsView {
        open_on_startup: false,
        close_to_tray: false,
        minimize_to_tray: false,
        install_dir: None,
        installer_type: None,
    }
}

impl Default for HubPreferences {
    /// The all-default record.
    fn default() -> (r: HubPreferences)
        ensures
            r@ == default_prefs(),
    {
        HubPreferences {
            open_on_startup: false,
            close_to_tray: false,
            minimize_to_tray: false,
            install_dir: None,
            installer_type: None,
        }
    }
}

/// A partial preferences update: only the present fields are overwritten,
/// and only the boolean flags can be set through this path.
#[derive(Debug, Clone, Copy)]
pub struct HubPreferencesUpdate {
    /// New value for `open_on_startup`, when present.
    pub open_on_startup: Option<bool>,
    /// New value for `close_to_tray`, when present.
    pub close_to_tray: Option<bool>,
    /// New value for `minimize_to_tray`, when present.
    pub minimize_to_tray: Option<bool>,
}

/// What a record looks like after a partial update: present fields replace,
/// absent fields keep their prior values, overrides never change.
pub open spec fn apply_update_spec(p: PrefsView, u: HubPreferencesUpdate) -> PrefsView {
    PrefsView {
        open_on_startup: match u.open_on_startup {
            Some(v) => v,
            None => p.open_on_startup,
        },
        close_to_tray: match u.close_to_tray {
            Some(v) => v,
            None => p.close_to_tray,
        },
        minimize_to_tray: match u.minimize_to_tray {
            Some(v) => v,
            None => p.minimize_to_tray,
        },
        install_dir: p.install_dir,
        installer_type: p.installer_type,
    }
}

impl HubPreferences {
    /// Merge a partial update into this record.
    pub fn apply_update(&self, update: &HubPreferencesUpdate) -> (r: HubPreferences)
        ensures
            r@ == apply_update_spec(self@, *update),
    {
        let install_dir = match &self.install_dir {
            Some(d) => Some(d.clone()),
            None => None,
        };
        let installer_type = match &self.installer_type {
            Some(t) => Some(t.clone()),
            None => None,
        };
        HubPreferences {
            open_on_startup: match update.open_on_startup {
                Some(v) => v,
                None => self.open_on_startup,
            },
            close_to_tray: match update.close_to_tray {
                Some(v) => v,
                None => self.close_to_tray,
            },
            minimize_to_tray: match update.minimize_to_tray {
                Some(v) => v,
                None => self.minimize_to_tray,
            },
            install_dir,
            installer_type,
        }
    }
}

/// Fall back to the all-default record when no stored record could be read
/// or parsed: loading preferences never fails the caller.
pub fn preferences_or_default(loaded: Option<HubPreferences>) -> (r: HubPreferences)
    ensures
        (match loaded {
            Some(p) => r@ == p@,
            None => r@ == default_prefs(),
        }),
{
    match loaded {
        Some(p) => p,
        None => HubPreferences::default(),
    }
}

} // verus!
