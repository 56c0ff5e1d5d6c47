//! Package records and the enumerations that classify them.

use vstd::prelude::*;

verus! {

/// On-device state of a package; `All` is the filter sentinel.
#[derive(Clone, Copy, Debug, PartialEq, Eq, Structural)]
pub enum PackageState {
    All,
    Enabled,
    Disabled,
    Uninstalled,
}

/// How safe the catalog considers the removal of a package; `All` is the
/// filter sentinel.
#[derive(Clone, Copy, Debug, PartialEq, Eq, Structural)]
pub enum Removal {
    All,
    Recommended,
    Advanced,
    Expert,
    Unsafe,
    Unlisted,
}

/// Catalog list a package belongs to; `All` is the filter sentinel.
#[derive(Clone, Copy, Debug, PartialEq, Eq, Structural)]
pub enum UadList {
    All,
    Aosp,
    Carrier,
    Google,
    Misc,
    Oem,
    Pending,
    Unlisted,
}

/// Whether the catalog in use is the remote one (`Done`) or the embedded
/// fallback (`Failed`).
#[derive(Clone, Copy, Debug, PartialEq, Eq, Structural)]
pub enum UadListState {
    Downloading,
    Done,
    Failed,
}

/// A user of the device; `index` is the position of the user's table.
#[derive(Clone, Copy, Debug, PartialEq, Eq, Structural)]
pub struct User {
    pub id: u16,
    pub index: usize,
}

/// One package of one user, with its mutable runtime state.
#[derive(Debug, Clone)]
pub struct PackageRow {
    pub name: String,
    pub state: PackageState,
    pub description: String,
    pub uad_list: UadList,
    pub removal: Removal,
    pub selected: bool,
    pub current: bool,
}

/// The state a package is in after a successful command on it: an enabled
/// package is disabled or uninstalled, as `disable_mode` says, and any other
/// package is enabled. The sentinel stays what it is.
pub open spec fn spec_opposite(state: PackageState, disable_mode: bool) -> PackageState {
    match state {
        PackageState::Enabled => if disable_mode {
            PackageState::Disabled
        } else {
            PackageState::Uninstalled
        },
        PackageState::Disabled => PackageState::Enabled,
        PackageState::Uninstalled => PackageState::Enabled,
        PackageState::All => PackageState::All,
    }
}

impl PackageState {
    /// The state after a successful command, as `spec_opposite` says.
    pub fn opposite(&self, disable_mode: bool) -> (next: PackageState)
        ensures
            next == spec_opposite(*self, disable_mode),
    {
        match self {
            PackageState::Enabled => {
                if disable_mode {
                    PackageState::Disabled
                } else {
                    PackageState::Uninstalled
                }
            },
            PackageState::Disabled => PackageState::Enabled,
            PackageState::Uninstalled => PackageState::Enabled,
            PackageState::All => PackageState::All,
        }
    }
}

/// Two successful commands in a row, under one `disable_mode`, bring a
/// package back to the state it started in, except where the first of them
/// re-enables a package that the second then removes in the other way: a
/// disabled package when removing uninstalls, an uninstalled one when
/// removing disables.
pub proof fn lemma_opposite_twice(state: PackageState, disable_mode: bool)
    ensures
        spec_opposite(spec_opposite(state, disable_mode), disable_mode) == state <==> !(state
            == PackageState::Disabled && !disable_mode) && !(state == PackageState::Uninstalled
            && disable_mode),
        state == PackageState::Enabled ==> spec_opposite(state, disable_mode)
            != PackageState::Enabled,
        state != PackageState::Enabled && state != PackageState::All ==> spec_opposite(
            state,
            disable_mode,
        ) == PackageState::Enabled,
{
}

/// A catalog entry: what is known of a package whatever the device.
#[derive(Debug, Clone)]
pub struct Package {
    pub id: String,
    pub list: UadList,
    pub description: String,
    pub removal: Removal,
}

/// Operator settings that the controller reads.
#[derive(Clone, Copy, Debug, PartialEq, Eq, Structural)]
pub struct GeneralSettings {
    pub expert_mode: bool,
}

/// Device settings that the controller reads.
#[derive(Clone, Copy, Debug, PartialEq, Eq, Structural)]
pub struct DeviceSettings {
    pub multi_user_mode: bool,
    pub disable_mode: bool,
}

/// The settings of the operator and of the device together.
#[derive(Clone, Copy, Debug, PartialEq, Eq, Structural)]
pub struct Settings {
    pub general: GeneralSettings,
    pub device: DeviceSettings,
}

} // verus!
