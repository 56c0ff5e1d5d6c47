//! The events that the controller takes and the work it hands out.

use vstd::prelude::*;
use crate::package::{Package, PackageRow, PackageState, Removal, UadList, UadListState, User};

verus! {

/// What a device command was about: the row, the user whose table is to be
/// changed where that is not the active one, and the load cycle of the
/// table that the row belonged to.
#[derive(Debug, Clone)]
pub struct PackageInfo {
    pub i_user: Option<usize>,
    pub index: usize,
    pub removal: String,
    pub generation: u64,
}

/// Direction of a bulk action.
#[derive(Clone, Copy, Debug, PartialEq, Eq, Structural)]
pub enum Action {
    Remove,
    Restore,
}

/// Phase of the controller, with a status text.
#[derive(Debug, Clone)]
pub enum LoadingState {
    DownloadingList(String),
    FindingPhones(String),
    LoadingPackages(String),
    _UpdatingUad(String),
    Ready(String),
    RestoringDevice(String),
}

impl LoadingState {
    /// The status text of the phase.
    pub open spec fn text(&self) -> Seq<char> {
        match self {
            LoadingState::DownloadingList(t) => t@,
            LoadingState::FindingPhones(t) => t@,
            LoadingState::LoadingPackages(t) => t@,
            LoadingState::_UpdatingUad(t) => t@,
            LoadingState::Ready(t) => t@,
            LoadingState::RestoringDevice(t) => t@,
        }
    }

    /// Both are the same phase, whatever their texts.
    pub open spec fn same_phase(&self, other: LoadingState) -> bool {
        match (self, other) {
            (LoadingState::DownloadingList(_), LoadingState::DownloadingList(_)) => true,
            (LoadingState::FindingPhones(_), LoadingState::FindingPhones(_)) => true,
            (LoadingState::LoadingPackages(_), LoadingState::LoadingPackages(_)) => true,
            (LoadingState::_UpdatingUad(_), LoadingState::_UpdatingUad(_)) => true,
            (LoadingState::Ready(_), LoadingState::Ready(_)) => true,
            (LoadingState::RestoringDevice(_), LoadingState::RestoringDevice(_)) => true,
            _ => false,
        }
    }

    /// Puts `text` in place of the status text and keeps the phase.
    pub fn set_text(&mut self, text: String)
        ensures
            final(self).same_phase(*old(self)),
            final(self).text() == text@,
    {
        match self {
            LoadingState::DownloadingList(t) => {
                *t = text;
            },
            LoadingState::FindingPhones(t) => {
                *t = text;
            },
            LoadingState::LoadingPackages(t) => {
                *t = text;
            },
            LoadingState::_UpdatingUad(t) => {
                *t = text;
            },
            LoadingState::Ready(t) => {
                *t = text;
            },
            LoadingState::RestoringDevice(t) => {
                *t = text;
            },
        }
    }
}

impl Default for LoadingState {
    fn default() -> (phase: LoadingState)
        ensures
            phase matches LoadingState::FindingPhones(t) && t@ == Seq::<char>::empty(),
    {
        LoadingState::FindingPhones(String::new())
    }
}

/// What a finished device command reports back.
#[derive(Debug, Clone)]
pub enum CommandType {
    PackageManager(PackageInfo),
    Shell,
}

/// What the operator did to one row.
#[derive(Clone, Copy, Debug, PartialEq, Eq, Structural)]
pub enum RowMessage {
    ToggleSelection(bool),
    ActionPressed,
    PackagePressed,
}

/// An event for the controller.
#[derive(Debug)]
pub enum Message {
    LoadUadList(bool),
    LoadPhonePackages((Vec<Package>, UadListState)),
    RestoringDevice(Result<CommandType, ()>),
    ApplyFilters(Vec<Vec<PackageRow>>),
    SearchInputChanged(String),
    ToggleAllSelected(bool),
    ListSelected(UadList),
    UserSelected(User),
    PackageStateSelected(PackageState),
    RemovalSelected(Removal),
    ApplyActionOnSelection(Action),
    List(usize, RowMessage),
    ChangePackageState(Result<CommandType, ()>),
    Nothing,
}

/// What the caller has to do after an event was taken.
#[derive(Debug, Clone)]
pub enum Effect {
    /// Nothing is left to do.
    Done,
    /// The event was deliberately not applied.
    Refused,
    /// Load the catalog, from the network if the flag says so.
    LoadCatalog(bool),
    /// List the packages of each user of the device.
    LoadPackages,
    /// Work out the device commands for each of these rows, in this order,
    /// and run them.
    Plan(Vec<PackageInfo>),
}

/// The name under which a removal class is shown.
pub open spec fn removal_label(removal: Removal) -> Seq<char> {
    match removal {
        Removal::All => "All Removals"@,
        Removal::Recommended => "Recommended"@,
        Removal::Advanced => "Advanced"@,
        Removal::Expert => "Expert"@,
        Removal::Unsafe => "Unsafe"@,
        Removal::Unlisted => "Unlisted"@,
    }
}

impl Removal {
    /// The name of the removal class, as a string of its own.
    pub fn label(&self) -> (name: String)
        ensures
            name@ == removal_label(*self),
    {
        match self {
            Removal::All => "All Removals".to_owned(),
            Removal::Recommended => "Recommended".to_owned(),
            Removal::Advanced => "Advanced".to_owned(),
            Removal::Expert => "Expert".to_owned(),
            Removal::Unsafe => "Unsafe".to_owned(),
            Removal::Unlisted => "Unlisted".to_owned(),
        }
    }
}

} // verus!
