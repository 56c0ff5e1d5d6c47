use uad_list::dispatch::{dispatch_plan, outcome_message, PlannedCommand};
use uad_list::filter::matching_indices;
use uad_list::list::{remove_action, restore_action, List};
use uad_list::message::{
    Action, CommandType, Effect, LoadingState, Message, PackageInfo, RowMessage,
};
use uad_list::package::{
    DeviceSettings, GeneralSettings, Package, PackageRow, PackageState, Removal, Settings,
    UadList, UadListState, User,
};
use uad_list::selection::Selection;

fn row(name: &str, state: PackageState, removal: Removal, list: UadList) -> PackageRow {
    PackageRow {
        name: name.to_string(),
        state,
        description: format!("about {}", name),
        uad_list: list,
        removal,
        selected: false,
        current: false,
    }
}

fn settings(expert_mode: bool, multi_user_mode: bool, disable_mode: bool) -> Settings {
    Settings {
        general: GeneralSettings { expert_mode },
        device: DeviceSettings { multi_user_mode, disable_mode },
    }
}

fn abc() -> Vec<PackageRow> {
    vec![
        row("com.a.alpha", PackageState::Enabled, Removal::Recommended, UadList::Google),
        row("com.b.beta", PackageState::Disabled, Removal::Advanced, UadList::Oem),
        row("com.c.gamma", PackageState::Enabled, Removal::Unsafe, UadList::Google),
    ]
}

fn ready(tables: Vec<Vec<PackageRow>>) -> List {
    let mut list = List::new();
    let mut state = UadListState::Downloading;
    let effect = list.update(&settings(true, false, false), &mut state, Message::ApplyFilters(tables));
    assert!(matches!(effect, Effect::Done));
    list
}

fn counters(list: &List) -> (usize, usize, usize) {
    (list.selection.enabled, list.selection.disabled, list.selection.uninstalled)
}

fn recounted(list: &List) -> (usize, usize, usize) {
    let rows = &list.phone_packages[list.selected_user.index];
    let mut c = (0, 0, 0);
    for i in &list.selection.selected_packages {
        match rows[*i].state {
            PackageState::Enabled => c.0 += 1,
            PackageState::Disabled => c.1 += 1,
            PackageState::Uninstalled => c.2 += 1,
            PackageState::All => {}
        }
    }
    c
}

fn ok_outcome(index: usize, i_user: Option<usize>, generation: u64) -> Result<CommandType, ()> {
    Ok(CommandType::PackageManager(PackageInfo {
        i_user,
        index,
        removal: "Recommended".to_string(),
        generation,
    }))
}

#[test]
fn opposite_over_all_inputs() {
    assert_eq!(PackageState::Enabled.opposite(true), PackageState::Disabled);
    assert_eq!(PackageState::Enabled.opposite(false), PackageState::Uninstalled);
    assert_eq!(PackageState::Disabled.opposite(true), PackageState::Enabled);
    assert_eq!(PackageState::Disabled.opposite(false), PackageState::Enabled);
    assert_eq!(PackageState::Uninstalled.opposite(true), PackageState::Enabled);
    assert_eq!(PackageState::Uninstalled.opposite(false), PackageState::Enabled);
    assert_eq!(PackageState::All.opposite(true), PackageState::All);
    assert_eq!(PackageState::All.opposite(false), PackageState::All);
}

#[test]
fn remove_then_restore_returns_to_enabled() {
    for disable in [true, false] {
        let s = PackageState::Enabled;
        assert_eq!(s.opposite(disable).opposite(disable), s);
    }
    assert_eq!(PackageState::Disabled.opposite(true).opposite(true), PackageState::Disabled);
    assert_eq!(
        PackageState::Uninstalled.opposite(false).opposite(false),
        PackageState::Uninstalled
    );
    assert_eq!(PackageState::Disabled.opposite(false).opposite(false), PackageState::Uninstalled);
}

#[test]
fn new_list_is_empty_and_finding_phones() {
    let list = List::new();
    assert!(list.phone_packages.is_empty());
    assert!(list.filtered_packages.is_empty());
    assert!(list.selection.selected_packages.is_empty());
    assert!(matches!(&list.loading_state, LoadingState::FindingPhones(t) if t.is_empty()));
    let d = List::default();
    assert_eq!(d.generation, 0);
    assert!(matches!(LoadingState::default(), LoadingState::FindingPhones(t) if t.is_empty()));
    let s = Selection::default();
    assert_eq!((s.enabled, s.disabled, s.uninstalled), (0, 0, 0));
}

#[test]
fn default_filters_show_whole_table_in_order() {
    let list = ready(vec![abc()]);
    assert_eq!(list.filtered_packages, vec![0, 1, 2]);
    assert!(matches!(&list.loading_state, LoadingState::Ready(t) if t.is_empty()));
    assert_eq!(list.selected_list, UadList::All);
    assert_eq!(list.selected_package_state, PackageState::All);
    assert_eq!(list.selected_removal, Removal::All);
    assert_eq!(list.selected_user, User { id: 0, index: 0 });
}

#[test]
fn filters_are_a_conjunction() {
    let rows = abc();
    let none = String::new();
    assert_eq!(
        matching_indices(&rows, UadList::All, PackageState::Enabled, Removal::All, &none),
        vec![0, 2]
    );
    assert_eq!(
        matching_indices(&rows, UadList::Google, PackageState::Enabled, Removal::Unsafe, &none),
        vec![2]
    );
    assert_eq!(
        matching_indices(&rows, UadList::Oem, PackageState::Enabled, Removal::All, &none),
        Vec::<usize>::new()
    );
    assert_eq!(
        matching_indices(&rows, UadList::All, PackageState::All, Removal::Advanced, &none),
        vec![1]
    );
}

#[test]
fn text_filter_is_exact_substring() {
    let rows = abc();
    let find = |t: &str| {
        matching_indices(&rows, UadList::All, PackageState::All, Removal::All, &t.to_string())
    };
    assert_eq!(find(""), vec![0, 1, 2]);
    assert_eq!(find("com."), vec![0, 1, 2]);
    assert_eq!(find("beta"), vec![1]);
    assert_eq!(find("Beta"), Vec::<usize>::new());
    assert_eq!(find("a.al"), vec![0]);
    assert_eq!(find("com.c.gamma"), vec![2]);
    assert_eq!(find("com.c.gammas"), Vec::<usize>::new());
}

#[test]
fn filter_events_recompute_the_view() {
    let mut list = ready(vec![abc()]);
    let st = settings(false, false, false);
    let mut state = UadListState::Done;
    list.update(&st, &mut state, Message::PackageStateSelected(PackageState::Enabled));
    assert_eq!(list.filtered_packages, vec![0, 2]);
    list.update(&st, &mut state, Message::RemovalSelected(Removal::Unsafe));
    assert_eq!(list.filtered_packages, vec![2]);
    list.update(&st, &mut state, Message::RemovalSelected(Removal::All));
    list.update(&st, &mut state, Message::ListSelected(UadList::Oem));
    assert_eq!(list.filtered_packages, Vec::<usize>::new());
    list.update(&st, &mut state, Message::ListSelected(UadList::All));
    list.update(&st, &mut state, Message::PackageStateSelected(PackageState::All));
    list.update(&st, &mut state, Message::SearchInputChanged("gamma".to_string()));
    assert_eq!(list.filtered_packages, vec![2]);
    assert_eq!(list.input_value, "gamma");
    assert_eq!(state, UadListState::Done);
}

#[test]
fn toggle_one_counts_each_transition_once() {
    let mut list = ready(vec![abc()]);
    assert!(matches!(list.toggle_one(0, true, true), Effect::Done));
    assert!(matches!(list.toggle_one(0, true, true), Effect::Done));
    assert_eq!(list.selection.selected_packages, vec![0]);
    assert_eq!(counters(&list), (1, 0, 0));
    assert!(matches!(list.toggle_one(1, true, true), Effect::Done));
    assert_eq!(counters(&list), (1, 1, 0));
    assert!(list.phone_packages[0][1].selected);
    assert!(matches!(list.toggle_one(0, false, true), Effect::Done));
    assert!(matches!(list.toggle_one(0, false, true), Effect::Done));
    assert_eq!(list.selection.selected_packages, vec![1]);
    assert_eq!(counters(&list), (0, 1, 0));
    assert_eq!(counters(&list), recounted(&list));
    assert!(!list.phone_packages[0][0].selected);
}

#[test]
fn toggle_one_out_of_range_is_refused() {
    let mut list = ready(vec![abc()]);
    assert!(matches!(list.toggle_one(3, true, true), Effect::Refused));
    assert!(list.selection.selected_packages.is_empty());
    let mut empty = List::new();
    assert!(matches!(empty.toggle_one(0, true, true), Effect::Refused));
}

#[test]
fn unsafe_package_needs_expert_mode() {
    let mut list = ready(vec![abc()]);
    let mut state = UadListState::Done;
    let effect = list.update(
        &settings(false, false, false),
        &mut state,
        Message::List(2, RowMessage::ToggleSelection(true)),
    );
    assert!(matches!(effect, Effect::Refused));
    assert!(!list.phone_packages[0][2].selected);
    assert!(list.selection.selected_packages.is_empty());
    assert_eq!(counters(&list), (0, 0, 0));
    let effect = list.update(
        &settings(true, false, false),
        &mut state,
        Message::List(2, RowMessage::ToggleSelection(true)),
    );
    assert!(matches!(effect, Effect::Done));
    assert!(list.phone_packages[0][2].selected);
    assert_eq!(list.selection.selected_packages, vec![2]);
    assert_eq!(counters(&list), (1, 0, 0));
}

#[test]
fn toggle_all_touches_only_visible_rows() {
    let mut list = ready(vec![abc()]);
    let st = settings(false, false, false);
    let mut state = UadListState::Done;
    list.toggle_one(1, true, false);
    list.update(&st, &mut state, Message::PackageStateSelected(PackageState::Enabled));
    list.update(&st, &mut state, Message::ToggleAllSelected(true));
    assert_eq!(list.selection.selected_packages, vec![1, 0, 2]);
    assert_eq!(counters(&list), (2, 1, 0));
    assert_eq!(counters(&list), recounted(&list));
    list.update(&st, &mut state, Message::ToggleAllSelected(true));
    assert_eq!(list.selection.selected_packages, vec![1, 0, 2]);
    list.update(&st, &mut state, Message::ToggleAllSelected(false));
    assert_eq!(list.selection.selected_packages, vec![1]);
    assert_eq!(counters(&list), (0, 1, 0));
    assert!(list.phone_packages[0][1].selected);
    assert!(!list.phone_packages[0][0].selected);
    assert!(!list.phone_packages[0][2].selected);
}

#[test]
fn selection_remove_if_present_is_noop_when_absent() {
    let rows = abc();
    let mut s = Selection::new();
    assert!(s.select(0, &rows));
    assert!(!s.select(0, &rows));
    assert!(s.select(1, &rows));
    assert!(s.contains(1));
    assert!(!s.contains(2));
    assert!(!s.remove_if_present(2, &rows));
    assert_eq!(s.selected_packages, vec![0, 1]);
    assert_eq!((s.enabled, s.disabled, s.uninstalled), (1, 1, 0));
    assert!(s.remove_if_present(0, &rows));
    assert_eq!(s.selected_packages, vec![1]);
    assert_eq!((s.enabled, s.disabled, s.uninstalled), (0, 1, 0));
}

#[test]
fn recount_drops_rows_that_are_not_there() {
    let rows = abc();
    let s = Selection::recount(&vec![2, 7, 1], &rows);
    assert_eq!(s.selected_packages, vec![2, 1]);
    assert_eq!((s.enabled, s.disabled, s.uninstalled), (1, 1, 0));
}

#[test]
fn bulk_remove_scenario() {
    let mut list = ready(vec![vec![
        row("A", PackageState::Enabled, Removal::Recommended, UadList::Google),
        row("B", PackageState::Disabled, Removal::Recommended, UadList::Google),
        row("C", PackageState::Enabled, Removal::Recommended, UadList::Google),
    ]]);
    let st = settings(false, false, false);
    let mut state = UadListState::Done;
    list.update(&st, &mut state, Message::List(0, RowMessage::ToggleSelection(true)));
    list.update(&st, &mut state, Message::List(2, RowMessage::ToggleSelection(true)));
    assert_eq!(counters(&list), (2, 0, 0));
    let effect = list.update(&st, &mut state, Message::ApplyActionOnSelection(Action::Remove));
    let targets = match effect {
        Effect::Plan(t) => t,
        other => panic!("no plan: {:?}", other),
    };
    assert_eq!(targets.len(), 2);
    assert_eq!(targets[0].index, 0);
    assert_eq!(targets[1].index, 2);
    assert_eq!(targets[0].removal, "Recommended");
    for target in &targets {
        let plan = vec![PlannedCommand {
            target_user: None,
            command: "pm uninstall --user 0".to_string(),
        }];
        for d in dispatch_plan(target, &plan) {
            assert!(d.authoritative);
            let message = outcome_message(d.authoritative, Ok(CommandType::PackageManager(d.info)));
            let effect = list.update(&st, &mut state, message);
            assert!(matches!(effect, Effect::Done));
        }
    }
    assert_eq!(list.phone_packages[0][0].state, PackageState::Uninstalled);
    assert_eq!(list.phone_packages[0][1].state, PackageState::Disabled);
    assert_eq!(list.phone_packages[0][2].state, PackageState::Uninstalled);
    assert!(list.selection.selected_packages.is_empty());
    assert_eq!(counters(&list), (0, 0, 0));
    assert!(!list.phone_packages[0][0].selected);
}

#[test]
fn bulk_action_drops_rows_of_the_other_direction() {
    let mut list = ready(vec![abc()]);
    list.toggle_all(true);
    let remove = list.apply_action_on_selection(Action::Remove);
    assert_eq!(remove.iter().map(|t| t.index).collect::<Vec<_>>(), vec![0, 2]);
    assert_eq!(remove[1].removal, "Unsafe");
    assert!(remove.iter().all(|t| t.i_user.is_none() && t.generation == list.generation));
    let restore = list.apply_action_on_selection(Action::Restore);
    assert_eq!(restore.iter().map(|t| t.index).collect::<Vec<_>>(), vec![1]);
    assert_eq!(restore[0].removal, "Advanced");
}

#[test]
fn removal_labels() {
    assert_eq!(Removal::All.label(), "All Removals");
    assert_eq!(Removal::Recommended.label(), "Recommended");
    assert_eq!(Removal::Advanced.label(), "Advanced");
    assert_eq!(Removal::Expert.label(), "Expert");
    assert_eq!(Removal::Unsafe.label(), "Unsafe");
    assert_eq!(Removal::Unlisted.label(), "Unlisted");
}

#[test]
fn action_pressed_plans_one_row() {
    let mut list = ready(vec![abc()]);
    let st = settings(false, false, false);
    let mut state = UadListState::Done;
    match list.update(&st, &mut state, Message::List(1, RowMessage::ActionPressed)) {
        Effect::Plan(t) => {
            assert_eq!(t.len(), 1);
            assert_eq!(t[0].index, 1);
            assert_eq!(t[0].removal, "Advanced");
            assert_eq!(t[0].generation, list.generation);
        }
        other => panic!("no plan: {:?}", other),
    }
    assert!(matches!(
        list.update(&st, &mut state, Message::List(9, RowMessage::ActionPressed)),
        Effect::Refused
    ));
}

#[test]
fn only_first_of_three_commands_mutates() {
    let mut list = ready(vec![abc(), abc(), abc()]);
    let st = settings(false, true, true);
    let mut state = UadListState::Done;
    list.toggle_one(0, true, false);
    let target = PackageInfo {
        i_user: None,
        index: 0,
        removal: "Recommended".to_string(),
        generation: list.generation,
    };
    let plan = vec![
        PlannedCommand { target_user: Some(0), command: "c0".to_string() },
        PlannedCommand { target_user: Some(1), command: "c1".to_string() },
        PlannedCommand { target_user: Some(2), command: "c2".to_string() },
    ];
    let sent = dispatch_plan(&target, &plan);
    assert_eq!(sent.len(), 3);
    assert_eq!(
        sent.iter().map(|d| d.authoritative).collect::<Vec<_>>(),
        vec![true, false, false]
    );
    assert_eq!(sent[1].command, "c1");
    assert_eq!(sent[2].info.i_user, Some(2));
    assert_eq!(sent[2].info.index, 0);
    let before = format!("{:?}", list);
    for d in sent.iter().skip(1) {
        let ok = outcome_message(d.authoritative, Ok(CommandType::PackageManager(d.info.clone())));
        assert!(matches!(ok, Message::Nothing));
        list.update(&st, &mut state, ok);
        let failed = outcome_message(d.authoritative, Err(()));
        list.update(&st, &mut state, failed);
    }
    assert_eq!(format!("{:?}", list), before);
    let first = outcome_message(true, Ok(CommandType::PackageManager(sent[0].info.clone())));
    assert!(matches!(first, Message::ChangePackageState(_)));
    list.update(&st, &mut state, first);
    assert_eq!(list.phone_packages[0][0].state, PackageState::Disabled);
    assert_eq!(list.phone_packages[1][0].state, PackageState::Enabled);
    assert_eq!(list.phone_packages[2][0].state, PackageState::Enabled);
    assert!(list.selection.selected_packages.is_empty());
    assert_eq!(counters(&list), (0, 0, 0));
}

#[test]
fn target_user_override_needs_multi_user_mode() {
    let mut list = ready(vec![abc(), abc()]);
    let mut state = UadListState::Done;
    let g = list.generation;
    list.update(
        &settings(false, true, false),
        &mut state,
        Message::ChangePackageState(ok_outcome(1, Some(1), g)),
    );
    assert_eq!(list.phone_packages[1][1].state, PackageState::Enabled);
    assert_eq!(list.phone_packages[0][1].state, PackageState::Disabled);
    list.update(
        &settings(false, false, false),
        &mut state,
        Message::ChangePackageState(ok_outcome(0, Some(1), g)),
    );
    assert_eq!(list.phone_packages[0][0].state, PackageState::Uninstalled);
    assert_eq!(list.phone_packages[1][0].state, PackageState::Enabled);
}

#[test]
fn outcome_refilters_the_view() {
    let mut list = ready(vec![abc()]);
    let st = settings(false, false, true);
    let mut state = UadListState::Done;
    list.update(&st, &mut state, Message::PackageStateSelected(PackageState::Enabled));
    assert_eq!(list.filtered_packages, vec![0, 2]);
    let g = list.generation;
    list.update(&st, &mut state, Message::ChangePackageState(ok_outcome(0, None, g)));
    assert_eq!(list.phone_packages[0][0].state, PackageState::Disabled);
    assert_eq!(list.filtered_packages, vec![2]);
}

#[test]
fn failed_command_changes_no_row() {
    let mut list = ready(vec![abc()]);
    let st = settings(false, false, false);
    let mut state = UadListState::Done;
    list.toggle_one(0, true, false);
    let effect = list.update(&st, &mut state, Message::ChangePackageState(Err(())));
    assert!(matches!(effect, Effect::Done));
    assert_eq!(list.phone_packages[0][0].state, PackageState::Enabled);
    assert_eq!(list.selection.selected_packages, vec![0]);
    assert_eq!(counters(&list), (1, 0, 0));
    assert!(matches!(&list.loading_state, LoadingState::Ready(t) if t == "Error"));
    let effect = list.update(&st, &mut state, Message::ChangePackageState(Ok(CommandType::Shell)));
    assert!(matches!(effect, Effect::Done));
    assert_eq!(list.phone_packages[0][0].state, PackageState::Enabled);
}

#[test]
fn outcome_after_reload_is_discarded() {
    let mut list = ready(vec![abc()]);
    let st = settings(false, false, false);
    let mut state = UadListState::Done;
    let stale = list.generation;
    list.update(&st, &mut state, Message::ApplyFilters(vec![abc()]));
    assert_ne!(list.generation, stale);
    let before = format!("{:?}", list);
    let effect = list.update(&st, &mut state, Message::ChangePackageState(ok_outcome(0, None, stale)));
    assert!(matches!(effect, Effect::Refused));
    assert_eq!(format!("{:?}", list), before);
    list.update(&st, &mut state, Message::ApplyFilters(vec![vec![]]));
    let g = list.generation;
    let effect = list.update(&st, &mut state, Message::ChangePackageState(ok_outcome(0, None, g)));
    assert!(matches!(effect, Effect::Refused));
    let effect = list.update(
        &settings(false, true, false),
        &mut state,
        Message::ChangePackageState(ok_outcome(0, Some(5), g)),
    );
    assert!(matches!(effect, Effect::Refused));
}

#[test]
fn reload_starts_selection_anew() {
    let mut list = ready(vec![abc()]);
    list.toggle_all(true);
    list.set_search("alpha".to_string());
    list.reload(vec![abc(), abc()]);
    assert!(list.selection.selected_packages.is_empty());
    assert_eq!(counters(&list), (0, 0, 0));
    assert_eq!(list.filtered_packages, vec![0, 1, 2]);
    assert_eq!(list.input_value, "");
    assert_eq!(list.phone_packages.len(), 2);
    let mut wrapped = List::new();
    wrapped.generation = u64::MAX;
    wrapped.reload(vec![abc()]);
    assert_eq!(wrapped.generation, 0);
}

#[test]
fn user_switch_recounts_against_new_table() {
    let second = vec![
        row("com.a.alpha", PackageState::Uninstalled, Removal::Recommended, UadList::Google),
        row("com.b.beta", PackageState::Disabled, Removal::Advanced, UadList::Oem),
    ];
    let mut list = ready(vec![abc(), second]);
    let st = settings(true, false, false);
    let mut state = UadListState::Done;
    list.toggle_all(true);
    assert_eq!(counters(&list), (2, 1, 0));
    let effect = list.update(&st, &mut state, Message::UserSelected(User { id: 10, index: 1 }));
    assert!(matches!(effect, Effect::Done));
    assert_eq!(list.selected_user, User { id: 10, index: 1 });
    assert_eq!(list.selection.selected_packages, vec![0, 1]);
    assert_eq!(counters(&list), (0, 1, 1));
    assert_eq!(counters(&list), recounted(&list));
    assert_eq!(list.filtered_packages, vec![0, 1]);
    assert!(list.phone_packages[1][0].selected && list.phone_packages[1][1].selected);
    assert!(list.phone_packages[0].iter().all(|p| !p.selected));
    let effect = list.update(&st, &mut state, Message::UserSelected(User { id: 11, index: 2 }));
    assert!(matches!(effect, Effect::Refused));
    assert_eq!(list.selected_user, User { id: 10, index: 1 });
}

#[test]
fn package_pressed_moves_the_current_row() {
    let mut list = ready(vec![abc()]);
    let st = settings(false, false, false);
    let mut state = UadListState::Done;
    list.update(&st, &mut state, Message::List(1, RowMessage::PackagePressed));
    assert!(list.phone_packages[0][1].current);
    assert_eq!(list.description, "about com.b.beta");
    assert_eq!(list.current_package_index, 1);
    list.update(&st, &mut state, Message::List(2, RowMessage::PackagePressed));
    assert!(!list.phone_packages[0][1].current);
    assert!(list.phone_packages[0][2].current);
    assert_eq!(list.description, "about com.c.gamma");
    assert!(matches!(list.package_pressed(3), Effect::Refused));
}

#[test]
fn loading_phases_follow_the_events() {
    let mut list = List::new();
    let st = settings(false, false, false);
    let mut state = UadListState::Downloading;
    let effect = list.update(&st, &mut state, Message::LoadUadList(true));
    assert!(matches!(effect, Effect::LoadCatalog(true)));
    assert!(matches!(&list.loading_state, LoadingState::DownloadingList(t) if t.is_empty()));
    let catalog = vec![Package {
        id: "com.a.alpha".to_string(),
        list: UadList::Google,
        description: "d".to_string(),
        removal: Removal::Recommended,
    }];
    let effect = list.update(&st, &mut state, Message::LoadPhonePackages((catalog, UadListState::Failed)));
    assert!(matches!(effect, Effect::LoadPackages));
    assert_eq!(state, UadListState::Failed);
    assert_eq!(list.uad_lists.len(), 1);
    assert!(matches!(&list.loading_state, LoadingState::LoadingPackages(t) if t.is_empty()));
    list.update(&st, &mut state, Message::ApplyFilters(vec![abc()]));
    assert!(matches!(&list.loading_state, LoadingState::Ready(_)));
    assert_eq!(state, UadListState::Failed);
    assert!(matches!(list.update(&st, &mut state, Message::Nothing), Effect::Done));
}

#[test]
fn restoring_device_shows_progress() {
    let mut list = ready(vec![abc()]);
    let st = settings(false, false, false);
    let mut state = UadListState::Done;
    let g = list.generation;
    list.update(&st, &mut state, Message::RestoringDevice(ok_outcome(1, None, g)));
    assert!(matches!(&list.loading_state, LoadingState::RestoringDevice(t) if t == "com.b.beta"));
    list.update(&st, &mut state, Message::RestoringDevice(Err(())));
    assert!(matches!(&list.loading_state, LoadingState::RestoringDevice(t) if t == "Error"));
    let effect = list.update(&st, &mut state, Message::RestoringDevice(ok_outcome(8, None, g)));
    assert!(matches!(effect, Effect::Refused));
    assert_eq!(list.phone_packages[0][1].state, PackageState::Disabled);
}

#[test]
fn set_text_keeps_the_phase() {
    let mut phase = LoadingState::Ready(String::new());
    phase.set_text("x".to_string());
    assert!(matches!(&phase, LoadingState::Ready(t) if t == "x"));
    let mut phase = LoadingState::DownloadingList("a".to_string());
    phase.set_text("y".to_string());
    assert!(matches!(&phase, LoadingState::DownloadingList(t) if t == "y"));
}

#[test]
fn bulk_buttons_count_by_direction() {
    let mut list = ready(vec![vec![
        row("a", PackageState::Enabled, Removal::Recommended, UadList::Google),
        row("b", PackageState::Disabled, Removal::Recommended, UadList::Google),
        row("c", PackageState::Uninstalled, Removal::Recommended, UadList::Google),
        row("d", PackageState::Uninstalled, Removal::Recommended, UadList::Google),
    ]]);
    assert_eq!((list.remove_count(), list.restore_count()), (0, 0));
    list.toggle_all(true);
    assert_eq!(counters(&list), (1, 1, 2));
    assert_eq!(list.remove_count(), 1);
    assert_eq!(list.restore_count(), 3);
}

#[test]
fn action_names_follow_disable_mode() {
    assert_eq!(remove_action(true), "Disable");
    assert_eq!(remove_action(false), "Uninstall");
    assert_eq!(restore_action(true), "Enable/Restore");
    assert_eq!(restore_action(false), "Restore");
}

#[test]
fn counters_survive_a_long_mixed_sequence() {
    let mut list = ready(vec![abc()]);
    let st = settings(true, false, true);
    let mut state = UadListState::Done;
    let steps = vec![
        Message::List(2, RowMessage::ToggleSelection(true)),
        Message::ToggleAllSelected(true),
        Message::PackageStateSelected(PackageState::Disabled),
        Message::ToggleAllSelected(false),
        Message::List(1, RowMessage::ToggleSelection(true)),
        Message::List(1, RowMessage::ToggleSelection(true)),
        Message::PackageStateSelected(PackageState::All),
        Message::List(0, RowMessage::ToggleSelection(false)),
        Message::SearchInputChanged("com.c".to_string()),
        Message::ToggleAllSelected(false),
        Message::ToggleAllSelected(true),
    ];
    for step in steps {
        list.update(&st, &mut state, step);
        assert_eq!(counters(&list), recounted(&list));
        let picked = &list.selection.selected_packages;
        assert!(picked.iter().enumerate().all(|(k, i)| !picked[..k].contains(i)));
    }
    assert_eq!(list.selection.selected_packages, vec![1, 2]);
    assert_eq!(counters(&list), (1, 1, 0));
}
