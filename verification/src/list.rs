//! The controller: the tables of all users, the filtered view of the active
//! user's table, the selection, and the events that change them.

use vstd::prelude::*;
use crate::filter::{
    lemma_visible_indices, lemma_visible_same_matches, matching_indices, visible_indices, Filters,
};
use crate::message::{
    removal_label, Action, CommandType, Effect, LoadingState, Message, PackageInfo, RowMessage,
};
use crate::package::{
    spec_opposite, Package, PackageRow, PackageState, Removal, Settings, UadList, UadListState,
    User,
};
use crate::selection::{
    count_in_state, lemma_count_same_states, lemma_counts_sum_le_len, Selection,
};
use crate::seqs::{
    below, kept, lemma_kept_all, lemma_kept_members, lemma_kept_twice, lemma_without_members,
    not_in, other_than, without,
};

verus! {

/// State of the controller.
#[derive(Debug, Clone)]
pub struct List {
    pub loading_state: LoadingState,
    pub uad_lists: Vec<Package>,
    /// The packages of every user of the device, one table per user.
    pub phone_packages: Vec<Vec<PackageRow>>,
    /// Indices into the active user's table: the rows that are shown.
    pub filtered_packages: Vec<usize>,
    pub selection: Selection,
    pub selected_package_state: PackageState,
    pub selected_removal: Removal,
    pub selected_list: UadList,
    pub selected_user: User,
    pub input_value: String,
    pub description: String,
    pub current_package_index: usize,
    /// Counts the loads of the tables; an outcome that carries another
    /// number belongs to a table that is gone.
    pub generation: u64,
}

/// `row` with its selection flag set to `selected`.
pub open spec fn flagged(row: PackageRow, selected: bool) -> PackageRow {
    PackageRow { selected: selected, ..row }
}

/// Rows that differ at most in their flags are counted and filtered alike.
pub proof fn lemma_flags_do_not_count(
    selection: Selection,
    before: Seq<PackageRow>,
    after: Seq<PackageRow>,
    filters: Filters,
)
    requires
        before.len() == after.len(),
        forall|j: int|
            0 <= j < before.len() ==> (#[trigger] after[j]).state == before[j].state
                && after[j].name == before[j].name && after[j].uad_list == before[j].uad_list
                && after[j].removal == before[j].removal,
    ensures
        selection.consistent(before) ==> selection.consistent(after),
        visible_indices(before, filters) == visible_indices(after, filters),
{
    let picked = selection.selected_packages@;
    lemma_count_same_states(picked, before, after, PackageState::Enabled);
    lemma_count_same_states(picked, before, after, PackageState::Disabled);
    lemma_count_same_states(picked, before, after, PackageState::Uninstalled);
    lemma_visible_same_matches(before, after, filters);
}

/// Whether a request to set the selection flag of `row` to `select` ends
/// with the row selected: a row whose removal is unsafe is selected only
/// in expert mode.
pub open spec fn gate_allows(row: PackageRow, select: bool, expert_mode: bool) -> bool {
    select && !(row.removal == Removal::Unsafe && !expert_mode)
}

/// The text that a failed device command leaves as the status.
pub open spec fn error_marker() -> Seq<char> {
    "Error"@
}

/// `row` after a successful command: in the opposite state, and no longer
/// marked as selected.
pub open spec fn transitioned(row: PackageRow, disable_mode: bool) -> PackageRow {
    PackageRow { state: spec_opposite(row.state, disable_mode), selected: false, ..row }
}

/// The test that accepts the rows of `rows` that a bulk action in the given
/// direction applies to: removing applies to enabled packages, restoring to
/// all others.
pub open spec fn direction_applies(rows: Seq<PackageRow>, action: Action) -> spec_fn(usize) -> bool {
    |i: usize|
        i < rows.len() && ((action == Action::Remove) == (rows[i as int].state
            == PackageState::Enabled))
}

/// Takes the selection flag from every row.
fn clear_flags(rows: &mut Vec<PackageRow>)
    ensures
        final(rows)@.len() == old(rows)@.len(),
        forall|j: int| 0 <= j < old(rows)@.len() ==> #[trigger] final(rows)@[j] == flagged(old(rows)@[j], false),
{
    let n = rows.len();
    let mut j: usize = 0;
    while j < n
        invariant
            j <= n,
            n == rows@.len(),
            rows@.len() == old(rows)@.len(),
            forall|i: int| 0 <= i < j ==> #[trigger] rows@[i] == flagged(old(rows)@[i], false),
            forall|i: int| j <= i < n ==> #[trigger] rows@[i] == old(rows)@[i],
        decreases n - j,
    {
        rows[j].selected = false;
        j = j + 1;
    }
}

/// Sets the selection flag of every row that `picked` names.
fn mark_rows(rows: &mut Vec<PackageRow>, picked: &Vec<usize>)
    requires
        forall|k: int| 0 <= k < picked@.len() ==> #[trigger] picked@[k] < old(rows)@.len(),
    ensures
        final(rows)@.len() == old(rows)@.len(),
        forall|j: int|
            0 <= j < old(rows)@.len() ==> #[trigger] final(rows)@[j] == flagged(
                old(rows)@[j],
                old(rows)@[j].selected || picked@.contains(j as usize),
            ),
{
    let n = picked.len();
    let total = rows.len();
    let mut k: usize = 0;
    while k < n
        invariant
            k <= n,
            n == picked@.len(),
            total == rows@.len(),
            rows@.len() == old(rows)@.len(),
            forall|k: int| 0 <= k < picked@.len() ==> #[trigger] picked@[k] < old(rows)@.len(),
            forall|j: int|
                0 <= j < old(rows)@.len() ==> #[trigger] rows@[j] == flagged(
                    old(rows)@[j],
                    old(rows)@[j].selected || picked@.take(k as int).contains(j as usize),
                ),
        decreases n - k,
    {
        let i = picked[k];
        proof {
            let head = picked@.take(k as int);
            let next = picked@.take(k as int + 1);
            assert forall|x: usize| next.contains(x) <==> head.contains(x) || x == i by {
                if head.contains(x) {
                    let a = choose|a: int| 0 <= a < head.len() && head[a] == x;
                    assert(next[a] == x);
                }
                if next.contains(x) && x != i {
                    let a = choose|a: int| 0 <= a < next.len() && next[a] == x;
                    assert(head[a] == x);
                }
                assert(next[k as int] == i);
            }
        }
        rows[i].selected = true;
        k = k + 1;
    }
    proof {
        assert(picked@.take(k as int) == picked@);
    }
}

impl List {
    /// The table of the active user; empty while there is none.
    pub open spec fn active_rows(&self) -> Seq<PackageRow> {
        if self.selected_user.index < self.phone_packages@.len() {
            self.phone_packages@[self.selected_user.index as int]@
        } else {
            Seq::empty()
        }
    }

    /// The filters as they are set.
    pub open spec fn filters(&self) -> Filters {
        Filters {
            list: self.selected_list,
            state: self.selected_package_state,
            removal: self.selected_removal,
            text: self.input_value@,
        }
    }

    /// The selection and the filtered view agree with the active user's
    /// table as it is now.
    pub open spec fn wf(&self) -> bool {
        &&& self.selection.consistent(self.active_rows())
        &&& self.filtered_packages@ == visible_indices(self.active_rows(), self.filters())
    }

    /// A controller before anything was loaded: no table, every filter at
    /// `All`, nothing selected.
    pub fn new() -> (list: List)
        ensures
            list.wf(),
            list.phone_packages@.len() == 0,
            list.filtered_packages@.len() == 0,
            list.selection.selected_packages@.len() == 0,
            list.selected_list == UadList::All,
            list.selected_package_state == PackageState::All,
            list.selected_removal == Removal::All,
            list.selected_user == (User { id: 0, index: 0 }),
            list.input_value@.len() == 0,
            list.generation == 0,
            list.loading_state matches LoadingState::FindingPhones(t) && t@.len() == 0,
    {
        List {
            loading_state: LoadingState::FindingPhones(String::new()),
            uad_lists: Vec::new(),
            phone_packages: Vec::new(),
            filtered_packages: Vec::new(),
            selection: Selection::new(),
            selected_package_state: PackageState::All,
            selected_removal: Removal::All,
            selected_list: UadList::All,
            selected_user: User { id: 0, index: 0 },
            input_value: String::new(),
            description: String::new(),
            current_package_index: 0,
            generation: 0,
        }
    }

    /// Computes the filtered view anew from the active user's table and the
    /// filters. Nothing else changes.
    pub fn filter_package_lists(&mut self)
        ensures
            final(self).filtered_packages@ == visible_indices(
                old(self).active_rows(),
                old(self).filters(),
            ),
            *final(self) == (List {
                filtered_packages: final(self).filtered_packages,
                ..*old(self)
            }),
    {
        let u = self.selected_user.index;
        if u < self.phone_packages.len() {
            self.filtered_packages =
            matching_indices(
                &self.phone_packages[u],
                self.selected_list,
                self.selected_package_state,
                self.selected_removal,
                &self.input_value,
            );
        } else {
            self.filtered_packages = Vec::new();
        }
    }

    /// Sets the search text and filters anew.
    pub fn set_search(&mut self, text: String)
        requires
            old(self).wf(),
        ensures
            final(self).wf(),
            final(self).input_value == text,
            *final(self) == (List {
                input_value: text,
                filtered_packages: final(self).filtered_packages,
                ..*old(self)
            }),
    {
        self.input_value = text;
        self.filter_package_lists();
    }

    /// Sets the list filter and filters anew.
    pub fn set_list(&mut self, list: UadList)
        requires
            old(self).wf(),
        ensures
            final(self).wf(),
            *final(self) == (List {
                selected_list: list,
                filtered_packages: final(self).filtered_packages,
                ..*old(self)
            }),
    {
        self.selected_list = list;
        self.filter_package_lists();
    }

    /// Sets the state filter and filters anew.
    pub fn set_package_state(&mut self, state: PackageState)
        requires
            old(self).wf(),
        ensures
            final(self).wf(),
            *final(self) == (List {
                selected_package_state: state,
                filtered_packages: final(self).filtered_packages,
                ..*old(self)
            }),
    {
        self.selected_package_state = state;
        self.filter_package_lists();
    }

    /// Sets the removal filter and filters anew.
    pub fn set_removal(&mut self, removal: Removal)
        requires
            old(self).wf(),
        ensures
            final(self).wf(),
            *final(self) == (List {
                selected_removal: removal,
                filtered_packages: final(self).filtered_packages,
                ..*old(self)
            }),
    {
        self.selected_removal = removal;
        self.filter_package_lists();
    }

    /// What `reload` makes of `pre`.
    pub open spec fn reloaded(pre: List, post: List, packages: Vec<Vec<PackageRow>>) -> bool {
        &&& post.phone_packages == packages
        &&& post.generation == if pre.generation == u64::MAX {
            0
        } else {
            (pre.generation + 1) as u64
        }
        &&& post.selection.selected_packages@.len() == 0
        &&& post.selection.enabled == 0 && post.selection.disabled == 0
                && post.selection.uninstalled == 0
        &&& post.selected_list == UadList::All
        &&& post.selected_package_state == PackageState::All
        &&& post.selected_removal == Removal::All
        &&& post.input_value@.len() == 0
        &&& post.selected_user == (User { id: 0, index: 0 })
        &&& post.filtered_packages@ == Seq::new(
                post.active_rows().len(),
                |i: int| i as usize,
            )
        &&& post.loading_state matches LoadingState::Ready(t) && t@.len() == 0
        &&& post.uad_lists == pre.uad_lists
        &&& post.description == pre.description
        &&& post.current_package_index == 0
    }

    /// Puts freshly loaded tables in place of the old ones. The selection and
    /// the filters start anew, the first user becomes the active one, and
    /// outcomes of commands that were sent for the old tables are stale
    /// from now on.
    pub fn reload(&mut self, packages: Vec<Vec<PackageRow>>)
        ensures
            final(self).wf(),
            List::reloaded(*old(self), *final(self), packages),
    {
        self.phone_packages = packages;
        self.generation = if self.generation == u64::MAX {
            0
        } else {
            self.generation + 1
        };
        self.selection = Selection::new();
        self.selected_package_state = PackageState::All;
        self.selected_removal = Removal::All;
        self.selected_list = UadList::All;
        self.selected_user = User { id: 0, index: 0 };
        self.input_value = String::new();
        self.current_package_index = 0;
        self.filter_package_lists();
        self.loading_state = LoadingState::Ready(String::new());
        proof {
            crate::filter::lemma_no_filter_shows_all(self.active_rows(), self.filters());
        }
    }

    /// What `toggle_one` makes of `pre`, and what it answers.
    pub open spec fn toggled_one(
        pre: List,
        post: List,
        index: usize,
        select: bool,
        expert_mode: bool,
        effect: Effect,
    ) -> bool {
        &&& post == (List {
                phone_packages: post.phone_packages,
                selection: post.selection,
                ..pre
            })
        &&& post.phone_packages@.len() == pre.phone_packages@.len()
        &&& forall|v: int|
                0 <= v < pre.phone_packages@.len() && v != pre.selected_user.index
                    ==> post.phone_packages@[v] == pre.phone_packages@[v]
        &&& index >= pre.active_rows().len() ==> (effect matches Effect::Refused) && post == pre
        &&& index < pre.active_rows().len() ==> {
                let wanted = gate_allows(pre.active_rows()[index as int], select, expert_mode);
                let picked = pre.selection.selected_packages@;
                &&& post.active_rows() == pre.active_rows().update(
                    index as int,
                    flagged(pre.active_rows()[index as int], wanted),
                )
                &&& post.selection.selected_packages@ == if wanted {
                    if picked.contains(index) {
                        picked
                    } else {
                        picked.push(index)
                    }
                } else {
                    without(picked, index)
                }
                &&& if select && !wanted {
                    effect matches Effect::Refused
                } else {
                    effect matches Effect::Done
                }
            }
        &&& post.selection.selected_packages@ == pre.selection.selected_packages@ ==> {
            &&& post.selection.enabled == pre.selection.enabled
            &&& post.selection.disabled == pre.selection.disabled
            &&& post.selection.uninstalled == pre.selection.uninstalled
        }
    }

    /// Selects or deselects one row of the active user's table. A request
    /// to select a row whose removal is unsafe is, outside expert mode,
    /// taken as a request to deselect it, and answered with `Refused`; so is
    /// an index that is no row, which changes nothing.
    pub fn toggle_one(&mut self, index: usize, select: bool, expert_mode: bool) -> (effect: Effect)
        requires
            old(self).wf(),
        ensures
            final(self).wf(),
            List::toggled_one(*old(self), *final(self), index, select, expert_mode, effect),
    {
        let u = self.selected_user.index;
        if u >= self.phone_packages.len() {
            return Effect::Refused;
        }
        if index >= self.phone_packages[u].len() {
            return Effect::Refused;
        }
        let ghost before = self.active_rows();
        let wanted = select && !(self.phone_packages[u][index].removal == Removal::Unsafe
            && !expert_mode);
        self.phone_packages[u][index].selected = wanted;
        proof {
            lemma_flags_do_not_count(self.selection, before, self.active_rows(), self.filters());
            assert(self.active_rows() == before.update(index as int, flagged(before[index as int], wanted)));
        }
        if wanted {
            self.selection.select(index, &self.phone_packages[u]);
        } else {
            self.selection.remove_if_present(index, &self.phone_packages[u]);
        }
        proof {
            lemma_flags_do_not_count(self.selection, self.active_rows(), before, self.filters());
        }
        if select && !wanted {
            Effect::Refused
        } else {
            Effect::Done
        }
    }

    /// What `toggle_all` makes of `pre`.
    pub open spec fn toggled_all(pre: List, post: List, selected: bool) -> bool {
        &&& post == (List {
                phone_packages: post.phone_packages,
                selection: post.selection,
                ..pre
            })
        &&& post.phone_packages@.len() == pre.phone_packages@.len()
        &&& forall|v: int|
                0 <= v < pre.phone_packages@.len() && v != pre.selected_user.index
                    ==> post.phone_packages@[v] == pre.phone_packages@[v]
        &&& post.active_rows().len() == pre.active_rows().len()
        &&& forall|j: int|
                0 <= j < pre.active_rows().len() ==> #[trigger] post.active_rows()[j]
                    == if pre.filtered_packages@.contains(j as usize) {
                    flagged(pre.active_rows()[j], selected)
                } else {
                    pre.active_rows()[j]
                }
        &&& post.selection.selected_packages@ == if selected {
                pre.selection.selected_packages@ + kept(
                    pre.filtered_packages@,
                    not_in(pre.selection.selected_packages@),
                )
            } else {
                kept(pre.selection.selected_packages@, not_in(pre.filtered_packages@))
            }
    }

    /// Selects or deselects every row that is shown. Rows that are not
    /// shown keep their flag and their place in the selection. Newly
    /// selected rows follow the earlier ones in the order of the view.
    pub fn toggle_all(&mut self, selected: bool)
        requires
            old(self).wf(),
        ensures
            final(self).wf(),
            List::toggled_all(*old(self), *final(self), selected),
    {
        let u = self.selected_user.index;
        let ghost shown = self.filtered_packages@;
        let ghost picked = self.selection.selected_packages@;
        let ghost before = self.active_rows();
        if u >= self.phone_packages.len() {
            proof {
                assert(shown.len() == 0);
                assert(picked + kept(shown, not_in(picked)) == picked);
                lemma_kept_all(picked, not_in(shown));
            }
            return ;
        }
        let rows_len = self.phone_packages[u].len();
        proof {
            lemma_visible_indices(before, self.filters());
            if !selected {
                assert(shown.take(0).len() == 0);
                lemma_kept_all(picked, not_in(shown.take(0)));
            } else {
                assert(picked + kept(shown.take(0), not_in(picked)) == picked);
            }
        }
        let n = self.filtered_packages.len();
        let mut k: usize = 0;
        while k < n
            invariant
                k <= n,
                n == shown.len(),
                u == self.selected_user.index,
                u < self.phone_packages@.len(),
                before.len() <= usize::MAX,
                shown == visible_indices(before, old(self).filters()),
                before == old(self).active_rows(),
                picked == old(self).selection.selected_packages@,
                old(self).selection.consistent(before),
                self.filtered_packages@ == shown,
                *self == (List {
                    phone_packages: self.phone_packages,
                    selection: self.selection,
                    ..*old(self)
                }),
                self.phone_packages@.len() == old(self).phone_packages@.len(),
                forall|v: int|
                    0 <= v < old(self).phone_packages@.len() && v != u ==> self.phone_packages@[v]
                        == old(self).phone_packages@[v],
                self.active_rows().len() == before.len(),
                forall|j: int|
                    0 <= j < before.len() ==> #[trigger] self.active_rows()[j] == if shown.take(
                        k as int,
                    ).contains(j as usize) {
                        flagged(before[j], selected)
                    } else {
                        before[j]
                    },
                self.selection.consistent(self.active_rows()),
                self.selection.selected_packages@ == if selected {
                    picked + kept(shown.take(k as int), not_in(picked))
                } else {
                    kept(picked, not_in(shown.take(k as int)))
                },
            decreases n - k,
        {
            let i = self.filtered_packages[k];
            let ghost rows_then = self.active_rows();
            let ghost picked_then = self.selection.selected_packages@;
            let ghost head = shown.take(k as int);
            let ghost next = shown.take(k as int + 1);
            proof {
                lemma_visible_indices(before, old(self).filters());
                assert(shown[k as int] < before.len());
                assert(next.drop_last() == head);
                assert(next.last() == i);
                assert forall|x: usize| next.contains(x) <==> head.contains(x) || x == i by {
                    if head.contains(x) {
                        let a = choose|a: int| 0 <= a < head.len() && head[a] == x;
                        assert(next[a] == x);
                    }
                    if next.contains(x) && x != i {
                        let a = choose|a: int| 0 <= a < next.len() && next[a] == x;
                        assert(head[a] == x);
                    }
                    assert(next[k as int] == i);
                }
                assert(!head.contains(i)) by {
                    if head.contains(i) {
                        let a = choose|a: int| 0 <= a < head.len() && head[a] == i;
                        assert(shown[a] < shown[k as int]);
                    }
                }
            }
            self.phone_packages[u][i].selected = selected;
            proof {
                lemma_flags_do_not_count(
                    self.selection,
                    rows_then,
                    self.active_rows(),
                    self.filters(),
                );
            }
            if selected {
                proof {
                    lemma_kept_members(head, not_in(picked));
                    let tail = kept(head, not_in(picked));
                    assert(picked_then.contains(i) <==> picked.contains(i)) by {
                        if picked.contains(i) {
                            let a = choose|a: int| 0 <= a < picked.len() && picked[a] == i;
                            assert(picked_then[a] == i);
                        }
                        if picked_then.contains(i) {
                            let a = choose|a: int| 0 <= a < picked_then.len() && picked_then[a]
                                == i;
                            if a >= picked.len() {
                                assert(tail[a - picked.len()] == i);
                                assert(tail.contains(i));
                            }
                        }
                    }
                    if !picked.contains(i) {
                        assert(picked_then.push(i) == picked + tail.push(i));
                    }
                }
                self.selection.select(i, &self.phone_packages[u]);
            } else {
                proof {
                    lemma_kept_twice(picked, not_in(head), other_than(i), not_in(next));
                }
                self.selection.remove_if_present(i, &self.phone_packages[u]);
            }
            k = k + 1;
        }
        proof {
            assert(shown.take(k as int) == shown);
            lemma_flags_do_not_count(self.selection, before, self.active_rows(), self.filters());
        }
    }

    /// The table that a successful outcome changes: that of the user the
    /// command was aimed at where users are handled one by one and the
    /// outcome names one, else that of the active user.
    pub open spec fn target_user(&self, info: PackageInfo, multi_user_mode: bool) -> usize {
        if multi_user_mode && info.i_user.is_some() {
            info.i_user.unwrap()
        } else {
            self.selected_user.index
        }
    }

    /// An outcome is stale when it was sent for tables that have been
    /// replaced since, or names a row or a user that is not there.
    pub open spec fn is_stale(&self, info: PackageInfo, multi_user_mode: bool) -> bool {
        ||| info.generation != self.generation
        ||| info.index >= self.active_rows().len()
        ||| self.target_user(info, multi_user_mode) >= self.phone_packages@.len()
        ||| info.index >= self.phone_packages@[self.target_user(
            info,
            multi_user_mode,
        ) as int]@.len()
    }

    /// What a successful outcome that is not stale does to `pre`: the row it
    /// names, in the target user's table, goes to the opposite state and
    /// loses its flag; the index leaves the selection; the view is computed
    /// anew.
    pub open spec fn outcome_applied(
        pre: List,
        post: List,
        info: PackageInfo,
        settings: Settings,
    ) -> bool {
        let t = pre.target_user(info, settings.device.multi_user_mode) as int;
        &&& post == (List {
            phone_packages: post.phone_packages,
            selection: post.selection,
            filtered_packages: post.filtered_packages,
            ..pre
        })
        &&& post.phone_packages@.len() == pre.phone_packages@.len()
        &&& forall|v: int|
            0 <= v < pre.phone_packages@.len() && v != t ==> post.phone_packages@[v]
                == pre.phone_packages@[v]
        &&& post.phone_packages@[t]@ == pre.phone_packages@[t]@.update(
            info.index as int,
            transitioned(pre.phone_packages@[t]@[info.index as int], settings.device.disable_mode),
        )
        &&& post.selection.selected_packages@ == without(
            pre.selection.selected_packages@,
            info.index,
        )
    }

    /// Takes `index` out of the selection, counted against the active
    /// user's table as it is, and then moves the row `index` of user `t` to
    /// the opposite state.
    fn apply_transition(&mut self, t: usize, index: usize, disable_mode: bool)
        requires
            old(self).selection.consistent(old(self).active_rows()),
            index < old(self).active_rows().len(),
            t < old(self).phone_packages@.len(),
            index < old(self).phone_packages@[t as int]@.len(),
        ensures
            final(self).selection.consistent(final(self).active_rows()),
            *final(self) == (List {
                phone_packages: final(self).phone_packages,
                selection: final(self).selection,
                ..*old(self)
            }),
            final(self).phone_packages@.len() == old(self).phone_packages@.len(),
            forall|v: int|
                0 <= v < old(self).phone_packages@.len() && v != t ==> final(self).phone_packages@[v] == old(self).phone_packages@[v],
            final(self).phone_packages@[t as int]@ == old(self).phone_packages@[t as int]@.update(
                index as int,
                transitioned(old(self).phone_packages@[t as int]@[index as int], disable_mode),
            ),
            final(self).selection.selected_packages@ == without(
                old(self).selection.selected_packages@,
                index,
            ),
    {
        let u = self.selected_user.index;
        let ghost before = self.active_rows();
        let ghost target_before = self.phone_packages@[t as int]@;
        self.selection.remove_if_present(index, &self.phone_packages[u]);
        let next = self.phone_packages[t][index].state.opposite(disable_mode);
        self.phone_packages[t][index].state = next;
        self.phone_packages[t][index].selected = false;
        proof {
            let picked = self.selection.selected_packages@;
            lemma_without_members(old(self).selection.selected_packages@, index);
            assert(!picked.contains(index));
            let after = self.active_rows();
            assert(after.len() == before.len());
            assert forall|j: int| 0 <= j < before.len() && picked.contains(j as usize) implies before[j].state == after[j].state by {
                if t == u {
                    assert(j != index);
                }
            }
            lemma_count_same_states(picked, before, after, PackageState::Enabled);
            lemma_count_same_states(picked, before, after, PackageState::Disabled);
            lemma_count_same_states(picked, before, after, PackageState::Uninstalled);
            assert(self.phone_packages@[t as int]@ == target_before.update(
                index as int,
                transitioned(target_before[index as int], disable_mode),
            ));
        }
    }

    /// What `change_package_state` makes of `pre`, and what it answers.
    pub open spec fn outcome_folded(
        pre: List,
        post: List,
        settings: Settings,
        result: Result<CommandType, ()>,
        effect: Effect,
    ) -> bool {
        &&& match result {
                Err(_) => {
                    &&& effect matches Effect::Done
                    &&& post == (List {
                        loading_state: post.loading_state,
                        filtered_packages: post.filtered_packages,
                        ..pre
                    })
                    &&& post.loading_state.same_phase(pre.loading_state)
                    &&& post.loading_state.text() == error_marker()
                    &&& post.filtered_packages@ == pre.filtered_packages@
                },
                Ok(CommandType::Shell) => (effect matches Effect::Done) && post == pre,
                Ok(CommandType::PackageManager(info)) => if pre.is_stale(
                    info,
                    settings.device.multi_user_mode,
                ) {
                    (effect matches Effect::Refused) && post == pre
                } else {
                    (effect matches Effect::Done) && List::outcome_applied(
                        pre,
                        post,
                        info,
                        settings,
                    )
                },
            }
    }

    /// Folds the outcome of a device command into the tables. A failure
    /// changes no row and leaves the error marker as status text. A stale
    /// outcome is dropped and answered with `Refused`.
    pub fn change_package_state(
        &mut self,
        settings: &Settings,
        result: Result<CommandType, ()>,
    ) -> (effect: Effect)
        requires
            old(self).wf(),
        ensures
            final(self).wf(),
            List::outcome_folded(*old(self), *final(self), *settings, result, effect),
    {
        match result {
            Err(_) => {
                self.loading_state.set_text("Error".to_owned());
                self.filter_package_lists();
                Effect::Done
            },
            Ok(CommandType::Shell) => Effect::Done,
            Ok(CommandType::PackageManager(info)) => {
                let u = self.selected_user.index;
                if info.generation != self.generation || u >= self.phone_packages.len() {
                    return Effect::Refused;
                }
                if info.index >= self.phone_packages[u].len() {
                    return Effect::Refused;
                }
                let t = if settings.device.multi_user_mode && info.i_user.is_some() {
                    info.i_user.unwrap()
                } else {
                    u
                };
                if t >= self.phone_packages.len() {
                    return Effect::Refused;
                }
                if info.index >= self.phone_packages[t].len() {
                    return Effect::Refused;
                }
                self.apply_transition(t, info.index, settings.device.disable_mode);
                self.filter_package_lists();
                Effect::Done
            },
        }
    }

    /// What `restoring_device` makes of `pre`, and what it answers.
    pub open spec fn restore_shown(
        pre: List,
        post: List,
        output: Result<CommandType, ()>,
        effect: Effect,
    ) -> bool {
        &&& post == (List { loading_state: post.loading_state, ..pre })
        &&& match output {
                Err(_) => (effect matches Effect::Done) && (post.loading_state matches LoadingState::RestoringDevice(
                    t,
                ) && t@ == error_marker()),
                Ok(CommandType::Shell) => (effect matches Effect::Done) && post == pre,
                Ok(CommandType::PackageManager(info)) => if info.generation != pre.generation
                    || info.index >= pre.active_rows().len() {
                    (effect matches Effect::Refused) && post == pre
                } else {
                    (effect matches Effect::Done) && (post.loading_state matches LoadingState::RestoringDevice(
                        t,
                    ) && t == pre.active_rows()[info.index as int].name)
                },
            }
    }

    /// Shows the progress of a device restore: the name of the package that
    /// was restored last, or the error marker. An outcome that names no row
    /// of the active user's table of this load is dropped.
    pub fn restoring_device(&mut self, output: Result<CommandType, ()>) -> (effect: Effect)
        ensures
            List::restore_shown(*old(self), *final(self), output, effect),
    {
        match output {
            Err(_) => {
                self.loading_state = LoadingState::RestoringDevice("Error".to_owned());
                Effect::Done
            },
            Ok(CommandType::Shell) => Effect::Done,
            Ok(CommandType::PackageManager(info)) => {
                let u = self.selected_user.index;
                if info.generation != self.generation || u >= self.phone_packages.len() {
                    return Effect::Refused;
                }
                if info.index >= self.phone_packages[u].len() {
                    return Effect::Refused;
                }
                self.loading_state =
                LoadingState::RestoringDevice(self.phone_packages[u][info.index].name.clone());
                Effect::Done
            },
        }
    }
}

impl List {
    /// What `select_user` makes of `pre`, and what it answers.
    pub open spec fn user_selected(pre: List, post: List, user: User, effect: Effect) -> bool {
        &&& user.index >= pre.phone_packages@.len() ==> (effect matches Effect::Refused)
                && post == pre
        &&& user.index < pre.phone_packages@.len() ==> {
                let was = pre.selected_user.index as int;
                let picked = post.selection.selected_packages@;
                &&& effect matches Effect::Done
                &&& post == (List {
                    phone_packages: post.phone_packages,
                    selection: post.selection,
                    filtered_packages: post.filtered_packages,
                    selected_user: user,
                    ..pre
                })
                &&& picked == kept(
                    pre.selection.selected_packages@,
                    below(post.active_rows().len()),
                )
                &&& post.phone_packages@.len() == pre.phone_packages@.len()
                &&& forall|v: int|
                    0 <= v < pre.phone_packages@.len() ==> (#[trigger] post.phone_packages@[v])@.len() == pre.phone_packages@[v]@.len()
                &&& forall|v: int, j: int|
                    0 <= v < pre.phone_packages@.len() && 0 <= j < pre.phone_packages@[v]@.len() ==> #[trigger] post.phone_packages@[v]@[j]
                        == flagged(
                        pre.phone_packages@[v]@[j],
                        (v != was && pre.phone_packages@[v]@[j].selected) || (v
                            == user.index && picked.contains(j as usize)),
                    )
            }
    }

    /// Makes `user` the active user. The flags of the table that was active
    /// are cleared, the selected indices that are rows of the new table
    /// stay selected, are flagged there and are counted against its states,
    /// and the view is computed anew. A user without a table is refused.
    pub fn select_user(&mut self, user: User) -> (effect: Effect)
        requires
            old(self).wf(),
        ensures
            final(self).wf(),
            List::user_selected(*old(self), *final(self), user, effect),
    {
        if user.index >= self.phone_packages.len() {
            return Effect::Refused;
        }
        let u = self.selected_user.index;
        if u < self.phone_packages.len() {
            clear_flags(&mut self.phone_packages[u]);
        }
        self.selected_user = user;
        self.selection =
        Selection::recount(&self.selection.selected_packages, &self.phone_packages[user.index]);
        let ghost mid = self.active_rows();
        mark_rows(&mut self.phone_packages[user.index], &self.selection.selected_packages);
        proof {
            lemma_flags_do_not_count(self.selection, mid, self.active_rows(), self.filters());
        }
        self.filter_package_lists();
        Effect::Done
    }

    /// The rows that `apply_action_on_selection` hands out.
    pub open spec fn selection_planned(pre: List, action: Action, targets: Vec<PackageInfo>) -> bool {
        &&& targets@.len() == kept(
                pre.selection.selected_packages@,
                direction_applies(pre.active_rows(), action),
            ).len()
        &&& forall|k: int|
                0 <= k < targets@.len() ==> {
                    let i = kept(
                        pre.selection.selected_packages@,
                        direction_applies(pre.active_rows(), action),
                    )[k];
                    &&& (#[trigger] targets@[k]).index == i
                    &&& targets@[k].i_user.is_none()
                    &&& targets@[k].generation == pre.generation
                    &&& targets@[k].removal@ == removal_label(
                        pre.active_rows()[i as int].removal,
                    )
                }
    }

    /// The rows that a bulk action in the given direction is to be planned
    /// for: the selected rows that the direction applies to, in the order in
    /// which they were selected. Rows that it does not apply to are left
    /// out without a word.
    pub fn apply_action_on_selection(&self, action: Action) -> (targets: Vec<PackageInfo>)
        ensures
            List::selection_planned(*self, action, targets),
    {
        let mut targets: Vec<PackageInfo> = Vec::new();
        let u = self.selected_user.index;
        if u >= self.phone_packages.len() {
            proof {
                let test = direction_applies(self.active_rows(), action);
                lemma_kept_members(self.selection.selected_packages@, test);
                let out = kept(self.selection.selected_packages@, test);
                if out.len() > 0 {
                    assert(out.contains(out[0]));
                }
            }
            return targets;
        }
        let ghost test = direction_applies(self.active_rows(), action);
        let ghost picked = self.selection.selected_packages@;
        let n = self.selection.selected_packages.len();
        let mut k: usize = 0;
        while k < n
            invariant
                k <= n,
                n == picked.len(),
                picked == self.selection.selected_packages@,
                u == self.selected_user.index,
                u < self.phone_packages@.len(),
                test == direction_applies(self.active_rows(), action),
                targets@.len() == kept(picked.take(k as int), test).len(),
                forall|m: int|
                    0 <= m < targets@.len() ==> {
                        let i = kept(picked.take(k as int), test)[m];
                        &&& (#[trigger] targets@[m]).index == i
                        &&& targets@[m].i_user.is_none()
                        &&& targets@[m].generation == self.generation
                        &&& targets@[m].removal@ == removal_label(
                            self.active_rows()[i as int].removal,
                        )
                    },
            decreases n - k,
        {
            let i = self.selection.selected_packages[k];
            proof {
                let next = picked.take(k as int + 1);
                assert(next.drop_last() == picked.take(k as int));
                assert(next.last() == i);
            }
            if i < self.phone_packages[u].len() {
                let enabled = self.phone_packages[u][i].state == PackageState::Enabled;
                let removing = action == Action::Remove;
                if removing == enabled {
                    targets.push(
                        PackageInfo {
                            i_user: None,
                            index: i,
                            removal: self.phone_packages[u][i].removal.label(),
                            generation: self.generation,
                        },
                    );
                }
            }
            k = k + 1;
        }
        proof {
            assert(picked.take(k as int) == picked);
        }
        targets
    }

    /// What `action_pressed` answers.
    pub open spec fn action_planned(pre: List, index: usize, effect: Effect) -> bool {
        if index >= pre.active_rows().len() {
            effect matches Effect::Refused
        } else {
            effect matches Effect::Plan(targets) && targets@.len() == 1 && targets@[0].index
                == index && targets@[0].i_user.is_none() && targets@[0].generation
                == pre.generation && targets@[0].removal@ == removal_label(
                pre.active_rows()[index as int].removal,
            )
        }
    }

    /// The operator asked for the action on one row: that row is to be
    /// planned for, whatever its state. An index that is no row is refused.
    pub fn action_pressed(&self, index: usize) -> (effect: Effect)
        ensures
            List::action_planned(*self, index, effect),
    {
        let u = self.selected_user.index;
        if u >= self.phone_packages.len() {
            return Effect::Refused;
        }
        if index >= self.phone_packages[u].len() {
            return Effect::Refused;
        }
        let mut targets: Vec<PackageInfo> = Vec::new();
        targets.push(
            PackageInfo {
                i_user: None,
                index: index,
                removal: self.phone_packages[u][index].removal.label(),
                generation: self.generation,
            },
        );
        Effect::Plan(targets)
    }

    /// What `package_pressed` makes of `pre`, and what it answers.
    pub open spec fn pressed(pre: List, post: List, index: usize, effect: Effect) -> bool {
        &&& index >= pre.active_rows().len() ==> (effect matches Effect::Refused)
                && post == pre
        &&& index < pre.active_rows().len() ==> {
                let was = pre.current_package_index;
                &&& effect matches Effect::Done
                &&& post == (List {
                    phone_packages: post.phone_packages,
                    description: post.description,
                    current_package_index: index,
                    ..pre
                })
                &&& post.description == pre.active_rows()[index as int].description
                &&& post.phone_packages@.len() == pre.phone_packages@.len()
                &&& forall|v: int|
                    0 <= v < pre.phone_packages@.len() && v != pre.selected_user.index
                        ==> post.phone_packages@[v] == pre.phone_packages@[v]
                &&& post.active_rows().len() == pre.active_rows().len()
                &&& forall|j: int|
                    0 <= j < pre.active_rows().len() ==> #[trigger] post.active_rows()[j] == (PackageRow {
                        current: if j == index {
                            true
                        } else if j == was {
                            false
                        } else {
                            pre.active_rows()[j].current
                        },
                        ..pre.active_rows()[j]
                    })
            }
    }

    /// The operator pointed at one row: its description is shown and it
    /// becomes the current row in place of the one that was. An index that
    /// is no row is refused.
    pub fn package_pressed(&mut self, index: usize) -> (effect: Effect)
        requires
            old(self).wf(),
        ensures
            final(self).wf(),
            List::pressed(*old(self), *final(self), index, effect),
    {
        let u = self.selected_user.index;
        if u >= self.phone_packages.len() {
            return Effect::Refused;
        }
        if index >= self.phone_packages[u].len() {
            return Effect::Refused;
        }
        let ghost before = self.active_rows();
        self.description = self.phone_packages[u][index].description.clone();
        self.phone_packages[u][index].current = true;
        let was = self.current_package_index;
        if was != index && was < self.phone_packages[u].len() {
            self.phone_packages[u][was].current = false;
        }
        self.current_package_index = index;
        proof {
            lemma_flags_do_not_count(self.selection, before, self.active_rows(), self.filters());
        }
        Effect::Done
    }
}

impl List {
    /// What `update` makes of `pre` and of the catalog state for each
    /// event, and what it answers.
    pub open spec fn update_result(
        pre: List,
        post: List,
        settings: Settings,
        state_before: UadListState,
        state_after: UadListState,
        message: Message,
        effect: Effect,
    ) -> bool {
        &&& state_after == match message {
            Message::LoadPhonePackages(list_box) => list_box.1,
            _ => state_before,
        }
        &&& match message {
            Message::RestoringDevice(output) => List::restore_shown(pre, post, output, effect),
            Message::LoadUadList(remote) => {
                &&& effect matches Effect::LoadCatalog(r)
                &&& r == remote
                &&& post == (List { loading_state: post.loading_state, ..pre })
                &&& post.loading_state matches LoadingState::DownloadingList(t)
                &&& t@.len() == 0
            },
            Message::LoadPhonePackages(list_box) => {
                &&& effect matches Effect::LoadPackages
                &&& post == (List {
                    loading_state: post.loading_state,
                    uad_lists: list_box.0,
                    ..pre
                })
                &&& post.loading_state matches LoadingState::LoadingPackages(t)
                &&& t@.len() == 0
            },
            Message::ApplyFilters(packages) => (effect matches Effect::Done) && List::reloaded(
                pre,
                post,
                packages,
            ),
            Message::ToggleAllSelected(selected) => (effect matches Effect::Done)
                && List::toggled_all(pre, post, selected),
            Message::SearchInputChanged(text) => (effect matches Effect::Done) && post == (List {
                input_value: text,
                filtered_packages: post.filtered_packages,
                ..pre
            }),
            Message::ListSelected(list) => (effect matches Effect::Done) && post == (List {
                selected_list: list,
                filtered_packages: post.filtered_packages,
                ..pre
            }),
            Message::PackageStateSelected(state) => (effect matches Effect::Done) && post
                == (List {
                selected_package_state: state,
                filtered_packages: post.filtered_packages,
                ..pre
            }),
            Message::RemovalSelected(removal) => (effect matches Effect::Done) && post == (List {
                selected_removal: removal,
                filtered_packages: post.filtered_packages,
                ..pre
            }),
            Message::UserSelected(user) => List::user_selected(pre, post, user, effect),
            Message::List(index, row_message) => match row_message {
                RowMessage::ToggleSelection(toggle) => List::toggled_one(
                    pre,
                    post,
                    index,
                    toggle,
                    settings.general.expert_mode,
                    effect,
                ),
                RowMessage::ActionPressed => post == pre && List::action_planned(
                    pre,
                    index,
                    effect,
                ),
                RowMessage::PackagePressed => List::pressed(pre, post, index, effect),
            },
            Message::ApplyActionOnSelection(action) => {
                &&& post == pre
                &&& effect matches Effect::Plan(targets)
                &&& List::selection_planned(pre, action, targets)
            },
            Message::ChangePackageState(result) => List::outcome_folded(
                pre,
                post,
                settings,
                result,
                effect,
            ),
            Message::Nothing => (effect matches Effect::Done) && post == pre,
        }
    }

    /// Takes one event: changes the state as the event asks and answers
    /// with the work that is left to the caller. The selection and the
    /// filtered view agree with the active user's table after every event.
    pub fn update(
        &mut self,
        settings: &Settings,
        list_update_state: &mut UadListState,
        message: Message,
    ) -> (effect: Effect)
        requires
            old(self).wf(),
        ensures
            final(self).wf(),
            List::update_result(
                *old(self),
                *final(self),
                *settings,
                *old(list_update_state),
                *final(list_update_state),
                message,
                effect,
            ),
    {
        match message {
            Message::RestoringDevice(output) => self.restoring_device(output),
            Message::LoadUadList(remote) => {
                self.loading_state = LoadingState::DownloadingList(String::new());
                Effect::LoadCatalog(remote)
            },
            Message::LoadPhonePackages(list_box) => {
                let (uad_list, list_state) = list_box;
                self.loading_state = LoadingState::LoadingPackages(String::new());
                self.uad_lists = uad_list;
                *list_update_state = list_state;
                Effect::LoadPackages
            },
            Message::ApplyFilters(packages) => {
                self.reload(packages);
                Effect::Done
            },
            Message::ToggleAllSelected(selected) => {
                self.toggle_all(selected);
                Effect::Done
            },
            Message::SearchInputChanged(text) => {
                self.set_search(text);
                Effect::Done
            },
            Message::ListSelected(list) => {
                self.set_list(list);
                Effect::Done
            },
            Message::PackageStateSelected(state) => {
                self.set_package_state(state);
                Effect::Done
            },
            Message::RemovalSelected(removal) => {
                self.set_removal(removal);
                Effect::Done
            },
            Message::UserSelected(user) => self.select_user(user),
            Message::List(index, row_message) => match row_message {
                RowMessage::ToggleSelection(toggle) => self.toggle_one(
                    index,
                    toggle,
                    settings.general.expert_mode,
                ),
                RowMessage::ActionPressed => self.action_pressed(index),
                RowMessage::PackagePressed => self.package_pressed(index),
            },
            Message::ApplyActionOnSelection(action) => Effect::Plan(
                self.apply_action_on_selection(action),
            ),
            Message::ChangePackageState(result) => self.change_package_state(settings, result),
            Message::Nothing => Effect::Done,
        }
    }
}

/// How the action that removes is called: with `disable_mode` packages are
/// disabled, else uninstalled.
pub open spec fn remove_label(disable_mode: bool) -> Seq<char> {
    if disable_mode {
        "Disable"@
    } else {
        "Uninstall"@
    }
}

/// How the action that restores is called: with `disable_mode` it also
/// enables what was disabled.
pub open spec fn restore_label(disable_mode: bool) -> Seq<char> {
    if disable_mode {
        "Enable/Restore"@
    } else {
        "Restore"@
    }
}

/// The name of the removing action under the given setting.
pub fn remove_action(disable_mode: bool) -> (name: &'static str)
    ensures
        name@ == remove_label(disable_mode),
{
    if disable_mode {
        "Disable"
    } else {
        "Uninstall"
    }
}

/// The name of the restoring action under the given setting.
pub fn restore_action(disable_mode: bool) -> (name: &'static str)
    ensures
        name@ == restore_label(disable_mode),
{
    if disable_mode {
        "Enable/Restore"
    } else {
        "Restore"
    }
}

impl List {
    /// How many selected packages a bulk restore applies to: those that are
    /// uninstalled and those that are disabled.
    pub fn restore_count(&self) -> (n: usize)
        requires
            self.wf(),
        ensures
            n == self.selection.uninstalled + self.selection.disabled,
            n == count_in_state(
                self.selection.selected_packages@,
                self.active_rows(),
                PackageState::Uninstalled,
            ) + count_in_state(
                self.selection.selected_packages@,
                self.active_rows(),
                PackageState::Disabled,
            ),
    {
        let total: usize = self.selection.selected_packages.len();
        proof {
            lemma_counts_sum_le_len(self.selection.selected_packages@, self.active_rows());
        }
        self.selection.uninstalled + self.selection.disabled
    }

    /// How many selected packages a bulk removal applies to: those that are
    /// enabled.
    pub fn remove_count(&self) -> (n: usize)
        requires
            self.wf(),
        ensures
            n == count_in_state(
                self.selection.selected_packages@,
                self.active_rows(),
                PackageState::Enabled,
            ),
    {
        self.selection.enabled
    }
}

/// After `toggle_all`, a row is selected exactly if it was shown, when the
/// rows were selected, or if it was selected and not shown, when they were
/// deselected; a selected row that is not shown stays selected either way.
pub proof fn lemma_toggle_all_membership(pre: List, post: List, selected: bool, x: usize)
    requires
        pre.wf(),
        List::toggled_all(pre, post, selected),
    ensures
        post.selection.selected_packages@.contains(x) <==> if selected {
            pre.selection.selected_packages@.contains(x) || pre.filtered_packages@.contains(x)
        } else {
            pre.selection.selected_packages@.contains(x) && !pre.filtered_packages@.contains(x)
        },
{
    let picked = pre.selection.selected_packages@;
    let shown = pre.filtered_packages@;
    if selected {
        let fresh = kept(shown, not_in(picked));
        let all = picked + fresh;
        lemma_kept_members(shown, not_in(picked));
        if picked.contains(x) {
            let a = choose|a: int| 0 <= a < picked.len() && picked[a] == x;
            assert(all[a] == x);
        }
        if fresh.contains(x) {
            let a = choose|a: int| 0 <= a < fresh.len() && fresh[a] == x;
            assert(all[picked.len() + a] == x);
        }
        if all.contains(x) {
            let a = choose|a: int| 0 <= a < all.len() && all[a] == x;
            if a < picked.len() {
                assert(picked[a] == x);
            } else {
                assert(fresh[a - picked.len()] == x);
            }
        }
    } else {
        lemma_kept_members(picked, not_in(shown));
    }
}

/// Whenever the controller is well formed, which it is after every event,
/// each counter is the number of selected rows of the active user's table
/// that are in its state now.
pub proof fn lemma_counters_match_selection(list: List)
    requires
        list.wf(),
    ensures
        list.selection.enabled == count_in_state(
            list.selection.selected_packages@,
            list.active_rows(),
            PackageState::Enabled,
        ),
        list.selection.disabled == count_in_state(
            list.selection.selected_packages@,
            list.active_rows(),
            PackageState::Disabled,
        ),
        list.selection.uninstalled == count_in_state(
            list.selection.selected_packages@,
            list.active_rows(),
            PackageState::Uninstalled,
        ),
        list.selection.selected_packages@.no_duplicates(),
{
}

/// Outside expert mode, a request to select a row whose removal is unsafe
/// is refused: the row is not selected afterwards, and where it was not
/// selected before, the selection and its counters are as they were.
pub proof fn lemma_unsafe_gate(pre: List, post: List, index: usize, effect: Effect)
    requires
        pre.wf(),
        index < pre.active_rows().len(),
        pre.active_rows()[index as int].removal == Removal::Unsafe,
        List::toggled_one(pre, post, index, true, false, effect),
    ensures
        effect matches Effect::Refused,
        !post.active_rows()[index as int].selected,
        !post.selection.selected_packages@.contains(index),
        !pre.selection.selected_packages@.contains(index) ==> {
            &&& post.selection.selected_packages@ == pre.selection.selected_packages@
            &&& post.selection.enabled == pre.selection.enabled
            &&& post.selection.disabled == pre.selection.disabled
            &&& post.selection.uninstalled == pre.selection.uninstalled
        },
{
    lemma_without_members(pre.selection.selected_packages@, index);
}

/// An outcome that arrives after the tables were replaced, for a command
/// sent before, is dropped: the controller stays exactly as the reload left
/// it.
pub proof fn lemma_outcome_after_reload_is_dropped(
    before: List,
    packages: Vec<Vec<PackageRow>>,
    loaded: List,
    info: PackageInfo,
    settings: Settings,
    post: List,
    effect: Effect,
)
    requires
        List::reloaded(before, loaded, packages),
        info.generation == before.generation,
        List::outcome_folded(
            loaded,
            post,
            settings,
            Ok(CommandType::PackageManager(info)),
            effect,
        ),
    ensures
        post == loaded,
        effect matches Effect::Refused,
{
}

/// Once the tables have been replaced, every outcome of a command that was
/// sent for the earlier tables is stale, whatever row and user it names.
pub proof fn lemma_reload_makes_outcomes_stale(
    before: List,
    after: List,
    info: PackageInfo,
    multi_user_mode: bool,
)
    requires
        after.generation != before.generation,
        info.generation == before.generation,
    ensures
        after.is_stale(info, multi_user_mode),
{
}

impl Default for List {
    fn default() -> (list: List)
        ensures
            list.wf(),
            list.phone_packages@.len() == 0,
            list.selection.selected_packages@.len() == 0,
            list.generation == 0,
    {
        List::new()
    }
}

} // verus!
