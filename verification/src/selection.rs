//! The packages marked for a bulk action, with running counts by state.

use vstd::prelude::*;
use crate::package::{PackageRow, PackageState};
use crate::seqs::{below, kept, without, lemma_kept_members, lemma_without_members};

verus! {

/// The marked packages, as indices into the active user's table, and how
/// many of them are in each state.
#[derive(Debug, Clone)]
pub struct Selection {
    pub uninstalled: usize,
    pub enabled: usize,
    pub disabled: usize,
    pub selected_packages: Vec<usize>,
}

/// How many items of `picked` point at a row of `rows` that is in `state`.
pub open spec fn count_in_state(picked: Seq<usize>, rows: Seq<PackageRow>, state: PackageState) -> nat
    decreases picked.len(),
{
    if picked.len() == 0 {
        0
    } else {
        count_in_state(picked.drop_last(), rows, state) + if picked.last() < rows.len()
            && rows[picked.last() as int].state == state {
            1nat
        } else {
            0nat
        }
    }
}

/// No more items are counted than there are.
pub proof fn lemma_count_le_len(picked: Seq<usize>, rows: Seq<PackageRow>, state: PackageState)
    ensures
        count_in_state(picked, rows, state) <= picked.len(),
    decreases picked.len(),
{
    if picked.len() > 0 {
        lemma_count_le_len(picked.drop_last(), rows, state);
    }
}

/// The three counts together are no more than the items there are.
pub proof fn lemma_counts_sum_le_len(picked: Seq<usize>, rows: Seq<PackageRow>)
    ensures
        count_in_state(picked, rows, PackageState::Enabled) + count_in_state(
            picked,
            rows,
            PackageState::Disabled,
        ) + count_in_state(picked, rows, PackageState::Uninstalled) <= picked.len(),
    decreases picked.len(),
{
    if picked.len() > 0 {
        lemma_counts_sum_le_len(picked.drop_last(), rows);
    }
}

/// The count looks only at the states of the rows that are picked.
pub proof fn lemma_count_same_states(
    picked: Seq<usize>,
    before: Seq<PackageRow>,
    after: Seq<PackageRow>,
    state: PackageState,
)
    requires
        before.len() == after.len(),
        forall|j: int|
            0 <= j < before.len() && picked.contains(j as usize) ==> before[j].state
                == after[j].state,
    ensures
        count_in_state(picked, before, state) == count_in_state(picked, after, state),
    decreases picked.len(),
{
    if picked.len() > 0 {
        let d = picked.drop_last();
        assert forall|j: int| 0 <= j < before.len() && d.contains(j as usize) implies before[j].state
            == after[j].state by {
            let i = choose|i: int| 0 <= i < d.len() && d[i] == j as usize;
            assert(picked[i] == j as usize);
        }
        lemma_count_same_states(d, before, after, state);
        assert(picked[picked.len() - 1] == picked.last());
        assert(picked.contains(picked.last()));
    }
}

/// Taking `x` out of a selection without repeats lowers the count of the
/// state of row `x` by one if `x` was in it, and no other count.
pub proof fn lemma_count_without(
    picked: Seq<usize>,
    rows: Seq<PackageRow>,
    x: usize,
    state: PackageState,
)
    requires
        picked.no_duplicates(),
    ensures
        count_in_state(without(picked, x), rows, state) + (if picked.contains(x) && x < rows.len()
            && rows[x as int].state == state {
            1nat
        } else {
            0nat
        }) == count_in_state(picked, rows, state),
    decreases picked.len(),
{
    if picked.len() > 0 {
        let d = picked.drop_last();
        let l = picked.last();
        lemma_count_without(d, rows, x, state);
        assert(picked[picked.len() - 1] == l);
        if d.contains(x) {
            let i = choose|i: int| 0 <= i < d.len() && d[i] == x;
            assert(picked[i] == x);
        }
        if picked.contains(x) && l != x {
            let i = choose|i: int| 0 <= i < picked.len() && picked[i] == x;
            assert(d[i] == x);
        }
        if l != x {
            assert(without(d, x).push(l).drop_last() == without(d, x));
        }
    }
}

impl Selection {
    /// The selection agrees with `rows`: no index twice, each index that of
    /// a row, and each counter the number of selected rows in its state.
    pub open spec fn consistent(&self, rows: Seq<PackageRow>) -> bool {
        &&& self.selected_packages@.no_duplicates()
        &&& forall|k: int|
            0 <= k < self.selected_packages@.len() ==> #[trigger] self.selected_packages@[k]
                < rows.len()
        &&& self.enabled == count_in_state(self.selected_packages@, rows, PackageState::Enabled)
        &&& self.disabled == count_in_state(self.selected_packages@, rows, PackageState::Disabled)
        &&& self.uninstalled == count_in_state(
            self.selected_packages@,
            rows,
            PackageState::Uninstalled,
        )
    }

    /// The empty selection.
    pub fn new() -> (fresh: Selection)
        ensures
            fresh.selected_packages@ == Seq::<usize>::empty(),
            fresh.enabled == 0 && fresh.disabled == 0 && fresh.uninstalled == 0,
            forall|rows: Seq<PackageRow>| fresh.consistent(rows),
    {
        Selection { uninstalled: 0, enabled: 0, disabled: 0, selected_packages: Vec::new() }
    }

    /// Whether `index` is selected.
    pub fn contains(&self, index: usize) -> (found: bool)
        ensures
            found == self.selected_packages@.contains(index),
    {
        let mut k: usize = 0;
        while k < self.selected_packages.len()
            invariant
                k <= self.selected_packages.len(),
                forall|j: int| 0 <= j < k ==> self.selected_packages@[j] != index,
            decreases self.selected_packages.len() - k,
        {
            if self.selected_packages[k] == index {
                return true;
            }
            k = k + 1;
        }
        false
    }

    /// Selects row `index` of `rows`; `changed` says whether it was not
    /// selected before. A row already selected is not counted again.
    pub fn select(&mut self, index: usize, rows: &Vec<PackageRow>) -> (changed: bool)
        requires
            old(self).consistent(rows@),
            index < rows.len(),
        ensures
            final(self).consistent(rows@),
            changed == !old(self).selected_packages@.contains(index),
            final(self).selected_packages@ == if changed {
                old(self).selected_packages@.push(index)
            } else {
                old(self).selected_packages@
            },
    {
        if self.contains(index) {
            return false;
        }
        let ghost before = self.selected_packages@;
        self.selected_packages.push(index);
        let total: usize = self.selected_packages.len();
        let ghost after = self.selected_packages@;
        proof {
            assert(after.drop_last() == before);
            assert(after.last() == index);
            let st = rows@[index as int].state;
            assert(count_in_state(after, rows@, st) == count_in_state(before, rows@, st) + 1);
            lemma_count_le_len(after, rows@, PackageState::Enabled);
            lemma_count_le_len(after, rows@, PackageState::Disabled);
            lemma_count_le_len(after, rows@, PackageState::Uninstalled);
            assert forall|i: int, j: int| 0 <= i < after.len() && 0 <= j < after.len() && i != j implies after[i] != after[j] by {
                if i < before.len() {
                    assert(before.contains(before[i]));
                }
                if j < before.len() {
                    assert(before.contains(before[j]));
                }
            }
        }
        match rows[index].state {
            PackageState::Enabled => {
                self.enabled = self.enabled + 1;
            },
            PackageState::Disabled => {
                self.disabled = self.disabled + 1;
            },
            PackageState::Uninstalled => {
                self.uninstalled = self.uninstalled + 1;
            },
            PackageState::All => {},
        }
        true
    }

    /// Takes `index` out of the selection if it is there, and lowers the
    /// counter of the state that row `index` is in; `changed` says whether
    /// it was selected. Nothing happens for an index that is not selected.
    pub fn remove_if_present(&mut self, index: usize, rows: &Vec<PackageRow>) -> (changed: bool)
        requires
            old(self).consistent(rows@),
        ensures
            final(self).consistent(rows@),
            changed == old(self).selected_packages@.contains(index),
            final(self).selected_packages@ == without(old(self).selected_packages@, index),
            !changed ==> final(self).selected_packages@ == old(self).selected_packages@,
    {
        let ghost before = self.selected_packages@;
        let mut rest: Vec<usize> = Vec::new();
        let mut found = false;
        let mut k: usize = 0;
        while k < self.selected_packages.len()
            invariant
                k <= self.selected_packages.len(),
                self.selected_packages@ == before,
                rest@ == without(before.take(k as int), index),
                found == before.take(k as int).contains(index),
            decreases self.selected_packages.len() - k,
        {
            let item = self.selected_packages[k];
            proof {
                let t = before.take(k as int + 1);
                assert(t.drop_last() == before.take(k as int));
                assert(t.last() == item);
                assert(t[k as int] == item);
                if before.take(k as int).contains(index) {
                    let i = choose|i: int| 0 <= i < k && before.take(k as int)[i] == index;
                    assert(t[i] == index);
                }
                if t.contains(index) && item != index {
                    let i = choose|i: int| 0 <= i < t.len() && t[i] == index;
                    assert(before.take(k as int)[i] == index);
                }
            }
            if item == index {
                found = true;
            } else {
                rest.push(item);
            }
            k = k + 1;
        }
        proof {
            assert(before.take(k as int) == before);
            lemma_without_members(before, index);
            lemma_count_without(before, rows@, index, PackageState::Enabled);
            lemma_count_without(before, rows@, index, PackageState::Disabled);
            lemma_count_without(before, rows@, index, PackageState::Uninstalled);
            assert forall|j: int| 0 <= j < rest@.len() implies #[trigger] rest@[j] < rows@.len() by {
                assert(without(before, index).contains(rest@[j]));
                let i = choose|i: int| 0 <= i < before.len() && before[i] == rest@[j];
                assert(before[i] < rows@.len());
            }
        }
        self.selected_packages = rest;
        if found {
            proof {
                let i = choose|i: int| 0 <= i < before.len() && before[i] == index;
                assert(before[i] < rows@.len());
            }
            match rows[index].state {
                PackageState::Enabled => {
                    self.enabled = self.enabled - 1;
                },
                PackageState::Disabled => {
                    self.disabled = self.disabled - 1;
                },
                PackageState::Uninstalled => {
                    self.uninstalled = self.uninstalled - 1;
                },
                PackageState::All => {},
            }
        }
        found
    }

    /// The selection that keeps, in their order, the items of `picked` that
    /// are rows of `rows`, counted against the states in `rows`.
    pub fn recount(picked: &Vec<usize>, rows: &Vec<PackageRow>) -> (fresh: Selection)
        requires
            picked@.no_duplicates(),
        ensures
            fresh.consistent(rows@),
            fresh.selected_packages@ == kept(picked@, below(rows@.len())),
    {
        let ghost in_table = below(rows@.len());
        let mut fresh = Selection::new();
        let mut k: usize = 0;
        while k < picked.len()
            invariant
                k <= picked.len(),
                in_table == below(rows@.len()),
                fresh.selected_packages@ == kept(picked@.take(k as int), in_table),
                fresh.enabled == count_in_state(
                    fresh.selected_packages@,
                    rows@,
                    PackageState::Enabled,
                ),
                fresh.disabled == count_in_state(
                    fresh.selected_packages@,
                    rows@,
                    PackageState::Disabled,
                ),
                fresh.uninstalled == count_in_state(
                    fresh.selected_packages@,
                    rows@,
                    PackageState::Uninstalled,
                ),
            decreases picked.len() - k,
        {
            let item = picked[k];
            proof {
                let t = picked@.take(k as int + 1);
                assert(t.drop_last() == picked@.take(k as int));
                assert(t.last() == item);
            }
            if item < rows.len() {
                let ghost before = fresh.selected_packages@;
                fresh.selected_packages.push(item);
                let total: usize = fresh.selected_packages.len();
                proof {
                    let after = fresh.selected_packages@;
                    assert(after.drop_last() == before);
                    assert(after.last() == item);
                    let st = rows@[item as int].state;
                    assert(count_in_state(after, rows@, st) == count_in_state(before, rows@, st)
                        + 1);
                    lemma_count_le_len(after, rows@, PackageState::Enabled);
                    lemma_count_le_len(after, rows@, PackageState::Disabled);
                    lemma_count_le_len(after, rows@, PackageState::Uninstalled);
                }
                match rows[item].state {
                    PackageState::Enabled => {
                        fresh.enabled = fresh.enabled + 1;
                    },
                    PackageState::Disabled => {
                        fresh.disabled = fresh.disabled + 1;
                    },
                    PackageState::Uninstalled => {
                        fresh.uninstalled = fresh.uninstalled + 1;
                    },
                    PackageState::All => {},
                }
            }
            k = k + 1;
        }
        proof {
            assert(picked@.take(k as int) == picked@);
            lemma_kept_members(picked@, in_table);
            let out = fresh.selected_packages@;
            assert forall|j: int| 0 <= j < out.len() implies #[trigger] out[j] < rows@.len() by {
                assert(out.contains(out[j]));
            }
        }
        fresh
    }
}

impl Default for Selection {
    fn default() -> (fresh: Selection)
        ensures
            fresh.selected_packages@ == Seq::<usize>::empty(),
            fresh.enabled == 0 && fresh.disabled == 0 && fresh.uninstalled == 0,
    {
        Selection::new()
    }
}

} // verus!
