//! The rows of a table that pass the four filters.

use vstd::prelude::*;
use crate::package::{PackageRow, PackageState, Removal, UadList};

verus! {

/// `needle` occurs in `hay` as a run of consecutive characters. The empty
/// text occurs in every text.
pub open spec fn contains_text(hay: Seq<char>, needle: Seq<char>) -> bool {
    exists|i: int|
        0 <= i && i + needle.len() <= hay.len() && #[trigger] hay.subrange(i, i + needle.len())
            == needle
}

/// Calls `str::contains` of std with a string as the pattern. The contract
/// claims what its documentation says: the answer is whether the pattern
/// matches a sub-slice of the string, compared exactly, case included.
#[verifier::external_body]
fn text_occurs(hay: &String, needle: &String) -> (found: bool)
    ensures
        found == contains_text(hay@, needle@),
{
    hay.contains(needle.as_str())
}

/// The values that the four filters are set to.
pub struct Filters {
    pub list: UadList,
    pub state: PackageState,
    pub removal: Removal,
    pub text: Seq<char>,
}

/// A row passes when it passes each filter; `All` and the empty text let
/// every row pass.
pub open spec fn row_matches(row: PackageRow, filters: Filters) -> bool {
    &&& filters.list == UadList::All || row.uad_list == filters.list
    &&& filters.state == PackageState::All || row.state == filters.state
    &&& filters.removal == Removal::All || row.removal == filters.removal
    &&& filters.text.len() == 0 || contains_text(row.name@, filters.text)
}

/// The indices of the rows that pass, in the order of the table.
pub open spec fn visible_indices(rows: Seq<PackageRow>, filters: Filters) -> Seq<usize>
    decreases rows.len(),
{
    if rows.len() == 0 {
        Seq::empty()
    } else if row_matches(rows.last(), filters) {
        visible_indices(rows.drop_last(), filters).push((rows.len() - 1) as usize)
    } else {
        visible_indices(rows.drop_last(), filters)
    }
}

/// The visible indices are exactly those of the rows that pass, each once
/// and in rising order.
pub proof fn lemma_visible_indices(rows: Seq<PackageRow>, filters: Filters)
    requires
        rows.len() <= usize::MAX,
    ensures
        forall|k: int|
            0 <= k < visible_indices(rows, filters).len() ==> #[trigger] visible_indices(
                rows,
                filters,
            )[k] < rows.len(),
        forall|k: int, l: int|
            0 <= k < l < visible_indices(rows, filters).len() ==> visible_indices(rows, filters)[k]
                < visible_indices(rows, filters)[l],
        forall|i: usize| #[trigger]
            visible_indices(rows, filters).contains(i) <==> i < rows.len() && row_matches(
                rows[i as int],
                filters,
            ),
        visible_indices(rows, filters).no_duplicates(),
        visible_indices(rows, filters).len() <= rows.len(),
    decreases rows.len(),
{
    if rows.len() > 0 {
        let d = rows.drop_last();
        let vd = visible_indices(d, filters);
        let v = visible_indices(rows, filters);
        let last = (rows.len() - 1) as usize;
        lemma_visible_indices(d, filters);
        assert forall|i: usize| #[trigger] v.contains(i) <==> i < rows.len() && row_matches(
            rows[i as int],
            filters,
        ) by {
            if i < last {
                assert(rows[i as int] == d[i as int]);
            }
            if vd.contains(i) {
                let k = choose|k: int| 0 <= k < vd.len() && vd[k] == i;
                assert(v[k] == i);
            }
            if row_matches(rows.last(), filters) {
                assert(v[vd.len() as int] == last);
            }
        }
    }
}

/// With every filter at `All` and no search text, every row is visible, in
/// the order of the table.
pub proof fn lemma_no_filter_shows_all(rows: Seq<PackageRow>, filters: Filters)
    requires
        filters.list == UadList::All,
        filters.state == PackageState::All,
        filters.removal == Removal::All,
        filters.text.len() == 0,
    ensures
        visible_indices(rows, filters) == Seq::new(rows.len(), |i: int| i as usize),
    decreases rows.len(),
{
    if rows.len() > 0 {
        lemma_no_filter_shows_all(rows.drop_last(), filters);
    }
}

/// Tables whose rows pass alike show the same indices.
pub proof fn lemma_visible_same_matches(
    before: Seq<PackageRow>,
    after: Seq<PackageRow>,
    filters: Filters,
)
    requires
        before.len() == after.len(),
        forall|j: int|
            0 <= j < before.len() ==> row_matches(before[j], filters) == row_matches(
                after[j],
                filters,
            ),
    ensures
        visible_indices(before, filters) == visible_indices(after, filters),
    decreases before.len(),
{
    if before.len() > 0 {
        lemma_visible_same_matches(before.drop_last(), after.drop_last(), filters);
    }
}

/// The rows of `rows` that pass the filters, by index and in table order.
pub fn matching_indices(
    rows: &Vec<PackageRow>,
    list: UadList,
    state: PackageState,
    removal: Removal,
    text: &String,
) -> (shown: Vec<usize>)
    ensures
        shown@ == visible_indices(
            rows@,
            (Filters { list: list, state: state, removal: removal, text: text@ }),
        ),
{
    let ghost filters = Filters { list: list, state: state, removal: removal, text: text@ };
    let mut shown: Vec<usize> = Vec::new();
    let mut i: usize = 0;
    while i < rows.len()
        invariant
            i <= rows.len(),
            filters == (Filters { list: list, state: state, removal: removal, text: text@ }),
            shown@ == visible_indices(rows@.take(i as int), filters),
        decreases rows.len() - i,
    {
        let row = &rows[i];
        proof {
            let t = rows@.take(i as int + 1);
            assert(t.drop_last() == rows@.take(i as int));
            assert(t.last() == rows@[i as int]);
        }
        if (list == UadList::All || row.uad_list == list) && (state == PackageState::All
            || row.state == state) && (removal == Removal::All || row.removal == removal) && (
        text.as_str().is_empty() || text_occurs(&row.name, text)) {
            shown.push(i);
        }
        i = i + 1;
    }
    proof {
        assert(rows@.take(i as int) == rows@);
    }
    shown
}

} // verus!
