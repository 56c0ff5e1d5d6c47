//! Building the tables: one per user, one row per package that the device
//! reports, classified by the catalog.

use vstd::prelude::*;
use crate::package::{Package, PackageRow, PackageState, Removal, UadList, UadListState, User};

verus! {

/// A package as the device reports it for one user.
#[derive(Debug, Clone)]
pub struct ReportedPackage {
    pub name: String,
    pub state: PackageState,
}

/// The description of a package that the catalog does not know.
pub open spec fn no_description() -> Seq<char> {
    "[No description]"@
}

/// The place of the first catalog entry for `name`, if there is one.
pub open spec fn catalog_entry(catalog: Seq<Package>, name: Seq<char>) -> Option<int> {
    if exists|i: int| 0 <= i < catalog.len() && catalog[i].id@ == name {
        Some(
            choose|i: int|
                0 <= i < catalog.len() && catalog[i].id@ == name && forall|j: int|
                    0 <= j < i ==> catalog[j].id@ != name,
        )
    } else {
        None
    }
}

/// `row` is the fresh row for `reported`: name and state as reported, no
/// flag set, and list, removal and description from the catalog entry of
/// that name, or `Unlisted` and the stock description where there is none.
pub open spec fn row_built(row: PackageRow, reported: ReportedPackage, catalog: Seq<Package>) -> bool {
    &&& row.name == reported.name
    &&& row.state == reported.state
    &&& !row.selected
    &&& !row.current
    &&& match catalog_entry(catalog, reported.name@) {
        Some(i) => {
            &&& row.description == catalog[i].description
            &&& row.uad_list == catalog[i].list
            &&& row.removal == catalog[i].removal
        },
        None => {
            &&& row.description@ == no_description()
            &&& row.uad_list == UadList::Unlisted
            &&& row.removal == Removal::Unlisted
        },
    }
}

/// Looks `name` up in the catalog.
pub fn find_in_catalog(catalog: &Vec<Package>, name: &String) -> (found: Option<usize>)
    ensures
        match found {
            Some(i) => catalog_entry(catalog@, name@) == Some(i as int) && i < catalog@.len()
                && catalog@[i as int].id@ == name@,
            None => catalog_entry(catalog@, name@).is_none(),
        },
{
    let mut i: usize = 0;
    while i < catalog.len()
        invariant
            i <= catalog@.len(),
            forall|j: int| 0 <= j < i ==> catalog@[j].id@ != name@,
        decreases catalog.len() - i,
    {
        if catalog[i].id == *name {
            proof {
                let c = choose|c: int|
                    0 <= c < catalog@.len() && catalog@[c].id@ == name@ && forall|j: int|
                        0 <= j < c ==> catalog@[j].id@ != name@;
                assert(0 <= i < catalog@.len() && catalog@[i as int].id@ == name@ && forall|j: int|
                    0 <= j < i ==> catalog@[j].id@ != name@);
                if c < i {
                    assert(catalog@[c].id@ != name@);
                }
                if i < c {
                    assert(catalog@[i as int].id@ != name@);
                }
            }
            return Some(i);
        }
        i = i + 1;
    }
    None
}

/// The row for one reported package. A package that the catalog does not
/// know gets a row all the same.
pub fn build_row(reported: &ReportedPackage, catalog: &Vec<Package>) -> (row: PackageRow)
    ensures
        row_built(row, *reported, catalog@),
{
    match find_in_catalog(catalog, &reported.name) {
        Some(i) => PackageRow {
            name: reported.name.clone(),
            state: reported.state,
            description: catalog[i].description.clone(),
            uad_list: catalog[i].list,
            removal: catalog[i].removal,
            selected: false,
            current: false,
        },
        None => PackageRow {
            name: reported.name.clone(),
            state: reported.state,
            description: "[No description]".to_owned(),
            uad_list: UadList::Unlisted,
            removal: Removal::Unlisted,
            selected: false,
            current: false,
        },
    }
}

/// The tables for the packages that the device reports, user by user: as
/// many tables as reports, each with one row per reported package, in the
/// order of the report.
pub fn populate(catalog: &Vec<Package>, reports: &Vec<Vec<ReportedPackage>>) -> (tables: Vec<
    Vec<PackageRow>,
>)
    ensures
        tables@.len() == reports@.len(),
        forall|u: int|
            0 <= u < reports@.len() ==> (#[trigger] tables@[u])@.len() == reports@[u]@.len(),
        forall|u: int, i: int|
            0 <= u < reports@.len() && 0 <= i < reports@[u]@.len() ==> row_built(
                #[trigger] tables@[u]@[i],
                reports@[u]@[i],
                catalog@,
            ),
{
    let mut tables: Vec<Vec<PackageRow>> = Vec::new();
    let mut u: usize = 0;
    while u < reports.len()
        invariant
            u <= reports@.len(),
            tables@.len() == u,
            forall|v: int| 0 <= v < u ==> (#[trigger] tables@[v])@.len() == reports@[v]@.len(),
            forall|v: int, i: int|
                0 <= v < u && 0 <= i < reports@[v]@.len() ==> row_built(
                    #[trigger] tables@[v]@[i],
                    reports@[v]@[i],
                    catalog@,
                ),
        decreases reports.len() - u,
    {
        let report = &reports[u];
        let mut rows: Vec<PackageRow> = Vec::new();
        let mut i: usize = 0;
        while i < report.len()
            invariant
                i <= report@.len(),
                rows@.len() == i,
                forall|k: int|
                    0 <= k < i ==> row_built(#[trigger] rows@[k], report@[k], catalog@),
            decreases report.len() - i,
        {
            rows.push(build_row(&report[i], catalog));
            i = i + 1;
        }
        tables.push(rows);
        u = u + 1;
    }
    tables
}

/// The users whose packages are to be listed: on a device with at most one
/// user the packages are listed once, for no user in particular; else once
/// for each user, in their order.
pub fn load_packages(user_list: &Vec<User>) -> (wanted: Vec<Option<User>>)
    ensures
        user_list@.len() <= 1 ==> wanted@ == seq![None::<User>],
        user_list@.len() > 1 ==> wanted@ == user_list@.map_values(|user: User| Some(user)),
{
    let mut wanted: Vec<Option<User>> = Vec::new();
    if user_list.len() <= 1 {
        wanted.push(None);
        proof {
            assert(wanted@ == seq![None::<User>]);
        }
    } else {
        let mut k: usize = 0;
        while k < user_list.len()
            invariant
                k <= user_list@.len(),
                wanted@ == user_list@.take(k as int).map_values(|user: User| Some(user)),
            decreases user_list.len() - k,
        {
            wanted.push(Some(user_list[k]));
            proof {
                assert(wanted@ == user_list@.take(k as int + 1).map_values(
                    |user: User| Some(user),
                ));
            }
            k = k + 1;
        }
        proof {
            assert(user_list@.take(k as int) == user_list@);
        }
    }
    wanted
}

/// What the controller is told once the catalog was asked for: the remote
/// catalog with `Done`, or, where that failed, the embedded one that came
/// in its place with `Failed`. Either way there is a catalog to go on with.
pub fn init_apps_view(loaded: Result<Vec<Package>, Vec<Package>>) -> (list_box: (
    Vec<Package>,
    UadListState,
))
    ensures
        match loaded {
            Ok(remote) => list_box == (remote, UadListState::Done),
            Err(embedded) => list_box == (embedded, UadListState::Failed),
        },
{
    match loaded {
        Ok(remote) => (remote, UadListState::Done),
        Err(embedded) => (embedded, UadListState::Failed),
    }
}

} // verus!
