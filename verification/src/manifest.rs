//! What a crate's manifest declares: package records to contribute, and
//! packages to build bindings for.
use vstd::prelude::*;
use crate::document::{lemma_table_view, record_of, Node, RecordError, Tree};
use crate::package::{PackageSpec, PackageSpecView};
use crate::store::{merge, Catalog, Conflict, SpecStore};

verus! {

/// What is wrong with the declarations of a manifest.
#[derive(Debug, PartialEq, Eq)]
pub enum SpecError {
    /// The records are not given as a table from names to records.
    NotATable,
    /// The packages to build are not given as a list of names.
    NotAList,
    /// The record of the package named is not well formed.
    Record(String, RecordError),
    /// The package already has another record.
    Conflict(Conflict),
}

pub enum SpecErrorView {
    NotATable,
    NotAList,
    Record(Seq<char>, RecordError),
    Conflict { name: Seq<char>, stored: PackageSpecView, incoming: PackageSpecView },
}

impl DeepView for SpecError {
    type V = SpecErrorView;

    open spec fn deep_view(&self) -> SpecErrorView {
        match self {
            SpecError::NotATable => SpecErrorView::NotATable,
            SpecError::NotAList => SpecErrorView::NotAList,
            SpecError::Record(name, error) => SpecErrorView::Record(name@, *error),
            SpecError::Conflict(conflict) => SpecErrorView::Conflict {
                name: conflict.name@,
                stored: conflict.stored@,
                incoming: conflict.incoming@,
            },
        }
    }
}

impl View for SpecError {
    type V = SpecErrorView;

    open spec fn view(&self) -> SpecErrorView {
        self.deep_view()
    }
}

/// What merging the records from position `from` on into the catalog comes
/// to: the catalog after the merge, and the error that ended it, if one
/// did. The records are merged one after the other. The first that is not
/// well formed, or that differs from the one the catalog holds under its
/// name, ends the merge; what was merged before it stays.
pub open spec fn merge_records(
    catalog: Catalog,
    entries: Seq<(Seq<char>, Tree)>,
    from: int,
) -> (Catalog, Option<SpecErrorView>)
    decreases entries.len() - from,
{
    if from < 0 || from >= entries.len() {
        (catalog, None)
    } else {
        match record_of(entries[from].1) {
            Err(error) => (catalog, Some(SpecErrorView::Record(entries[from].0, error))),
            Ok(spec) => match merge(catalog, entries[from].0, spec) {
                None => (
                    catalog,
                    Some(
                        SpecErrorView::Conflict {
                            name: entries[from].0,
                            stored: catalog[entries[from].0],
                            incoming: spec,
                        },
                    ),
                ),
                Some(merged) => merge_records(merged, entries, from + 1),
            },
        }
    }
}

/// What merging the records that `pkgs` declares into the catalog comes to.
pub open spec fn saved(catalog: Catalog, pkgs: Tree) -> (Catalog, Option<SpecErrorView>) {
    match pkgs {
        Tree::Table(entries) => merge_records(catalog, entries, 0),
        _ => (catalog, Some(SpecErrorView::NotATable)),
    }
}

/// Whether a step ended as defined: without an error where none was
/// defined, else with the error that was.
pub open spec fn ended<T>(done: Result<T, SpecError>, wanted: Option<SpecErrorView>) -> bool {
    match wanted {
        None => done is Ok,
        Some(error) => done matches Err(e) && e@ == error,
    }
}

/// Merges the records that `pkgs` declares into the store, in the order in
/// which they stand. On an error the store keeps what was merged before it.
pub fn save_spec(pkgs: &Node, store: &mut SpecStore) -> (done: Result<(), SpecError>)
    ensures
        final(store)@ == saved(old(store)@, pkgs@).0,
        ended(done, saved(old(store)@, pkgs@).1),
{
    let entries = match pkgs {
        Node::Table(entries) => entries,
        _ => {
            return Err(SpecError::NotATable);
        },
    };
    let ghost pairs = pkgs@->Table_0;
    proof {
        lemma_table_view(*entries);
    }
    let mut i: usize = 0;
    while i < entries.len()
        invariant
            i <= entries.len(),
            pkgs@ == Tree::Table(pairs),
            pairs.len() == entries.len(),
            forall|j: int|
                0 <= j < entries.len() ==> pairs[j] == (entries[j].key@, entries[j].value@),
            merge_records(old(store)@, pairs, 0) == merge_records(store@, pairs, i as int),
        decreases entries.len() - i,
    {
        let spec = match PackageSpec::from_node(&entries[i].value) {
            Err(error) => {
                return Err(SpecError::Record(entries[i].key.clone(), error));
            },
            Ok(spec) => spec,
        };
        match store.register(entries[i].key.clone(), spec) {
            Err(conflict) => {
                return Err(SpecError::Conflict(conflict));
            },
            Ok(()) => {},
        }
        i += 1;
    }
    Ok(())
}

/// The part of a manifest that is addressed to this crate: the value named
/// `clib` among the metadata of the package.
pub open spec fn clib_of(manifest: Tree) -> Option<Tree> {
    match manifest.get("package"@) {
        Some(package) => match package.get("metadata"@) {
            Some(metadata) => metadata.get("clib"@),
            None => None,
        },
        None => None,
    }
}

/// The part of a manifest that is addressed to this crate.
pub fn clib_metadata(manifest: &Node) -> (clib: Option<&Node>)
    ensures
        clib.deep_view() == clib_of(manifest@),
{
    match manifest.get("package") {
        Some(package) => match package.get("metadata") {
            Some(metadata) => metadata.get("clib"),
            None => None,
        },
        None => None,
    }
}

/// The packages for which bindings are requested: the names that the list
/// holds.
pub fn requested_packages(list: &Node) -> (names: Result<Vec<String>, SpecError>)
    ensures
        match list@.texts() {
            Some(wanted) => names matches Ok(found) && found.deep_view() == wanted,
            None => names matches Err(SpecError::NotAList),
        },
{
    match list.texts() {
        Some(names) => Ok(names),
        None => Err(SpecError::NotAList),
    }
}

/// What a manifest asks for, given the catalog so far: the catalog with the
/// manifest's records merged into it, and either the packages to build
/// bindings for, if it names any, or the error it ran into. A manifest
/// without a part for this crate asks for nothing.
pub open spec fn metabuild_of(
    catalog: Catalog,
    manifest: Tree,
) -> (Catalog, Result<Option<Seq<Seq<char>>>, SpecErrorView>) {
    match clib_of(manifest) {
        None => (catalog, Ok(None)),
        Some(clib) => {
            let (merged, error) = match clib.get("pkgs"@) {
                Some(pkgs) => saved(catalog, pkgs),
                None => (catalog, None),
            };
            match error {
                Some(error) => (merged, Err(error)),
                None => match clib.get("build-pkgs"@) {
                    None => (merged, Ok(None)),
                    Some(list) => match list.texts() {
                        None => (merged, Err(SpecErrorView::NotAList)),
                        Some(names) => (merged, Ok(Some(names))),
                    },
                },
            }
        },
    }
}

/// Does what a manifest asks for: merges the records it declares into the
/// store, and gives the packages it wants bindings for, if it names any. On
/// an error the store keeps what was merged before it.
pub fn metabuild(
    manifest: &Node,
    store: &mut SpecStore,
) -> (requested: Result<Option<Vec<String>>, SpecError>)
    ensures
        final(store)@ == metabuild_of(old(store)@, manifest@).0,
        match metabuild_of(old(store)@, manifest@).1 {
            Ok(wanted) => requested matches Ok(names) && names.deep_view() == wanted,
            Err(error) => requested matches Err(e) && e@ == error,
        },
{
    let clib = match clib_metadata(manifest) {
        None => {
            return Ok(None);
        },
        Some(clib) => clib,
    };
    match clib.get("pkgs") {
        Some(pkgs) => match save_spec(pkgs, store) {
            Err(error) => {
                return Err(error);
            },
            Ok(()) => {},
        },
        None => {},
    }
    match clib.get("build-pkgs") {
        None => Ok(None),
        Some(list) => match requested_packages(list) {
            Err(error) => Err(error),
            Ok(names) => Ok(Some(names)),
        },
    }
}

} // verus!
