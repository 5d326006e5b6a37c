//! The catalog of package records.
use vstd::prelude::*;
use crate::package::{PackageSpec, PackageSpecView};
use crate::table::Table;

verus! {

/// A catalog: at most one record for each package name.
pub type Catalog = Map<Seq<char>, PackageSpecView>;

/// The catalog after a record has been contributed under `name`, or `None`
/// where the catalog already holds a different record under that name. A
/// record that is already there leaves the catalog as it is.
pub open spec fn merge(
    catalog: Catalog,
    name: Seq<char>,
    spec: PackageSpecView,
) -> Option<Catalog> {
    match catalog.get(name) {
        None => Some(catalog.insert(name, spec)),
        Some(stored) => if stored == spec {
            Some(catalog)
        } else {
            None
        },
    }
}

/// Two contributors declared different records for one package.
#[derive(Debug, PartialEq, Eq)]
pub struct Conflict {
    pub name: String,
    /// The record the store held.
    pub stored: PackageSpec,
    /// The record that was refused.
    pub incoming: PackageSpec,
}

/// The records contributed so far, one for each package name.
#[derive(Debug, PartialEq, Eq)]
pub struct SpecStore {
    specs: Table<PackageSpec>,
}

impl View for SpecStore {
    type V = Catalog;

    closed spec fn view(&self) -> Catalog {
        self.specs@
    }
}

impl SpecStore {
    /// The names under which the store holds a record, in the order of
    /// their first contribution.
    pub closed spec fn names(&self) -> Seq<Seq<char>> {
        self.specs.keys()
    }

    /// The store without records.
    pub fn new() -> (store: SpecStore)
        ensures
            store@ == Map::<Seq<char>, PackageSpecView>::empty(),
    {
        SpecStore { specs: Table::new() }
    }

    /// Merges a record into the store. A name that is new gets the record;
    /// a record identical to the stored one changes nothing; a record that
    /// differs from the stored one is refused, and the store stays as it
    /// was.
    pub fn register(&mut self, name: String, spec: PackageSpec) -> (done: Result<(), Conflict>)
        ensures
            match merge(old(self)@, name@, spec@) {
                Some(catalog) => done is Ok && final(self)@ == catalog,
                None => {
                    &&& final(self)@ == old(self)@
                    &&& done matches Err(conflict)
                    &&& conflict.name@ == name@
                    &&& conflict.stored@ == old(self)@[name@]
                    &&& conflict.incoming@ == spec@
                },
            },
            old(self)@.contains_key(name@) ==> final(self).names() == old(self).names(),
            !old(self)@.contains_key(name@) ==> final(self).names() == old(self).names().push(
                name@,
            ),
    {
        proof {
            self.specs.lemma_keys_are_domain();
        }
        match self.specs.get(name.as_str()) {
            None => {
                self.specs.insert(name, spec);
                Ok(())
            },
            Some(stored) => {
                if stored.same(&spec) {
                    Ok(())
                } else {
                    Err(Conflict { name, stored: stored.duplicate(), incoming: spec })
                }
            },
        }
    }

    /// The record stored under `name`, if there is one.
    pub fn lookup(&self, name: &str) -> (spec: Option<&PackageSpec>)
        ensures
            spec.deep_view() == self@.get(name@),
    {
        self.specs.get(name)
    }

    /// How many records the store holds.
    pub fn len(&self) -> (count: usize)
        ensures
            count == self.names().len(),
    {
        self.specs.len()
    }
}

/// Contributing a record a second time changes nothing: the merge succeeds
/// and gives the catalog that the first contribution gave.
pub proof fn merge_is_idempotent(catalog: Catalog, name: Seq<char>, spec: PackageSpecView)
    ensures
        merge(catalog, name, spec) matches Some(once) ==> merge(once, name, spec) == Some(once),
{
}

/// A record identical to the one stored under its name is accepted and
/// leaves the catalog unchanged.
pub proof fn merge_accepts_identical(catalog: Catalog, name: Seq<char>, spec: PackageSpecView)
    requires
        catalog.get(name) == Some(spec),
    ensures
        merge(catalog, name, spec) == Some(catalog),
{
}

/// A record that differs from the one stored under its name is always
/// refused.
pub proof fn merge_refuses_different(
    catalog: Catalog,
    name: Seq<char>,
    stored: PackageSpecView,
    spec: PackageSpecView,
)
    requires
        catalog.get(name) == Some(stored),
        stored != spec,
    ensures
        merge(catalog, name, spec) is None,
{
}

} // verus!
