//! What is known about the machine the build runs on.
//!
//! The crate never looks at the machine itself. Whoever drives a resolution
//! asks the machine and records each answer in a [`Host`]; the resolution
//! reads the answers from there and names the next question when one is
//! missing.
use vstd::prelude::*;
use crate::table::Table;

verus! {

/// What the package registry reports for a package it knows.
#[derive(Debug, PartialEq, Eq)]
pub struct Package {
    pub link_paths: Vec<String>,
    pub include_paths: Vec<String>,
}

pub struct PackageView {
    pub link_paths: Seq<Seq<char>>,
    pub include_paths: Seq<Seq<char>>,
}

impl DeepView for Package {
    type V = PackageView;

    open spec fn deep_view(&self) -> PackageView {
        PackageView {
            link_paths: self.link_paths.deep_view(),
            include_paths: self.include_paths.deep_view(),
        }
    }
}

impl View for Package {
    type V = PackageView;

    open spec fn view(&self) -> PackageView {
        self.deep_view()
    }
}

/// A question about the machine.
#[derive(Debug, PartialEq, Eq)]
pub enum Query {
    /// Does the package registry know a package of this name, and which
    /// paths does it report for it?
    Package(String),
    /// What does the registry give as the include directory of this package?
    IncludeDir(String),
    /// Where on the search path is the executable of this name?
    Executable(String),
    /// Does this path exist?
    Path(String),
}

pub enum QueryView {
    Package(Seq<char>),
    IncludeDir(Seq<char>),
    Executable(Seq<char>),
    Path(Seq<char>),
}

impl DeepView for Query {
    type V = QueryView;

    open spec fn deep_view(&self) -> QueryView {
        match self {
            Query::Package(name) => QueryView::Package(name@),
            Query::IncludeDir(name) => QueryView::IncludeDir(name@),
            Query::Executable(name) => QueryView::Executable(name@),
            Query::Path(path) => QueryView::Path(path@),
        }
    }
}

impl View for Query {
    type V = QueryView;

    open spec fn view(&self) -> QueryView {
        self.deep_view()
    }
}

/// The answers recorded so far, as maps from what was asked to what came
/// back. A key that is absent from a map has not been asked yet.
pub struct World {
    /// Registry lookups by name; `None` where the registry failed to find
    /// the package.
    pub packages: Map<Seq<char>, Option<PackageView>>,
    /// The registry's raw output for the include directory variable; `None`
    /// where the query could not be run or read as text.
    pub include_dirs: Map<Seq<char>, Option<Seq<char>>>,
    /// The raw output of the executable search; `None` where the search
    /// could not be run.
    pub executables: Map<Seq<char>, Option<Seq<char>>>,
    /// Whether a path exists.
    pub paths: Map<Seq<char>, bool>,
}

impl World {
    /// Whether the question has been answered.
    pub open spec fn answers(self, query: QueryView) -> bool {
        match query {
            QueryView::Package(name) => self.packages.contains_key(name),
            QueryView::IncludeDir(name) => self.include_dirs.contains_key(name),
            QueryView::Executable(name) => self.executables.contains_key(name),
            QueryView::Path(path) => self.paths.contains_key(path),
        }
    }

    /// Whether this world holds every answer that `earlier` holds, and the
    /// same one.
    pub open spec fn extends(self, earlier: World) -> bool {
        &&& earlier.packages.submap_of(self.packages)
        &&& earlier.include_dirs.submap_of(self.include_dirs)
        &&& earlier.executables.submap_of(self.executables)
        &&& earlier.paths.submap_of(self.paths)
    }

    /// The state in which nothing has been asked.
    pub open spec fn unknown() -> World {
        World {
            packages: Map::empty(),
            include_dirs: Map::empty(),
            executables: Map::empty(),
            paths: Map::empty(),
        }
    }
}

/// The answers recorded so far.
#[derive(Debug, PartialEq, Eq)]
pub struct Host {
    packages: Table<Option<Package>>,
    include_dirs: Table<Option<String>>,
    executables: Table<Option<String>>,
    paths: Table<bool>,
}

impl View for Host {
    type V = World;

    closed spec fn view(&self) -> World {
        World {
            packages: self.packages@,
            include_dirs: self.include_dirs@,
            executables: self.executables@,
            paths: self.paths@,
        }
    }
}

impl Host {
    /// A host of which nothing is known yet.
    pub fn new() -> (host: Host)
        ensures
            host@ == World::unknown(),
    {
        Host {
            packages: Table::new(),
            include_dirs: Table::new(),
            executables: Table::new(),
            paths: Table::new(),
        }
    }

    /// Records what the registry answered when asked for the package `name`.
    pub fn record_package(&mut self, name: String, found: Option<Package>)
        ensures
            final(self)@ == (World {
                packages: old(self)@.packages.insert(name@, found.deep_view()),
                ..old(self)@
            }),
    {
        self.packages.insert(name, found);
    }

    /// Records the registry's output for the include directory of `name`.
    pub fn record_include_dir(&mut self, name: String, output: Option<String>)
        ensures
            final(self)@ == (World {
                include_dirs: old(self)@.include_dirs.insert(name@, output.deep_view()),
                ..old(self)@
            }),
    {
        self.include_dirs.insert(name, output);
    }

    /// Records the output of the search for the executable `name`.
    pub fn record_executable(&mut self, name: String, output: Option<String>)
        ensures
            final(self)@ == (World {
                executables: old(self)@.executables.insert(name@, output.deep_view()),
                ..old(self)@
            }),
    {
        self.executables.insert(name, output);
    }

    /// Records whether `path` exists.
    pub fn record_path(&mut self, path: String, exists: bool)
        ensures
            final(self)@ == (World { paths: old(self)@.paths.insert(path@, exists), ..old(self)@ }),
    {
        self.paths.insert(path, exists);
    }

    /// The registry's answer for `name`, if it was recorded.
    pub fn package(&self, name: &str) -> (answer: Option<&Option<Package>>)
        ensures
            answer.deep_view() == self@.packages.get(name@),
    {
        self.packages.get(name)
    }

    /// The recorded include directory output for `name`.
    pub fn include_dir(&self, name: &str) -> (answer: Option<&Option<String>>)
        ensures
            answer.deep_view() == self@.include_dirs.get(name@),
    {
        self.include_dirs.get(name)
    }

    /// The recorded output of the search for the executable `name`.
    pub fn executable(&self, name: &str) -> (answer: Option<&Option<String>>)
        ensures
            answer.deep_view() == self@.executables.get(name@),
    {
        self.executables.get(name)
    }

    /// Whether `path` exists, if that was recorded.
    pub fn path(&self, path: &str) -> (answer: Option<bool>)
        ensures
            answer == self@.paths.get(path@),
    {
        match self.paths.get(path) {
            Some(exists) => Some(*exists),
            None => None,
        }
    }

    /// Whether the question has been answered.
    pub fn answers(&self, query: &Query) -> (known: bool)
        ensures
            known == self@.answers(query@),
    {
        match query {
            Query::Package(name) => self.packages.contains(name.as_str()),
            Query::IncludeDir(name) => self.include_dirs.contains(name.as_str()),
            Query::Executable(name) => self.executables.contains(name.as_str()),
            Query::Path(path) => self.paths.contains(path.as_str()),
        }
    }
}

} // verus!
