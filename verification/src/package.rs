//! The declarative record that describes one package.
use vstd::prelude::*;
use crate::text::{copy_texts, same_text, same_texts};

verus! {

/// A dependency on another package, optionally limited to one platform.
#[derive(Debug, PartialEq, Eq)]
pub struct Dependency {
    pub name: String,
    /// The platform identifier the dependency is limited to; `None` means
    /// it applies everywhere.
    pub os: Option<String>,
}

pub struct DependencyView {
    pub name: Seq<char>,
    pub os: Option<Seq<char>>,
}

impl DeepView for Dependency {
    type V = DependencyView;

    open spec fn deep_view(&self) -> DependencyView {
        DependencyView { name: self.name@, os: self.os.deep_view() }
    }
}

impl View for Dependency {
    type V = DependencyView;

    open spec fn view(&self) -> DependencyView {
        self.deep_view()
    }
}

/// A logical library together with the file names it may be installed as.
#[derive(Debug, PartialEq, Eq)]
pub struct LibGroup {
    pub name: String,
    pub candidates: Vec<String>,
}

pub struct LibGroupView {
    pub name: Seq<char>,
    pub candidates: Seq<Seq<char>>,
}

impl DeepView for LibGroup {
    type V = LibGroupView;

    open spec fn deep_view(&self) -> LibGroupView {
        LibGroupView { name: self.name@, candidates: self.candidates.deep_view() }
    }
}

impl View for LibGroup {
    type V = LibGroupView;

    open spec fn view(&self) -> LibGroupView {
        self.deep_view()
    }
}

/// The libraries a package installs, in one of the two shapes a record may
/// use.
#[derive(Debug, PartialEq, Eq)]
pub enum Libs {
    /// Each group is satisfied by the first of its candidates that is
    /// installed.
    Groups(Vec<LibGroup>),
    /// Every file named must be installed.
    Flat(Vec<String>),
}

pub enum LibsView {
    Groups(Seq<LibGroupView>),
    Flat(Seq<Seq<char>>),
}

impl DeepView for Libs {
    type V = LibsView;

    open spec fn deep_view(&self) -> LibsView {
        match self {
            Libs::Groups(groups) => LibsView::Groups(groups.deep_view()),
            Libs::Flat(files) => LibsView::Flat(files.deep_view()),
        }
    }
}

impl View for Libs {
    type V = LibsView;

    open spec fn view(&self) -> LibsView {
        self.deep_view()
    }
}

/// The record of one package: its headers, how to find it, and what it
/// depends on.
#[derive(Debug, PartialEq, Eq)]
pub struct PackageSpec {
    /// Header file names, relative to the package's include directory.
    pub headers: Vec<String>,
    /// Further names to try in the package registry, after the package's own.
    pub pc_alias: Vec<String>,
    /// Executables whose location reveals the installation prefix.
    pub exe: Vec<String>,
    /// Candidate subdirectories of the prefix's include directory.
    pub includedir: Vec<String>,
    pub libs: Option<Libs>,
    pub libs_private: Option<Libs>,
    /// Packages probed in full when this one was found by its executable.
    pub dependencies: Vec<Dependency>,
    /// Packages of which only the include directory is wanted.
    pub header_dependencies: Vec<Dependency>,
}

pub struct PackageSpecView {
    pub headers: Seq<Seq<char>>,
    pub pc_alias: Seq<Seq<char>>,
    pub exe: Seq<Seq<char>>,
    pub includedir: Seq<Seq<char>>,
    pub libs: Option<LibsView>,
    pub libs_private: Option<LibsView>,
    pub dependencies: Seq<DependencyView>,
    pub header_dependencies: Seq<DependencyView>,
}

impl DeepView for PackageSpec {
    type V = PackageSpecView;

    open spec fn deep_view(&self) -> PackageSpecView {
        PackageSpecView {
            headers: self.headers.deep_view(),
            pc_alias: self.pc_alias.deep_view(),
            exe: self.exe.deep_view(),
            includedir: self.includedir.deep_view(),
            libs: self.libs.deep_view(),
            libs_private: self.libs_private.deep_view(),
            dependencies: self.dependencies.deep_view(),
            header_dependencies: self.header_dependencies.deep_view(),
        }
    }
}

impl View for PackageSpec {
    type V = PackageSpecView;

    open spec fn view(&self) -> PackageSpecView {
        self.deep_view()
    }
}

fn same_optional_text(a: &Option<String>, b: &Option<String>) -> (same: bool)
    ensures
        same == (a.deep_view() == b.deep_view()),
{
    match (a, b) {
        (None, None) => true,
        (Some(x), Some(y)) => same_text(x.as_str(), y.as_str()),
        _ => false,
    }
}

fn same_dependencies(a: &Vec<Dependency>, b: &Vec<Dependency>) -> (same: bool)
    ensures
        same == (a.deep_view() == b.deep_view()),
{
    if a.len() != b.len() {
        assert(a.deep_view().len() != b.deep_view().len());
        return false;
    }
    let mut i: usize = 0;
    while i < a.len()
        invariant
            a.len() == b.len(),
            i <= a.len(),
            forall|j: int| 0 <= j < i ==> a[j]@ == b[j]@,
        decreases a.len() - i,
    {
        let same_name = same_text(a[i].name.as_str(), b[i].name.as_str());
        let same_os = same_optional_text(&a[i].os, &b[i].os);
        if !(same_name && same_os) {
            assert(a.deep_view()[i as int] != b.deep_view()[i as int]);
            return false;
        }
        i += 1;
    }
    assert(a.deep_view() =~= b.deep_view());
    true
}

fn same_groups(a: &Vec<LibGroup>, b: &Vec<LibGroup>) -> (same: bool)
    ensures
        same == (a.deep_view() == b.deep_view()),
{
    if a.len() != b.len() {
        assert(a.deep_view().len() != b.deep_view().len());
        return false;
    }
    let mut i: usize = 0;
    while i < a.len()
        invariant
            a.len() == b.len(),
            i <= a.len(),
            forall|j: int| 0 <= j < i ==> a[j]@ == b[j]@,
        decreases a.len() - i,
    {
        let same_name = same_text(a[i].name.as_str(), b[i].name.as_str());
        let same_files = same_texts(&a[i].candidates, &b[i].candidates);
        if !(same_name && same_files) {
            assert(a.deep_view()[i as int] != b.deep_view()[i as int]);
            return false;
        }
        i += 1;
    }
    assert(a.deep_view() =~= b.deep_view());
    true
}

fn same_libs(a: &Option<Libs>, b: &Option<Libs>) -> (same: bool)
    ensures
        same == (a.deep_view() == b.deep_view()),
{
    match (a, b) {
        (None, None) => true,
        (Some(Libs::Groups(x)), Some(Libs::Groups(y))) => same_groups(x, y),
        (Some(Libs::Flat(x)), Some(Libs::Flat(y))) => same_texts(x, y),
        _ => false,
    }
}

fn copy_dependencies(list: &Vec<Dependency>) -> (copy: Vec<Dependency>)
    ensures
        copy.deep_view() == list.deep_view(),
{
    let mut copy: Vec<Dependency> = Vec::new();
    let mut i: usize = 0;
    while i < list.len()
        invariant
            i <= list.len(),
            copy.len() == i,
            forall|j: int| 0 <= j < i ==> copy[j]@ == list[j]@,
        decreases list.len() - i,
    {
        let os = match &list[i].os {
            Some(name) => Some(name.clone()),
            None => None,
        };
        copy.push(Dependency { name: list[i].name.clone(), os });
        i += 1;
    }
    assert(copy.deep_view() =~= list.deep_view());
    copy
}

fn copy_groups(list: &Vec<LibGroup>) -> (copy: Vec<LibGroup>)
    ensures
        copy.deep_view() == list.deep_view(),
{
    let mut copy: Vec<LibGroup> = Vec::new();
    let mut i: usize = 0;
    while i < list.len()
        invariant
            i <= list.len(),
            copy.len() == i,
            forall|j: int| 0 <= j < i ==> copy[j]@ == list[j]@,
        decreases list.len() - i,
    {
        copy.push(
            LibGroup { name: list[i].name.clone(), candidates: copy_texts(&list[i].candidates) },
        );
        i += 1;
    }
    assert(copy.deep_view() =~= list.deep_view());
    copy
}

fn copy_libs(libs: &Option<Libs>) -> (copy: Option<Libs>)
    ensures
        copy.deep_view() == libs.deep_view(),
{
    match libs {
        Some(Libs::Groups(groups)) => Some(Libs::Groups(copy_groups(groups))),
        Some(Libs::Flat(files)) => Some(Libs::Flat(copy_texts(files))),
        None => None,
    }
}

impl PackageSpec {
    /// A record that is structurally identical to this one.
    pub fn duplicate(&self) -> (copy: PackageSpec)
        ensures
            copy@ == self@,
    {
        PackageSpec {
            headers: copy_texts(&self.headers),
            pc_alias: copy_texts(&self.pc_alias),
            exe: copy_texts(&self.exe),
            includedir: copy_texts(&self.includedir),
            libs: copy_libs(&self.libs),
            libs_private: copy_libs(&self.libs_private),
            dependencies: copy_dependencies(&self.dependencies),
            header_dependencies: copy_dependencies(&self.header_dependencies),
        }
    }

    /// Whether two records are structurally identical.
    pub fn same(&self, other: &PackageSpec) -> (same: bool)
        ensures
            same == (self@ == other@),
    {
        same_texts(&self.headers, &other.headers)
            && same_texts(&self.pc_alias, &other.pc_alias)
            && same_texts(&self.exe, &other.exe)
            && same_texts(&self.includedir, &other.includedir)
            && same_libs(&self.libs, &other.libs)
            && same_libs(&self.libs_private, &other.libs_private)
            && same_dependencies(&self.dependencies, &other.dependencies)
            && same_dependencies(&self.header_dependencies, &other.header_dependencies)
    }
}

} // verus!
