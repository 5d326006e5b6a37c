//! Finding one package: first through the package registry, then through
//! the location of one of its executables.
use vstd::prelude::*;
use vstd::string::StringExecFns;
use crate::failure::{agrees, Failure, Halt, HaltView};
use crate::host::{Host, PackageView, Query, QueryView, World};
use crate::lib_info::{lemma_extend_empty, Directive, DirectiveView, LibInfo, LibInfoView};
use crate::linker::{emit_libs, lib_directives};
use crate::package::{LibsView, PackageSpec, PackageSpecView};
use crate::path::{file_name, file_name_of, join, joined, parent, parent_of, trim_end, trimmed_end};
use crate::store::{Catalog, SpecStore};
use crate::text::{append_copies, concat, same_text};

verus! {

/// How a package was found.
#[derive(Debug, PartialEq, Eq)]
pub enum ProbedEx {
    /// Through its executable; the text is the include directory derived
    /// from the executable's location.
    IncDir(String),
    /// Through the registry; the text is the name the registry knows it by.
    PcName(String),
}

pub enum ProbedView {
    IncDir(Seq<char>),
    PcName(Seq<char>),
}

impl DeepView for ProbedEx {
    type V = ProbedView;

    open spec fn deep_view(&self) -> ProbedView {
        match self {
            ProbedEx::IncDir(dir) => ProbedView::IncDir(dir@),
            ProbedEx::PcName(name) => ProbedView::PcName(name@),
        }
    }
}

impl View for ProbedEx {
    type V = ProbedView;

    open spec fn view(&self) -> ProbedView {
        self.deep_view()
    }
}

impl ProbedEx {
    /// Whether the registry knew the package.
    pub fn pkgconf_ok(&self) -> (ok: bool)
        ensures
            ok == (self@ is PcName),
    {
        match self {
            ProbedEx::IncDir(_) => false,
            ProbedEx::PcName(_) => true,
        }
    }
}

/// The names under which a package is looked for in the registry: its own,
/// then the aliases its record gives.
pub open spec fn candidates(catalog: Catalog, name: Seq<char>) -> Seq<Seq<char>> {
    seq![name] + match catalog.get(name) {
        Some(spec) => spec.pc_alias,
        None => Seq::empty(),
    }
}

/// The first of `names`, from position `from` on, that the registry knows,
/// with what the registry reports for it; `None` where it knows none.
pub open spec fn first_registered(
    world: World,
    names: Seq<Seq<char>>,
    from: int,
) -> Result<Option<(Seq<char>, PackageView)>, HaltView>
    decreases names.len() - from,
{
    if from < 0 || from >= names.len() {
        Ok(None)
    } else {
        match world.packages.get(names[from]) {
            None => Err(HaltView::Needs(QueryView::Package(names[from]))),
            Some(Some(package)) => Ok(Some((names[from], package))),
            Some(None) => first_registered(world, names, from + 1),
        }
    }
}

/// What a package found in the registry contributes: the paths the registry
/// reports, unless only its include directory is wanted.
pub open spec fn registry_share(package: PackageView, header_only: bool) -> LibInfoView {
    if header_only {
        LibInfoView::empty()
    } else {
        LibInfoView {
            link_paths: package.link_paths,
            include_paths: package.include_paths,
            ..LibInfoView::empty()
        }
    }
}

/// The registry's part of probing a package: the name it was found under and
/// what it contributes, or `None` where the registry knows none of its
/// names.
pub open spec fn registry_probe(
    catalog: Catalog,
    world: World,
    name: Seq<char>,
    header_only: bool,
) -> Result<Option<(Seq<char>, LibInfoView)>, HaltView> {
    match first_registered(world, candidates(catalog, name), 0) {
        Err(halt) => Err(halt),
        Ok(None) => Ok(None),
        Ok(Some((pc_name, package))) => Ok(Some((pc_name, registry_share(package, header_only)))),
    }
}

/// The output of the search for the first of `names`, from position `from`
/// on, that was found on the search path; `None` where none was. A search
/// that could not be run, or that printed nothing, found nothing.
pub open spec fn first_located(
    world: World,
    names: Seq<Seq<char>>,
    from: int,
) -> Result<Option<Seq<char>>, HaltView>
    decreases names.len() - from,
{
    if from < 0 || from >= names.len() {
        Ok(None)
    } else {
        match world.executables.get(names[from]) {
            None => Err(HaltView::Needs(QueryView::Executable(names[from]))),
            Some(Some(output)) => if output.len() > 0 {
                Ok(Some(output))
            } else {
                first_located(world, names, from + 1)
            },
            Some(None) => first_located(world, names, from + 1),
        }
    }
}

/// The installation prefix of an executable: the directory above the one
/// that holds it, provided that one is named `bin`.
pub open spec fn prefix_of(executable: Seq<char>) -> Option<Seq<char>> {
    match parent_of(executable) {
        Some(bin) => if file_name_of(bin) == Some("bin"@) {
            parent_of(bin)
        } else {
            None
        },
        None => None,
    }
}

/// The include directory guessed below `base`: the first of the
/// subdirectories `dirs`, from position `from` on, that exists, or `base`
/// itself where none does.
pub open spec fn include_guess(
    world: World,
    base: Seq<char>,
    dirs: Seq<Seq<char>>,
    from: int,
) -> Result<Seq<char>, HaltView>
    decreases dirs.len() - from,
{
    if from < 0 || from >= dirs.len() {
        Ok(base)
    } else {
        match joined(base, dirs[from]) {
            None => Err(HaltView::Failed(Failure::NotText, dirs[from])),
            Some(dir) => match world.paths.get(dir) {
                None => Err(HaltView::Needs(QueryView::Path(dir))),
                Some(true) => Ok(dir),
                Some(false) => include_guess(world, base, dirs, from + 1),
            },
        }
    }
}

/// The directives for libraries that a record may leave undeclared.
pub open spec fn optional_directives(
    world: World,
    lib_dir: Seq<char>,
    libs: Option<LibsView>,
) -> Result<Seq<DirectiveView>, HaltView> {
    match libs {
        Some(libs) => lib_directives(world, lib_dir, libs),
        None => Ok(Seq::empty()),
    }
}

/// What a package found below `prefix` contributes when it is probed in
/// full: the prefix's `lib` directory as a link path, the directive to
/// search it, and a directive for each library the record declares.
pub open spec fn search_share(
    world: World,
    prefix: Seq<char>,
    name: Seq<char>,
    spec: PackageSpecView,
) -> Result<LibInfoView, HaltView> {
    match joined(prefix, "lib"@) {
        None => Err(HaltView::Failed(Failure::NotText, prefix)),
        Some(lib_dir) => match spec.libs {
            None => Err(HaltView::Failed(Failure::MissingLibs, name)),
            Some(libs) => match lib_directives(world, lib_dir, libs) {
                Err(halt) => Err(halt),
                Ok(public) => match optional_directives(world, lib_dir, spec.libs_private) {
                    Err(halt) => Err(halt),
                    Ok(private) => Ok(
                        LibInfoView {
                            link_paths: seq![lib_dir],
                            directives: seq![DirectiveView::LinkSearch(prefix + "/lib"@)] + public
                                + private,
                            ..LibInfoView::empty()
                        },
                    ),
                },
            },
        }
    }
}

/// The search's part of probing a package: the include directory guessed
/// from the location of its first executable that was found, and what the
/// package contributes. A package without a record, or of which no
/// executable was found, cannot be found this way.
pub open spec fn search_probe(
    catalog: Catalog,
    world: World,
    name: Seq<char>,
    header_only: bool,
) -> Result<(Seq<char>, LibInfoView), HaltView> {
    match catalog.get(name) {
        None => Err(HaltView::Failed(Failure::NotFound, name)),
        Some(spec) => match first_located(world, spec.exe, 0) {
            Err(halt) => Err(halt),
            Ok(None) => Err(HaltView::Failed(Failure::NotFound, name)),
            Ok(Some(output)) => match prefix_of(trimmed_end(output)) {
                None => Err(HaltView::Failed(Failure::OutsideBin, trimmed_end(output))),
                Some(prefix) => match joined(prefix, "include"@) {
                    None => Err(HaltView::Failed(Failure::NotText, prefix)),
                    Some(base) => match include_guess(world, base, spec.includedir, 0) {
                        Err(halt) => Err(halt),
                        Ok(dir) => if header_only {
                            Ok((dir, LibInfoView::empty()))
                        } else {
                            match search_share(world, prefix, name, spec) {
                                Err(halt) => Err(halt),
                                Ok(share) => Ok((dir, share)),
                            }
                        },
                    },
                },
            },
        },
    }
}

/// How a package is found and what finding it contributes. The registry is
/// tried first; the search for an executable is used only where the
/// registry knows none of the package's names.
pub open spec fn probe_of(
    catalog: Catalog,
    world: World,
    name: Seq<char>,
    header_only: bool,
) -> Result<(ProbedView, LibInfoView), HaltView> {
    match registry_probe(catalog, world, name, header_only) {
        Err(halt) => Err(halt),
        Ok(Some((pc_name, share))) => Ok((ProbedView::PcName(pc_name), share)),
        Ok(None) => match search_probe(catalog, world, name, header_only) {
            Err(halt) => Err(halt),
            Ok((dir, share)) => Ok((ProbedView::IncDir(dir), share)),
        },
    }
}

/// The include directory of a package that was found. For one found in the
/// registry it is what the registry prints, without trailing whitespace; for
/// one found by its executable it is the directory guessed then, which must
/// exist.
pub open spec fn include_dir_of(world: World, probed: ProbedView) -> Result<Seq<char>, HaltView> {
    match probed {
        ProbedView::PcName(pc_name) => match world.include_dirs.get(pc_name) {
            None => Err(HaltView::Needs(QueryView::IncludeDir(pc_name))),
            Some(None) => Err(HaltView::Failed(Failure::Unreadable, pc_name)),
            Some(Some(output)) => Ok(trimmed_end(output)),
        },
        ProbedView::IncDir(dir) => match world.paths.get(dir) {
            None => Err(HaltView::Needs(QueryView::Path(dir))),
            Some(false) => Err(HaltView::Failed(Failure::MissingDirectory, dir)),
            Some(true) => Ok(dir),
        },
    }
}

/// Looks the package up in the registry, under its own name and then under
/// its aliases, and adds what the registry reports to `info`. Gives the name
/// that was found, or `None` where the registry knows none of them. On a
/// halt `info` stays as it was.
pub fn probe_via_pkgconf(
    store: &SpecStore,
    host: &Host,
    pkg_name: &str,
    scan_incdir: bool,
    info: &mut LibInfo,
) -> (probed: Result<Option<String>, Halt>)
    ensures
        match registry_probe(store@, host@, pkg_name@, scan_incdir) {
            Err(halt) => probed matches Err(e) && e@ == halt && final(info)@ == old(info)@,
            Ok(None) => probed matches Ok(None) && final(info)@ == old(info)@,
            Ok(Some((pc_name, share))) => {
                &&& probed matches Ok(Some(found))
                &&& found@ == pc_name
                &&& final(info)@ == old(info)@.extend(share)
            },
        },
{
    let mut names: Vec<String> = Vec::new();
    names.push(String::from_str(pkg_name));
    match store.lookup(pkg_name) {
        Some(spec) => {
            append_copies(&mut names, &spec.pc_alias);
        },
        None => {},
    }
    assert(names.deep_view() =~= candidates(store@, pkg_name@));
    let mut i: usize = 0;
    while i < names.len()
        invariant
            i <= names.len(),
            info@ == old(info)@,
            names.deep_view() == candidates(store@, pkg_name@),
            first_registered(host@, names.deep_view(), 0) == first_registered(
                host@,
                names.deep_view(),
                i as int,
            ),
        decreases names.len() - i,
    {
        match host.package(names[i].as_str()) {
            None => {
                return Err(Halt::Needs(Query::Package(names[i].clone())));
            },
            Some(Some(package)) => {
                let ghost before = info@;
                if !scan_incdir {
                    append_copies(&mut info.link_paths, &package.link_paths);
                    append_copies(&mut info.include_paths, &package.include_paths);
                }
                proof {
                    let share = registry_share(package@, scan_incdir);
                    assert(info@.link_paths =~= before.link_paths + share.link_paths);
                    assert(info@.include_paths =~= before.include_paths + share.include_paths);
                    assert(info@.headers =~= before.headers + share.headers);
                    assert(info@.directives =~= before.directives + share.directives);
                }
                return Ok(Some(names[i].clone()));
            },
            Some(None) => {},
        }
        i += 1;
    }
    Ok(None)
}

fn locate(host: &Host, names: &Vec<String>) -> (output: Result<Option<String>, Halt>)
    ensures
        agrees(output, first_located(host@, names.deep_view(), 0)),
{
    let mut i: usize = 0;
    while i < names.len()
        invariant
            i <= names.len(),
            first_located(host@, names.deep_view(), 0) == first_located(
                host@,
                names.deep_view(),
                i as int,
            ),
        decreases names.len() - i,
    {
        match host.executable(names[i].as_str()) {
            None => {
                return Err(Halt::Needs(Query::Executable(names[i].clone())));
            },
            Some(Some(output)) => {
                if !output.as_str().is_empty() {
                    return Ok(Some(output.clone()));
                }
            },
            Some(None) => {},
        }
        i += 1;
    }
    Ok(None)
}

fn prefix_from(executable: &str) -> (prefix: Option<String>)
    ensures
        prefix.deep_view() == prefix_of(executable@),
{
    match parent(executable) {
        Some(bin) => {
            let in_bin = match file_name(bin.as_str()) {
                Some(name) => same_text(name.as_str(), "bin"),
                None => false,
            };
            if in_bin {
                parent(bin.as_str())
            } else {
                None
            }
        },
        None => None,
    }
}

fn guess_include(host: &Host, base: String, dirs: &Vec<String>) -> (guess: Result<String, Halt>)
    ensures
        agrees(guess, include_guess(host@, base@, dirs.deep_view(), 0)),
{
    let mut i: usize = 0;
    while i < dirs.len()
        invariant
            i <= dirs.len(),
            include_guess(host@, base@, dirs.deep_view(), 0) == include_guess(
                host@,
                base@,
                dirs.deep_view(),
                i as int,
            ),
        decreases dirs.len() - i,
    {
        match join(base.as_str(), dirs[i].as_str()) {
            None => {
                return Err(Halt::Failed(Failure::NotText, dirs[i].clone()));
            },
            Some(dir) => match host.path(dir.as_str()) {
                None => {
                    return Err(Halt::Needs(Query::Path(dir)));
                },
                Some(true) => {
                    return Ok(dir);
                },
                Some(false) => {},
            },
        }
        i += 1;
    }
    Ok(base)
}

fn share_of_search(
    host: &Host,
    prefix: &str,
    pkg_name: &str,
    spec: &PackageSpec,
    info: &mut LibInfo,
) -> (done: Result<(), Halt>)
    ensures
        match search_share(host@, prefix@, pkg_name@, spec@) {
            Err(halt) => done matches Err(e) && e@ == halt,
            Ok(share) => done is Ok && final(info)@ == old(info)@.extend(share),
        },
{
    let ghost before = info@;
    let lib_dir = match join(prefix, "lib") {
        Some(lib_dir) => lib_dir,
        None => {
            return Err(Halt::Failed(Failure::NotText, String::from_str(prefix)));
        },
    };
    let libs = match &spec.libs {
        Some(libs) => libs,
        None => {
            return Err(Halt::Failed(Failure::MissingLibs, String::from_str(pkg_name)));
        },
    };
    let search = Directive::LinkSearch(concat(prefix, "/lib"));
    info.link_paths.push(lib_dir.clone());
    info.directives.push(search);
    assert(info@.link_paths =~= before.link_paths + seq![lib_dir@]);
    assert(info@.directives =~= before.directives + seq![search@]);
    match emit_libs(host, lib_dir.as_str(), libs, &mut info.directives) {
        Err(halt) => {
            return Err(halt);
        },
        Ok(()) => {},
    }
    match &spec.libs_private {
        Some(private) => match emit_libs(host, lib_dir.as_str(), private, &mut info.directives) {
            Err(halt) => {
                return Err(halt);
            },
            Ok(()) => {},
        },
        None => {},
    }
    proof {
        let share = search_share(host@, prefix@, pkg_name@, spec@)->Ok_0;
        let public = lib_directives(host@, lib_dir@, libs@)->Ok_0;
        let private = optional_directives(host@, lib_dir@, spec@.libs_private)->Ok_0;
        assert(info@.directives =~= before.directives + (seq![search@] + public + private));
        assert(info@.link_paths =~= before.link_paths + share.link_paths);
        assert(info@.include_paths =~= before.include_paths + share.include_paths);
        assert(info@.headers =~= before.headers + share.headers);
    }
    Ok(())
}

/// Looks for the package through its executables, in the order in which its
/// record names them, and adds what it contributes to `info`. Gives the
/// include directory guessed from the location of the first executable that
/// was found. On a halt `info` stays as it was.
pub fn probe_via_search(
    store: &SpecStore,
    host: &Host,
    pkg_name: &str,
    scan_incdir: bool,
    info: &mut LibInfo,
) -> (probed: Result<String, Halt>)
    ensures
        match search_probe(store@, host@, pkg_name@, scan_incdir) {
            Err(halt) => probed matches Err(e) && e@ == halt && final(info)@ == old(info)@,
            Ok((dir, share)) => {
                &&& probed matches Ok(found)
                &&& found@ == dir
                &&& final(info)@ == old(info)@.extend(share)
            },
        },
{
    let spec = match store.lookup(pkg_name) {
        Some(spec) => spec,
        None => {
            return Err(Halt::Failed(Failure::NotFound, String::from_str(pkg_name)));
        },
    };
    let output = match locate(host, &spec.exe) {
        Err(halt) => {
            return Err(halt);
        },
        Ok(None) => {
            return Err(Halt::Failed(Failure::NotFound, String::from_str(pkg_name)));
        },
        Ok(Some(output)) => output,
    };
    let executable = trim_end(output.as_str());
    let prefix = match prefix_from(executable.as_str()) {
        Some(prefix) => prefix,
        None => {
            return Err(Halt::Failed(Failure::OutsideBin, executable));
        },
    };
    let base = match join(prefix.as_str(), "include") {
        Some(base) => base,
        None => {
            return Err(Halt::Failed(Failure::NotText, prefix));
        },
    };
    let dir = match guess_include(host, base, &spec.includedir) {
        Err(halt) => {
            return Err(halt);
        },
        Ok(dir) => dir,
    };
    if scan_incdir {
        proof {
            lemma_extend_empty(info@);
        }
        Ok(dir)
    } else {
        let mut share = LibInfo::new();
        match share_of_search(host, prefix.as_str(), pkg_name, spec, &mut share) {
            Err(halt) => Err(halt),
            Ok(()) => {
                proof {
                    lemma_extend_empty(share@);
                }
                info.append(share);
                Ok(dir)
            },
        }
    }
}

/// Finds the package, through the registry or else through its
/// executables, and adds what finding it contributes to `info`. On a halt
/// `info` stays as it was.
pub fn probe_package(
    store: &SpecStore,
    host: &Host,
    pkg_name: &str,
    scan_incdir: bool,
    info: &mut LibInfo,
) -> (probed: Result<ProbedEx, Halt>)
    ensures
        match probe_of(store@, host@, pkg_name@, scan_incdir) {
            Err(halt) => probed matches Err(e) && e@ == halt && final(info)@ == old(info)@,
            Ok((how, share)) => {
                &&& probed matches Ok(found)
                &&& found@ == how
                &&& final(info)@ == old(info)@.extend(share)
            },
        },
{
    match probe_via_pkgconf(store, host, pkg_name, scan_incdir, info) {
        Err(halt) => Err(halt),
        Ok(Some(pc_name)) => Ok(ProbedEx::PcName(pc_name)),
        Ok(None) => match probe_via_search(store, host, pkg_name, scan_incdir, info) {
            Err(halt) => Err(halt),
            Ok(dir) => Ok(ProbedEx::IncDir(dir)),
        },
    }
}

/// The include directory of a package that was found.
pub fn get_includedir(host: &Host, probed: &ProbedEx) -> (dir: Result<String, Halt>)
    ensures
        agrees(dir, include_dir_of(host@, probed@)),
{
    match probed {
        ProbedEx::PcName(pc_name) => match host.include_dir(pc_name.as_str()) {
            None => Err(Halt::Needs(Query::IncludeDir(pc_name.clone()))),
            Some(None) => Err(Halt::Failed(Failure::Unreadable, pc_name.clone())),
            Some(Some(output)) => Ok(trim_end(output.as_str())),
        },
        ProbedEx::IncDir(dir) => match host.path(dir.as_str()) {
            None => Err(Halt::Needs(Query::Path(dir.clone()))),
            Some(false) => Err(Halt::Failed(Failure::MissingDirectory, dir.clone())),
            Some(true) => Ok(dir.clone()),
        },
    }
}

} // verus!
