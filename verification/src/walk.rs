//! Walking the dependencies of a package.
use vstd::prelude::*;
use crate::failure::{Failure, Halt, HaltView};
use crate::host::{Host, World};
use crate::laws::walk_asks_anew;
use crate::lib_info::{
    lemma_extend_assoc, lemma_extend_empty, lemma_extend_grows, LibInfo, LibInfoView,
};
use crate::path::{join, joined};
use crate::platform::{active, active_dependencies, Platform, PlatformView};
use crate::probe::{get_includedir, include_dir_of, probe_of, probe_package};
use crate::store::{Catalog, SpecStore};

verus! {

/// The paths of the headers from position `from` on, each joined onto the
/// include directory.
pub open spec fn header_paths(
    dir: Seq<char>,
    headers: Seq<Seq<char>>,
    from: int,
) -> Result<Seq<Seq<char>>, HaltView>
    decreases headers.len() - from,
{
    if from < 0 || from >= headers.len() {
        Ok(Seq::empty())
    } else {
        match joined(dir, headers[from]) {
            None => Err(HaltView::Failed(Failure::NotText, headers[from])),
            Some(path) => match header_paths(dir, headers, from + 1) {
                Err(halt) => Err(halt),
                Ok(rest) => Ok(seq![path] + rest),
            },
        }
    }
}

/// What probing a package for its include directory alone contributes: that
/// directory, and nothing else.
pub open spec fn glance(
    catalog: Catalog,
    world: World,
    name: Seq<char>,
) -> Result<LibInfoView, HaltView> {
    match probe_of(catalog, world, name, true) {
        Err(halt) => Err(halt),
        Ok((probed, share)) => match include_dir_of(world, probed) {
            Err(halt) => Err(halt),
            Ok(dir) => Ok(
                share.extend(LibInfoView { include_paths: seq![dir], ..LibInfoView::empty() }),
            ),
        },
    }
}

/// What probing each of `names`, from position `from` on, for its include
/// directory contributes.
pub open spec fn glance_each(
    catalog: Catalog,
    world: World,
    names: Seq<Seq<char>>,
    from: int,
) -> Result<LibInfoView, HaltView>
    decreases names.len() - from,
{
    if from < 0 || from >= names.len() {
        Ok(LibInfoView::empty())
    } else {
        match glance(catalog, world, names[from]) {
            Err(halt) => Err(halt),
            Ok(first) => match glance_each(catalog, world, names, from + 1) {
                Err(halt) => Err(halt),
                Ok(rest) => Ok(first.extend(rest)),
            },
        }
    }
}

/// What probing a package in full contributes, with full dependencies
/// followed at most `depth` levels down.
///
/// The package is found first. Without a record it contributes only what
/// finding it does. With one it contributes its headers, joined onto its
/// include directory; then, if the registry did not know it, what its full
/// dependencies contribute, each probed in full; then the include
/// directories of its header-only dependencies. A package the registry
/// knows brings its own link requirements, so its full dependencies are
/// left alone.
pub open spec fn survey(
    catalog: Catalog,
    world: World,
    platform: PlatformView,
    name: Seq<char>,
    depth: nat,
) -> Result<LibInfoView, HaltView>
    decreases depth, 1nat, 0nat,
{
    match probe_of(catalog, world, name, false) {
        Err(halt) => Err(halt),
        Ok((probed, share)) => match catalog.get(name) {
            None => Ok(share),
            Some(spec) => match include_dir_of(world, probed) {
                Err(halt) => Err(halt),
                Ok(dir) => match header_paths(dir, spec.headers, 0) {
                    Err(halt) => Err(halt),
                    Ok(headers) => {
                        let full = if probed is PcName {
                            Ok(LibInfoView::empty())
                        } else {
                            survey_each(
                                catalog,
                                world,
                                platform,
                                active(spec.dependencies, platform),
                                0,
                                depth,
                            )
                        };
                        match full {
                            Err(halt) => Err(halt),
                            Ok(full) => match glance_each(
                                catalog,
                                world,
                                active(spec.header_dependencies, platform),
                                0,
                            ) {
                                Err(halt) => Err(halt),
                                Ok(light) => Ok(
                                    share.extend(
                                        LibInfoView { headers: headers, ..LibInfoView::empty() },
                                    ).extend(full).extend(light),
                                ),
                            },
                        }
                    },
                },
            },
        },
    }
}

/// What probing each of `names` in full contributes, from position `from`
/// on. Where `depth` is used up the walk fails.
pub open spec fn survey_each(
    catalog: Catalog,
    world: World,
    platform: PlatformView,
    names: Seq<Seq<char>>,
    from: int,
    depth: nat,
) -> Result<LibInfoView, HaltView>
    decreases depth, 0nat, names.len() - from,
{
    if from < 0 || from >= names.len() {
        Ok(LibInfoView::empty())
    } else if depth == 0 {
        Err(HaltView::Failed(Failure::TooDeep, names[from]))
    } else {
        match survey(catalog, world, platform, names[from], (depth - 1) as nat) {
            Err(halt) => Err(halt),
            Ok(first) => match survey_each(catalog, world, platform, names, from + 1, depth) {
                Err(halt) => Err(halt),
                Ok(rest) => Ok(first.extend(rest)),
            },
        }
    }
}

/// What probing a package contributes: its include directory alone where
/// `header_only` is set, else everything.
pub open spec fn walk(
    catalog: Catalog,
    world: World,
    platform: PlatformView,
    name: Seq<char>,
    header_only: bool,
    depth: nat,
) -> Result<LibInfoView, HaltView> {
    if header_only {
        glance(catalog, world, name)
    } else {
        survey(catalog, world, platform, name, depth)
    }
}

fn add_headers(dir: &str, headers: &Vec<String>, info: &mut LibInfo) -> (done: Result<(), Halt>)
    ensures
        match header_paths(dir@, headers.deep_view(), 0) {
            Err(halt) => done matches Err(e) && e@ == halt,
            Ok(paths) => done is Ok && final(info)@ == old(info)@.extend(
                LibInfoView { headers: paths, ..LibInfoView::empty() },
            ),
        },
{
    let ghost before = info@;
    let ghost all = headers.deep_view();
    let ghost added = Seq::<Seq<char>>::empty();
    let mut i: usize = 0;
    while i < headers.len()
        invariant
            i <= headers.len(),
            all == headers.deep_view(),
            info@ == (LibInfoView { headers: before.headers + added, ..before }),
            match header_paths(dir@, all, i as int) {
                Ok(rest) => header_paths(dir@, all, 0) == Ok::<Seq<Seq<char>>, HaltView>(
                    added + rest,
                ),
                Err(halt) => header_paths(dir@, all, 0) == Err::<Seq<Seq<char>>, HaltView>(halt),
            },
        decreases headers.len() - i,
    {
        match join(dir, headers[i].as_str()) {
            None => {
                return Err(Halt::Failed(Failure::NotText, headers[i].clone()));
            },
            Some(path) => {
                let ghost listed = info@.headers;
                let ghost text = path@;
                info.headers.push(path);
                proof {
                    assert(info@.headers =~= listed.push(text));
                    let next = added.push(text);
                    match header_paths(dir@, all, i + 1) {
                        Ok(rest) => {
                            assert(added + (seq![text] + rest) =~= next + rest);
                        },
                        Err(_) => {},
                    }
                    assert(before.headers + next =~= listed.push(text));
                    added = next;
                }
            },
        }
        i += 1;
    }
    proof {
        assert(added + Seq::<Seq<char>>::empty() =~= added);
        let wanted = before.extend(LibInfoView { headers: added, ..LibInfoView::empty() });
        assert(wanted.link_paths =~= before.link_paths);
        assert(wanted.include_paths =~= before.include_paths);
        assert(wanted.directives =~= before.directives);
    }
    Ok(())
}

fn glance_at(
    store: &SpecStore,
    host: &Host,
    pkg_name: &str,
    info: &mut LibInfo,
) -> (done: Result<(), Halt>)
    ensures
        match glance(store@, host@, pkg_name@) {
            Err(halt) => done matches Err(e) && e@ == halt,
            Ok(found) => done is Ok && final(info)@ == old(info)@.extend(found),
        },
{
    let ghost before = info@;
    let probed = match probe_package(store, host, pkg_name, true, info) {
        Err(halt) => {
            return Err(halt);
        },
        Ok(probed) => probed,
    };
    let dir = match get_includedir(host, &probed) {
        Err(halt) => {
            return Err(halt);
        },
        Ok(dir) => dir,
    };
    let ghost share = probe_of(store@, host@, pkg_name@, true)->Ok_0.1;
    let ghost path = LibInfoView { include_paths: seq![dir@], ..LibInfoView::empty() };
    let ghost listed = info@;
    info.include_paths.push(dir);
    proof {
        let wanted = listed.extend(path);
        assert(info@.include_paths =~= wanted.include_paths);
        assert(info@.link_paths =~= wanted.link_paths);
        assert(info@.headers =~= wanted.headers);
        assert(info@.directives =~= wanted.directives);
        lemma_extend_assoc(before, share, path);
    }
    Ok(())
}

fn glance_at_each(
    store: &SpecStore,
    host: &Host,
    names: &Vec<String>,
    info: &mut LibInfo,
) -> (done: Result<(), Halt>)
    ensures
        match glance_each(store@, host@, names.deep_view(), 0) {
            Err(halt) => done matches Err(e) && e@ == halt,
            Ok(found) => done is Ok && final(info)@ == old(info)@.extend(found),
        },
{
    let ghost before = info@;
    let ghost all = names.deep_view();
    let ghost added = LibInfoView::empty();
    proof {
        lemma_extend_empty(before);
    }
    let mut i: usize = 0;
    while i < names.len()
        invariant
            i <= names.len(),
            all == names.deep_view(),
            info@ == before.extend(added),
            match glance_each(store@, host@, all, i as int) {
                Ok(rest) => glance_each(store@, host@, all, 0) == Ok::<LibInfoView, HaltView>(
                    added.extend(rest),
                ),
                Err(halt) => glance_each(store@, host@, all, 0) == Err::<LibInfoView, HaltView>(
                    halt,
                ),
            },
        decreases names.len() - i,
    {
        match glance_at(store, host, names[i].as_str(), info) {
            Err(halt) => {
                return Err(halt);
            },
            Ok(()) => {
                proof {
                    let first = glance(store@, host@, all[i as int])->Ok_0;
                    lemma_extend_assoc(before, added, first);
                    match glance_each(store@, host@, all, i + 1) {
                        Ok(rest) => {
                            lemma_extend_assoc(added, first, rest);
                        },
                        Err(_) => {},
                    }
                    added = added.extend(first);
                }
            },
        }
        i += 1;
    }
    proof {
        lemma_extend_empty(added);
    }
    Ok(())
}

fn probe_in_full(
    store: &SpecStore,
    host: &Host,
    platform: &Platform,
    pkg_name: &str,
    depth: usize,
    info: &mut LibInfo,
) -> (done: Result<(), Halt>)
    ensures
        match survey(store@, host@, platform@, pkg_name@, depth as nat) {
            Err(halt) => done matches Err(e) && e@ == halt,
            Ok(found) => done is Ok && final(info)@ == old(info)@.extend(found),
        },
    decreases depth, 1nat, 0nat,
{
    let ghost before = info@;
    let probed = match probe_package(store, host, pkg_name, false, info) {
        Err(halt) => {
            return Err(halt);
        },
        Ok(probed) => probed,
    };
    let ghost share = probe_of(store@, host@, pkg_name@, false)->Ok_0.1;
    let spec = match store.lookup(pkg_name) {
        None => {
            return Ok(());
        },
        Some(spec) => spec,
    };
    let dir = match get_includedir(host, &probed) {
        Err(halt) => {
            return Err(halt);
        },
        Ok(dir) => dir,
    };
    match add_headers(dir.as_str(), &spec.headers, info) {
        Err(halt) => {
            return Err(halt);
        },
        Ok(()) => {},
    }
    let ghost headers = LibInfoView {
        headers: header_paths(dir@, spec@.headers, 0)->Ok_0,
        ..LibInfoView::empty()
    };
    let ghost mut full = LibInfoView::empty();
    if !probed.pkgconf_ok() {
        let names = active_dependencies(&spec.dependencies, platform);
        match probe_each(store, host, platform, &names, 0, depth, info) {
            Err(halt) => {
                return Err(halt);
            },
            Ok(()) => {},
        }
        proof {
            full = survey_each(store@, host@, platform@, names.deep_view(), 0, depth as nat)->Ok_0;
        }
    } else {
        proof {
            lemma_extend_empty(info@);
        }
    }
    let names = active_dependencies(&spec.header_dependencies, platform);
    match glance_at_each(store, host, &names, info) {
        Err(halt) => {
            return Err(halt);
        },
        Ok(()) => {},
    }
    proof {
        let light = glance_each(store@, host@, names.deep_view(), 0)->Ok_0;
        lemma_extend_assoc(before, share, headers);
        lemma_extend_assoc(before, share.extend(headers), full);
        lemma_extend_assoc(before, share.extend(headers).extend(full), light);
    }
    Ok(())
}

fn probe_each(
    store: &SpecStore,
    host: &Host,
    platform: &Platform,
    names: &Vec<String>,
    from: usize,
    depth: usize,
    info: &mut LibInfo,
) -> (done: Result<(), Halt>)
    ensures
        match survey_each(store@, host@, platform@, names.deep_view(), from as int, depth as nat) {
            Err(halt) => done matches Err(e) && e@ == halt,
            Ok(found) => done is Ok && final(info)@ == old(info)@.extend(found),
        },
    decreases depth, 0nat, names.len() - from,
{
    if from >= names.len() {
        proof {
            lemma_extend_empty(info@);
        }
        return Ok(());
    }
    if depth == 0 {
        return Err(Halt::Failed(Failure::TooDeep, names[from].clone()));
    }
    let ghost before = info@;
    match probe_in_full(store, host, platform, names[from].as_str(), depth - 1, info) {
        Err(halt) => {
            return Err(halt);
        },
        Ok(()) => {},
    }
    match probe_each(store, host, platform, names, from + 1, depth, info) {
        Err(halt) => Err(halt),
        Ok(()) => {
            proof {
                let first = survey(
                    store@,
                    host@,
                    platform@,
                    names.deep_view()[from as int],
                    (depth - 1) as nat,
                )->Ok_0;
                let rest = survey_each(
                    store@,
                    host@,
                    platform@,
                    names.deep_view(),
                    from + 1,
                    depth as nat,
                )->Ok_0;
                lemma_extend_assoc(before, first, rest);
            }
            Ok(())
        },
    }
}

/// Probes a package and adds what it contributes to `info`. With
/// `scan_incdir` set only its include directory is added. Full dependencies
/// are followed at most `depth` levels down. On a halt `info` stays as it
/// was.
pub fn probe(
    store: &SpecStore,
    host: &Host,
    platform: &Platform,
    pkg_name: &str,
    scan_incdir: bool,
    depth: usize,
    info: &mut LibInfo,
) -> (done: Result<(), Halt>)
    ensures
        match walk(store@, host@, platform@, pkg_name@, scan_incdir, depth as nat) {
            Err(halt) => done matches Err(e) && e@ == halt && final(info)@ == old(info)@,
            Ok(found) => done is Ok && final(info)@ == old(info)@.extend(found),
        },
        old(info)@.is_prefix_of(final(info)@),
        done matches Err(Halt::Needs(query)) ==> !host@.answers(query@),
{
    proof {
        walk_asks_anew(store@, host@, platform@, pkg_name@, scan_incdir, depth as nat);
    }
    let mut found = LibInfo::new();
    let done = if scan_incdir {
        glance_at(store, host, pkg_name, &mut found)
    } else {
        probe_in_full(store, host, platform, pkg_name, depth, &mut found)
    };
    match done {
        Err(halt) => {
            proof {
                lemma_extend_empty(info@);
                lemma_extend_grows(info@, LibInfoView::empty());
            }
            Err(halt)
        },
        Ok(()) => {
            proof {
                lemma_extend_empty(found@);
                lemma_extend_grows(info@, found@);
            }
            info.append(found);
            Ok(())
        },
    }
}

/// Everything the package `name` contributes when it is probed in full.
pub fn probe_library(
    name: &str,
    store: &SpecStore,
    host: &Host,
    platform: &Platform,
    depth: usize,
) -> (found: Result<LibInfo, Halt>)
    ensures
        match walk(store@, host@, platform@, name@, false, depth as nat) {
            Err(halt) => found matches Err(e) && e@ == halt,
            Ok(wanted) => found matches Ok(info) && info@ == wanted,
        },
        found matches Err(Halt::Needs(query)) ==> !host@.answers(query@),
{
    proof {
        walk_asks_anew(store@, host@, platform@, name@, false, depth as nat);
    }
    let mut info = LibInfo::new();
    match probe_in_full(store, host, platform, name, depth, &mut info) {
        Err(halt) => Err(halt),
        Ok(()) => {
            proof {
                lemma_extend_empty(
                    walk(store@, host@, platform@, name@, false, depth as nat)->Ok_0,
                );
            }
            Ok(info)
        },
    }
}

/// Probes the package `name` in full and adds what it contributes to the end
/// of `lib_info_all`. On a halt `lib_info_all` stays as it was.
pub fn fold_lib_info(
    name: &str,
    store: &SpecStore,
    host: &Host,
    platform: &Platform,
    depth: usize,
    lib_info_all: &mut LibInfo,
) -> (done: Result<(), Halt>)
    ensures
        match walk(store@, host@, platform@, name@, false, depth as nat) {
            Err(halt) => done matches Err(e) && e@ == halt && final(lib_info_all)@ == old(
                lib_info_all,
            )@,
            Ok(found) => done is Ok && final(lib_info_all)@ == old(lib_info_all)@.extend(found),
        },
        old(lib_info_all)@.is_prefix_of(final(lib_info_all)@),
        done matches Err(Halt::Needs(query)) ==> !host@.answers(query@),
{
    match probe_library(name, store, host, platform, depth) {
        Err(halt) => {
            proof {
                lemma_extend_empty(lib_info_all@);
                lemma_extend_grows(lib_info_all@, LibInfoView::empty());
            }
            Err(halt)
        },
        Ok(info) => {
            proof {
                lemma_extend_grows(lib_info_all@, info@);
            }
            lib_info_all.append(info);
            Ok(())
        },
    }
}

} // verus!
