//! What holds of every resolution, whatever the catalog and the host.
use vstd::prelude::*;
use crate::failure::{Failure, HaltView};
use crate::host::World;
use crate::lib_info::{DirectiveView, LibInfoView};
use crate::linker::{
    file_directives, first_installed, group_directives, lib_directives, link_name_of,
};
use crate::package::{LibGroupView, LibsView, PackageSpecView};
use crate::path::{joined, trimmed_end};
use crate::platform::PlatformView;
use crate::probe::{
    candidates, first_located, first_registered, include_dir_of, include_guess,
    optional_directives, prefix_of, probe_of, registry_share, search_probe, search_share,
    ProbedView,
};
use crate::store::Catalog;
use crate::plan::requested_walk;
use crate::platform::active;
use crate::walk::{glance, glance_each, header_paths, survey, survey_each, walk};

verus! {

/// Whether `directive` links the library file `file` and the world reports
/// that file as existing in `lib_dir`.
pub open spec fn links_installed(
    world: World,
    lib_dir: Seq<char>,
    file: Seq<char>,
    directive: DirectiveView,
) -> bool {
    &&& directive == DirectiveView::LinkLib(link_name_of(file))
    &&& joined(lib_dir, file) matches Some(path)
    &&& world.paths.get(path) == Some(true)
}

/// Whether `file` is one of the file names that `libs` declares.
pub open spec fn names_file(libs: LibsView, file: Seq<char>) -> bool {
    match libs {
        LibsView::Groups(groups) => exists|g: int, c: int|
            0 <= g < groups.len() && 0 <= c < groups[g].candidates.len()
                && #[trigger] groups[g].candidates[c] == file,
        LibsView::Flat(files) => files.contains(file),
    }
}

/// Whether `file` is one of the library file names that a record declares.
pub open spec fn declares(spec: PackageSpecView, file: Seq<char>) -> bool {
    ||| spec.libs matches Some(libs) && names_file(libs, file)
    ||| spec.libs_private matches Some(libs) && names_file(libs, file)
}

/// The library directory derived for a package that is found by its
/// executable: the `lib` directory below the prefix of the first executable
/// that was found.
pub open spec fn library_dir(world: World, spec: PackageSpecView) -> Option<Seq<char>> {
    match first_located(world, spec.exe, 0) {
        Ok(Some(output)) => match prefix_of(trimmed_end(output)) {
            Some(prefix) => joined(prefix, "lib"@),
            None => None,
        },
        _ => None,
    }
}

/// Whether `directive` links one of `files` that exists in `lib_dir`.
pub open spec fn links_one_of(
    world: World,
    lib_dir: Seq<char>,
    files: Seq<Seq<char>>,
    directive: DirectiveView,
) -> bool {
    exists|file: Seq<char>|
        files.contains(file) && #[trigger] links_installed(world, lib_dir, file, directive)
}

/// Whether `directive` links a file that `libs` names and that exists in
/// `lib_dir`.
pub open spec fn links_named(
    world: World,
    lib_dir: Seq<char>,
    libs: LibsView,
    directive: DirectiveView,
) -> bool {
    exists|file: Seq<char>|
        names_file(libs, file) && #[trigger] links_installed(world, lib_dir, file, directive)
}

/// Whether `directive` links a file that the record declares and that
/// exists in `lib_dir`.
pub open spec fn links_declared(
    world: World,
    lib_dir: Seq<char>,
    spec: PackageSpecView,
    directive: DirectiveView,
) -> bool {
    exists|file: Seq<char>|
        declares(spec, file) && #[trigger] links_installed(world, lib_dir, file, directive)
}

proof fn lemma_first_installed(world: World, lib_dir: Seq<char>, files: Seq<Seq<char>>, from: int)
    requires
        0 <= from,
    ensures
        first_installed(world, lib_dir, files, from) matches Ok(Some(file)) ==> {
            &&& files.contains(file)
            &&& joined(lib_dir, file) matches Some(path)
            &&& world.paths.get(path) == Some(true)
        },
    decreases files.len() - from,
{
    if from < files.len() {
        lemma_first_installed(world, lib_dir, files, from + 1);
    }
}

proof fn lemma_group_directives(
    world: World,
    lib_dir: Seq<char>,
    groups: Seq<LibGroupView>,
    from: int,
)
    requires
        0 <= from <= groups.len(),
    ensures
        group_directives(world, lib_dir, groups, from) matches Ok(directives) ==> {
            &&& directives.len() == groups.len() - from
            &&& forall|i: int|
                0 <= i < directives.len() ==> links_one_of(
                    world,
                    lib_dir,
                    groups[from + i].candidates,
                    #[trigger] directives[i],
                )
        },
    decreases groups.len() - from,
{
    if from < groups.len() {
        lemma_group_directives(world, lib_dir, groups, from + 1);
        lemma_first_installed(world, lib_dir, groups[from].candidates, 0);
        if let Ok(directives) = group_directives(world, lib_dir, groups, from) {
            let file = first_installed(world, lib_dir, groups[from].candidates, 0)->Ok_0->Some_0;
            let rest = group_directives(world, lib_dir, groups, from + 1)->Ok_0;
            assert forall|i: int| 0 <= i < directives.len() implies links_one_of(
                world,
                lib_dir,
                groups[from + i].candidates,
                #[trigger] directives[i],
            ) by {
                if i == 0 {
                    assert(links_installed(world, lib_dir, file, directives[0]));
                } else {
                    assert(directives[i] == rest[i - 1]);
                    assert(links_one_of(
                        world,
                        lib_dir,
                        groups[from + 1 + (i - 1)].candidates,
                        rest[i - 1],
                    ));
                }
            }
        }
    }
}

proof fn lemma_file_directives(world: World, lib_dir: Seq<char>, files: Seq<Seq<char>>, from: int)
    requires
        0 <= from <= files.len(),
    ensures
        file_directives(world, lib_dir, files, from) matches Ok(directives) ==> {
            &&& directives.len() == files.len() - from
            &&& forall|i: int|
                0 <= i < directives.len() ==> links_installed(
                    world,
                    lib_dir,
                    files[from + i],
                    #[trigger] directives[i],
                )
        },
    decreases files.len() - from,
{
    if from < files.len() {
        lemma_file_directives(world, lib_dir, files, from + 1);
        if let Ok(directives) = file_directives(world, lib_dir, files, from) {
            let rest = file_directives(world, lib_dir, files, from + 1)->Ok_0;
            assert forall|i: int| 0 <= i < directives.len() implies links_installed(
                world,
                lib_dir,
                files[from + i],
                #[trigger] directives[i],
            ) by {
                if i > 0 {
                    assert(directives[i] == rest[i - 1]);
                    assert(links_installed(world, lib_dir, files[from + 1 + (i - 1)], rest[i - 1]));
                }
            }
        }
    }
}

/// Every directive raised for declared libraries links a file that the
/// record names and that exists in the library directory. A list of groups
/// raises one directive for each group, a flat list one for each file.
pub proof fn directives_link_installed_files(world: World, lib_dir: Seq<char>, libs: LibsView)
    ensures
        lib_directives(world, lib_dir, libs) matches Ok(directives) ==> {
            &&& directives.len() == match libs {
                LibsView::Groups(groups) => groups.len(),
                LibsView::Flat(files) => files.len(),
            }
            &&& forall|i: int|
                0 <= i < directives.len() ==> links_named(
                    world,
                    lib_dir,
                    libs,
                    #[trigger] directives[i],
                )
        },
{
    if let Ok(directives) = lib_directives(world, lib_dir, libs) {
        match libs {
            LibsView::Groups(groups) => {
                lemma_group_directives(world, lib_dir, groups, 0);
                assert forall|i: int| 0 <= i < directives.len() implies links_named(
                    world,
                    lib_dir,
                    libs,
                    #[trigger] directives[i],
                ) by {
                    assert(links_one_of(world, lib_dir, groups[0 + i].candidates, directives[i]));
                    let file = choose|file: Seq<char>|
                        groups[i].candidates.contains(file) && #[trigger] links_installed(
                            world,
                            lib_dir,
                            file,
                            directives[i],
                        );
                    let c = groups[i].candidates.index_of(file);
                    assert(groups[i].candidates[c] == file);
                    assert(names_file(libs, file));
                }
            },
            LibsView::Flat(files) => {
                lemma_file_directives(world, lib_dir, files, 0);
                assert forall|i: int| 0 <= i < directives.len() implies links_named(
                    world,
                    lib_dir,
                    libs,
                    #[trigger] directives[i],
                ) by {
                    assert(files[0 + i] == files[i]);
                    assert(names_file(libs, files[i]));
                    assert(links_installed(world, lib_dir, files[i], directives[i]));
                }
            },
        }
    }
}

/// Probing a package for its include directory alone never adds a link
/// path, a header or a directive: it adds one include path, the package's
/// include directory.
pub proof fn header_only_adds_one_include_path(
    catalog: Catalog,
    world: World,
    platform: PlatformView,
    name: Seq<char>,
    depth: nat,
)
    ensures
        walk(catalog, world, platform, name, true, depth) matches Ok(found) ==> {
            &&& found.link_paths == Seq::<Seq<char>>::empty()
            &&& found.headers == Seq::<Seq<char>>::empty()
            &&& found.directives == Seq::<DirectiveView>::empty()
            &&& probe_of(catalog, world, name, true) matches Ok((probed, _))
            &&& include_dir_of(world, probed) matches Ok(dir)
            &&& found.include_paths == seq![dir]
        },
{
    if let Ok(found) = glance(catalog, world, name) {
        assert(found.link_paths =~= Seq::<Seq<char>>::empty());
        assert(found.headers =~= Seq::<Seq<char>>::empty());
        assert(found.directives =~= Seq::<DirectiveView>::empty());
        let probed = probe_of(catalog, world, name, true)->Ok_0.0;
        let dir = include_dir_of(world, probed)->Ok_0;
        assert(found.include_paths =~= seq![dir]);
    }
}

proof fn lemma_glances_add_include_paths(
    catalog: Catalog,
    world: World,
    names: Seq<Seq<char>>,
    from: int,
)
    requires
        0 <= from,
    ensures
        glance_each(catalog, world, names, from) matches Ok(found) ==> {
            &&& found.link_paths == Seq::<Seq<char>>::empty()
            &&& found.headers == Seq::<Seq<char>>::empty()
            &&& found.directives == Seq::<DirectiveView>::empty()
        },
    decreases names.len() - from,
{
    if from < names.len() {
        lemma_glances_add_include_paths(catalog, world, names, from + 1);
        if let Ok(found) = glance_each(catalog, world, names, from) {
            header_only_adds_one_include_path(
                catalog,
                world,
                PlatformView { os: Seq::empty(), unix: false },
                names[from],
                0,
            );
            assert(found.link_paths =~= Seq::<Seq<char>>::empty());
            assert(found.headers =~= Seq::<Seq<char>>::empty());
            assert(found.directives =~= Seq::<DirectiveView>::empty());
        }
    }
}

/// A package that the registry knows is resolved by the registry alone. The
/// walk from it raises no directive, and its only link paths are those the
/// registry reports for it: nothing is derived from an installation prefix.
pub proof fn registry_resolution_has_no_search_effects(
    catalog: Catalog,
    world: World,
    platform: PlatformView,
    name: Seq<char>,
    header_only: bool,
    depth: nat,
)
    requires
        first_registered(world, candidates(catalog, name), 0) matches Ok(Some(_)),
    ensures
        probe_of(catalog, world, name, header_only) matches Ok((ProbedView::PcName(_), _)),
        walk(catalog, world, platform, name, header_only, depth) matches Ok(found) ==> {
            &&& found.directives == Seq::<DirectiveView>::empty()
            &&& first_registered(world, candidates(catalog, name), 0) matches Ok(
                Some((_, package)),
            )
            &&& found.link_paths == registry_share(package, header_only).link_paths
        },
{
    let package = first_registered(world, candidates(catalog, name), 0)->Ok_0->Some_0.1;
    if header_only {
        header_only_adds_one_include_path(catalog, world, platform, name, depth);
    } else if let Ok(found) = survey(catalog, world, platform, name, depth) {
        if let Some(spec) = catalog.get(name) {
            lemma_glances_add_include_paths(
                catalog,
                world,
                active(spec.header_dependencies, platform),
                0,
            );
        }
        assert(found.directives =~= Seq::<DirectiveView>::empty());
        assert(found.link_paths =~= package.link_paths);
    }
}

/// What a package found below a prefix contributes when probed in full: one
/// link path, the prefix's library directory; the directive to search it;
/// and after that only directives that link files which the record declares
/// and which exist in that directory.
pub proof fn search_share_is_installed(
    world: World,
    prefix: Seq<char>,
    name: Seq<char>,
    spec: PackageSpecView,
)
    ensures
        search_share(world, prefix, name, spec) matches Ok(share) ==> {
            &&& joined(prefix, "lib"@) matches Some(lib_dir)
            &&& share.link_paths == seq![lib_dir]
            &&& share.include_paths == Seq::<Seq<char>>::empty()
            &&& share.headers == Seq::<Seq<char>>::empty()
            &&& share.directives.len() >= 1
            &&& share.directives[0] == DirectiveView::LinkSearch(prefix + "/lib"@)
            &&& forall|i: int|
                1 <= i < share.directives.len() ==> links_declared(
                    world,
                    lib_dir,
                    spec,
                    #[trigger] share.directives[i],
                )
        },
{
    if let Ok(share) = search_share(world, prefix, name, spec) {
        let lib_dir = joined(prefix, "lib"@)->Some_0;
        let libs = spec.libs->Some_0;
        let public = lib_directives(world, lib_dir, libs)->Ok_0;
        let private = optional_directives(world, lib_dir, spec.libs_private)->Ok_0;
        directives_link_installed_files(world, lib_dir, libs);
        if let Some(more) = spec.libs_private {
            directives_link_installed_files(world, lib_dir, more);
        }
        assert forall|i: int| 1 <= i < share.directives.len() implies links_declared(
            world,
            lib_dir,
            spec,
            #[trigger] share.directives[i],
        ) by {
            if i - 1 < public.len() {
                assert(share.directives[i] == public[i - 1]);
                assert(links_named(world, lib_dir, libs, public[i - 1]));
                let file = choose|file: Seq<char>|
                    names_file(libs, file) && #[trigger] links_installed(
                        world,
                        lib_dir,
                        file,
                        public[i - 1],
                    );
                assert(declares(spec, file));
                assert(links_installed(world, lib_dir, file, share.directives[i]));
            } else {
                let k = i - 1 - public.len();
                assert(share.directives[i] == private[k]);
                let more = spec.libs_private->Some_0;
                assert(links_named(world, lib_dir, more, private[k]));
                let file = choose|file: Seq<char>|
                    names_file(more, file) && #[trigger] links_installed(
                        world,
                        lib_dir,
                        file,
                        private[k],
                    );
                assert(declares(spec, file));
                assert(links_installed(world, lib_dir, file, share.directives[i]));
            }
        }
    }
}

/// A package that the registry does not know can only be resolved by its
/// executable. Where the walk from it succeeds, the package has a record,
/// the include directory derived for it exists, and what finding it
/// contributes holds link directives only for declared library files that
/// exist in the derived library directory.
pub proof fn search_resolution_is_grounded(
    catalog: Catalog,
    world: World,
    platform: PlatformView,
    name: Seq<char>,
    header_only: bool,
    depth: nat,
)
    requires
        first_registered(world, candidates(catalog, name), 0) matches Ok(None),
        walk(catalog, world, platform, name, header_only, depth) is Ok,
    ensures
        catalog.contains_key(name),
        probe_of(catalog, world, name, header_only) matches Ok((ProbedView::IncDir(dir), share))
            && world.paths.get(dir) == Some(true) && (header_only ==> share
            == LibInfoView::empty()) && (!header_only ==> {
            &&& library_dir(world, catalog[name]) matches Some(lib_dir)
            &&& share.link_paths == seq![lib_dir]
            &&& forall|i: int|
                1 <= i < share.directives.len() ==> links_declared(
                    world,
                    lib_dir,
                    catalog[name],
                    #[trigger] share.directives[i],
                )
        }),
{
    let spec = catalog[name];
    let output = first_located(world, spec.exe, 0)->Ok_0->Some_0;
    let prefix = prefix_of(trimmed_end(output))->Some_0;
    assert(search_probe(catalog, world, name, header_only) is Ok);
    if !header_only {
        search_share_is_installed(world, prefix, name, spec);
    }
}

/// Whether a halt, if it asks for an answer, asks for one that the world
/// does not hold yet.
pub open spec fn asks_anew<T>(world: World, outcome: Result<T, HaltView>) -> bool {
    outcome matches Err(HaltView::Needs(query)) ==> !world.answers(query)
}

proof fn lemma_first_installed_asks_anew(
    world: World,
    lib_dir: Seq<char>,
    files: Seq<Seq<char>>,
    from: int,
)
    requires
        0 <= from,
    ensures
        asks_anew(world, first_installed(world, lib_dir, files, from)),
    decreases files.len() - from,
{
    if from < files.len() {
        lemma_first_installed_asks_anew(world, lib_dir, files, from + 1);
    }
}

proof fn lemma_group_directives_ask_anew(
    world: World,
    lib_dir: Seq<char>,
    groups: Seq<LibGroupView>,
    from: int,
)
    requires
        0 <= from,
    ensures
        asks_anew(world, group_directives(world, lib_dir, groups, from)),
    decreases groups.len() - from,
{
    if from < groups.len() {
        lemma_first_installed_asks_anew(world, lib_dir, groups[from].candidates, 0);
        lemma_group_directives_ask_anew(world, lib_dir, groups, from + 1);
    }
}

proof fn lemma_file_directives_ask_anew(
    world: World,
    lib_dir: Seq<char>,
    files: Seq<Seq<char>>,
    from: int,
)
    requires
        0 <= from,
    ensures
        asks_anew(world, file_directives(world, lib_dir, files, from)),
    decreases files.len() - from,
{
    if from < files.len() {
        lemma_file_directives_ask_anew(world, lib_dir, files, from + 1);
    }
}

proof fn lemma_lib_directives_ask_anew(world: World, lib_dir: Seq<char>, libs: LibsView)
    ensures
        asks_anew(world, lib_directives(world, lib_dir, libs)),
{
    match libs {
        LibsView::Groups(groups) => lemma_group_directives_ask_anew(world, lib_dir, groups, 0),
        LibsView::Flat(files) => lemma_file_directives_ask_anew(world, lib_dir, files, 0),
    }
}

proof fn lemma_first_registered_asks_anew(world: World, names: Seq<Seq<char>>, from: int)
    requires
        0 <= from,
    ensures
        asks_anew(world, first_registered(world, names, from)),
    decreases names.len() - from,
{
    if from < names.len() {
        lemma_first_registered_asks_anew(world, names, from + 1);
    }
}

proof fn lemma_first_located_asks_anew(world: World, names: Seq<Seq<char>>, from: int)
    requires
        0 <= from,
    ensures
        asks_anew(world, first_located(world, names, from)),
    decreases names.len() - from,
{
    if from < names.len() {
        lemma_first_located_asks_anew(world, names, from + 1);
    }
}

proof fn lemma_include_guess_asks_anew(
    world: World,
    base: Seq<char>,
    dirs: Seq<Seq<char>>,
    from: int,
)
    requires
        0 <= from,
    ensures
        asks_anew(world, include_guess(world, base, dirs, from)),
    decreases dirs.len() - from,
{
    if from < dirs.len() {
        lemma_include_guess_asks_anew(world, base, dirs, from + 1);
    }
}

proof fn lemma_search_share_asks_anew(
    world: World,
    prefix: Seq<char>,
    name: Seq<char>,
    spec: PackageSpecView,
)
    ensures
        asks_anew(world, search_share(world, prefix, name, spec)),
{
    if let Some(lib_dir) = joined(prefix, "lib"@) {
        if let Some(libs) = spec.libs {
            lemma_lib_directives_ask_anew(world, lib_dir, libs);
        }
        if let Some(libs) = spec.libs_private {
            lemma_lib_directives_ask_anew(world, lib_dir, libs);
        }
    }
}

proof fn lemma_probe_asks_anew(catalog: Catalog, world: World, name: Seq<char>, header_only: bool)
    ensures
        asks_anew(world, probe_of(catalog, world, name, header_only)),
{
    lemma_first_registered_asks_anew(world, candidates(catalog, name), 0);
    if let Some(spec) = catalog.get(name) {
        lemma_first_located_asks_anew(world, spec.exe, 0);
        if let Ok(Some(output)) = first_located(world, spec.exe, 0) {
            if let Some(prefix) = prefix_of(trimmed_end(output)) {
                if let Some(base) = joined(prefix, "include"@) {
                    lemma_include_guess_asks_anew(world, base, spec.includedir, 0);
                }
                lemma_search_share_asks_anew(world, prefix, name, spec);
            }
        }
    }
}

proof fn lemma_glance_asks_anew(catalog: Catalog, world: World, name: Seq<char>)
    ensures
        asks_anew(world, glance(catalog, world, name)),
{
    lemma_probe_asks_anew(catalog, world, name, true);
}

proof fn lemma_glance_each_asks_anew(
    catalog: Catalog,
    world: World,
    names: Seq<Seq<char>>,
    from: int,
)
    requires
        0 <= from,
    ensures
        asks_anew(world, glance_each(catalog, world, names, from)),
    decreases names.len() - from,
{
    if from < names.len() {
        lemma_glance_asks_anew(catalog, world, names[from]);
        lemma_glance_each_asks_anew(catalog, world, names, from + 1);
    }
}

proof fn lemma_header_paths_ask_nothing(dir: Seq<char>, headers: Seq<Seq<char>>, from: int)
    requires
        0 <= from,
    ensures
        !(header_paths(dir, headers, from) matches Err(HaltView::Needs(_))),
    decreases headers.len() - from,
{
    if from < headers.len() {
        lemma_header_paths_ask_nothing(dir, headers, from + 1);
    }
}

proof fn lemma_survey_asks_anew(
    catalog: Catalog,
    world: World,
    platform: PlatformView,
    name: Seq<char>,
    depth: nat,
)
    ensures
        asks_anew(world, survey(catalog, world, platform, name, depth)),
    decreases depth, 1nat, 0nat,
{
    lemma_probe_asks_anew(catalog, world, name, false);
    if let Some(spec) = catalog.get(name) {
        if let Ok((probed, _)) = probe_of(catalog, world, name, false) {
            if let Ok(dir) = include_dir_of(world, probed) {
                lemma_header_paths_ask_nothing(dir, spec.headers, 0);
            }
        }
        lemma_survey_each_asks_anew(
            catalog,
            world,
            platform,
            active(spec.dependencies, platform),
            0,
            depth,
        );
        lemma_glance_each_asks_anew(
            catalog,
            world,
            active(spec.header_dependencies, platform),
            0,
        );
    }
}

proof fn lemma_survey_each_asks_anew(
    catalog: Catalog,
    world: World,
    platform: PlatformView,
    names: Seq<Seq<char>>,
    from: int,
    depth: nat,
)
    requires
        0 <= from,
    ensures
        asks_anew(world, survey_each(catalog, world, platform, names, from, depth)),
    decreases depth, 0nat, names.len() - from,
{
    if from < names.len() && depth > 0 {
        lemma_survey_asks_anew(catalog, world, platform, names[from], (depth - 1) as nat);
        lemma_survey_each_asks_anew(catalog, world, platform, names, from + 1, depth);
    }
}

/// A walk that halts for want of an answer asks for one that the host has
/// not given yet. Whoever records that answer and walks again therefore
/// never answers the same question twice.
pub proof fn walk_asks_anew(
    catalog: Catalog,
    world: World,
    platform: PlatformView,
    name: Seq<char>,
    header_only: bool,
    depth: nat,
)
    ensures
        walk(catalog, world, platform, name, header_only, depth) matches Err(
            HaltView::Needs(query),
        ) ==> !world.answers(query),
{
    lemma_glance_asks_anew(catalog, world, name);
    lemma_survey_asks_anew(catalog, world, platform, name, depth);
}

/// A build that halts for want of an answer asks for one that the host has
/// not given yet.
pub proof fn build_asks_anew(
    catalog: Catalog,
    world: World,
    platform: PlatformView,
    names: Seq<Seq<char>>,
    from: int,
    depth: nat,
)
    requires
        0 <= from,
    ensures
        requested_walk(catalog, world, platform, names, from, depth) matches Err(
            HaltView::Needs(query),
        ) ==> !world.answers(query),
    decreases names.len() - from,
{
    if from < names.len() {
        walk_asks_anew(catalog, world, platform, names[from], false, depth);
        build_asks_anew(catalog, world, platform, names, from + 1, depth);
    }
}

/// Whether an outcome is final: a result or a failure, not a question.
pub open spec fn settled<T>(outcome: Result<T, HaltView>) -> bool {
    !(outcome matches Err(HaltView::Needs(_)))
}

proof fn lemma_first_installed_stays(
    world: World,
    later: World,
    lib_dir: Seq<char>,
    files: Seq<Seq<char>>,
    from: int,
)
    requires
        0 <= from,
        later.extends(world),
        settled(first_installed(world, lib_dir, files, from)),
    ensures
        first_installed(later, lib_dir, files, from) == first_installed(
            world,
            lib_dir,
            files,
            from,
        ),
    decreases files.len() - from,
{
    if from < files.len() {
        if let Some(path) = joined(lib_dir, files[from]) {
            assert(world.paths.dom().contains(path));
            if world.paths[path] == false {
                lemma_first_installed_stays(world, later, lib_dir, files, from + 1);
            }
        }
    }
}

proof fn lemma_group_directives_stay(
    world: World,
    later: World,
    lib_dir: Seq<char>,
    groups: Seq<LibGroupView>,
    from: int,
)
    requires
        0 <= from,
        later.extends(world),
        settled(group_directives(world, lib_dir, groups, from)),
    ensures
        group_directives(later, lib_dir, groups, from) == group_directives(
            world,
            lib_dir,
            groups,
            from,
        ),
    decreases groups.len() - from,
{
    if from < groups.len() {
        lemma_first_installed_stays(world, later, lib_dir, groups[from].candidates, 0);
        if let Ok(Some(_)) = first_installed(world, lib_dir, groups[from].candidates, 0) {
            lemma_group_directives_stay(world, later, lib_dir, groups, from + 1);
        }
    }
}

proof fn lemma_file_directives_stay(
    world: World,
    later: World,
    lib_dir: Seq<char>,
    files: Seq<Seq<char>>,
    from: int,
)
    requires
        0 <= from,
        later.extends(world),
        settled(file_directives(world, lib_dir, files, from)),
    ensures
        file_directives(later, lib_dir, files, from) == file_directives(
            world,
            lib_dir,
            files,
            from,
        ),
    decreases files.len() - from,
{
    if from < files.len() {
        if let Some(path) = joined(lib_dir, files[from]) {
            assert(world.paths.dom().contains(path));
            if world.paths[path] {
                lemma_file_directives_stay(world, later, lib_dir, files, from + 1);
            }
        }
    }
}

proof fn lemma_lib_directives_stay(world: World, later: World, lib_dir: Seq<char>, libs: LibsView)
    requires
        later.extends(world),
        settled(lib_directives(world, lib_dir, libs)),
    ensures
        lib_directives(later, lib_dir, libs) == lib_directives(world, lib_dir, libs),
{
    match libs {
        LibsView::Groups(groups) => lemma_group_directives_stay(world, later, lib_dir, groups, 0),
        LibsView::Flat(files) => lemma_file_directives_stay(world, later, lib_dir, files, 0),
    }
}

proof fn lemma_first_registered_stays(world: World, later: World, names: Seq<Seq<char>>, from: int)
    requires
        0 <= from,
        later.extends(world),
        settled(first_registered(world, names, from)),
    ensures
        first_registered(later, names, from) == first_registered(world, names, from),
    decreases names.len() - from,
{
    if from < names.len() {
        assert(world.packages.dom().contains(names[from]));
        if world.packages[names[from]] is None {
            lemma_first_registered_stays(world, later, names, from + 1);
        }
    }
}

proof fn lemma_first_located_stays(world: World, later: World, names: Seq<Seq<char>>, from: int)
    requires
        0 <= from,
        later.extends(world),
        settled(first_located(world, names, from)),
    ensures
        first_located(later, names, from) == first_located(world, names, from),
    decreases names.len() - from,
{
    if from < names.len() {
        assert(world.executables.dom().contains(names[from]));
        match world.executables[names[from]] {
            Some(output) => {
                if output.len() == 0 {
                    lemma_first_located_stays(world, later, names, from + 1);
                }
            },
            None => {
                lemma_first_located_stays(world, later, names, from + 1);
            },
        }
    }
}

proof fn lemma_include_guess_stays(
    world: World,
    later: World,
    base: Seq<char>,
    dirs: Seq<Seq<char>>,
    from: int,
)
    requires
        0 <= from,
        later.extends(world),
        settled(include_guess(world, base, dirs, from)),
    ensures
        include_guess(later, base, dirs, from) == include_guess(world, base, dirs, from),
    decreases dirs.len() - from,
{
    if from < dirs.len() {
        if let Some(dir) = joined(base, dirs[from]) {
            assert(world.paths.dom().contains(dir));
            if world.paths[dir] == false {
                lemma_include_guess_stays(world, later, base, dirs, from + 1);
            }
        }
    }
}

proof fn lemma_search_share_stays(
    world: World,
    later: World,
    prefix: Seq<char>,
    name: Seq<char>,
    spec: PackageSpecView,
)
    requires
        later.extends(world),
        settled(search_share(world, prefix, name, spec)),
    ensures
        search_share(later, prefix, name, spec) == search_share(world, prefix, name, spec),
{
    if let Some(lib_dir) = joined(prefix, "lib"@) {
        if let Some(libs) = spec.libs {
            lemma_lib_directives_stay(world, later, lib_dir, libs);
            if lib_directives(world, lib_dir, libs) is Ok {
                if let Some(more) = spec.libs_private {
                    lemma_lib_directives_stay(world, later, lib_dir, more);
                }
            }
        }
    }
}

proof fn lemma_probe_stays(
    catalog: Catalog,
    world: World,
    later: World,
    name: Seq<char>,
    header_only: bool,
)
    requires
        later.extends(world),
        settled(probe_of(catalog, world, name, header_only)),
    ensures
        probe_of(catalog, later, name, header_only) == probe_of(catalog, world, name, header_only),
{
    lemma_first_registered_stays(world, later, candidates(catalog, name), 0);
    if let Ok(None) = first_registered(world, candidates(catalog, name), 0) {
        if let Some(spec) = catalog.get(name) {
            lemma_first_located_stays(world, later, spec.exe, 0);
            if let Ok(Some(output)) = first_located(world, spec.exe, 0) {
                if let Some(prefix) = prefix_of(trimmed_end(output)) {
                    if let Some(base) = joined(prefix, "include"@) {
                        lemma_include_guess_stays(world, later, base, spec.includedir, 0);
                        if include_guess(world, base, spec.includedir, 0) is Ok && !header_only {
                            lemma_search_share_stays(world, later, prefix, name, spec);
                        }
                    }
                }
            }
        }
    }
}

proof fn lemma_include_dir_stays(world: World, later: World, probed: ProbedView)
    requires
        later.extends(world),
        settled(include_dir_of(world, probed)),
    ensures
        include_dir_of(later, probed) == include_dir_of(world, probed),
{
    match probed {
        ProbedView::PcName(pc_name) => {
            assert(world.include_dirs.dom().contains(pc_name));
        },
        ProbedView::IncDir(dir) => {
            assert(world.paths.dom().contains(dir));
        },
    }
}

proof fn lemma_glance_stays(catalog: Catalog, world: World, later: World, name: Seq<char>)
    requires
        later.extends(world),
        settled(glance(catalog, world, name)),
    ensures
        glance(catalog, later, name) == glance(catalog, world, name),
{
    lemma_probe_stays(catalog, world, later, name, true);
    if let Ok((probed, _)) = probe_of(catalog, world, name, true) {
        lemma_include_dir_stays(world, later, probed);
    }
}

proof fn lemma_glance_each_stays(
    catalog: Catalog,
    world: World,
    later: World,
    names: Seq<Seq<char>>,
    from: int,
)
    requires
        0 <= from,
        later.extends(world),
        settled(glance_each(catalog, world, names, from)),
    ensures
        glance_each(catalog, later, names, from) == glance_each(catalog, world, names, from),
    decreases names.len() - from,
{
    if from < names.len() {
        lemma_glance_stays(catalog, world, later, names[from]);
        if glance(catalog, world, names[from]) is Ok {
            lemma_glance_each_stays(catalog, world, later, names, from + 1);
        }
    }
}

proof fn lemma_survey_stays(
    catalog: Catalog,
    world: World,
    later: World,
    platform: PlatformView,
    name: Seq<char>,
    depth: nat,
)
    requires
        later.extends(world),
        settled(survey(catalog, world, platform, name, depth)),
    ensures
        survey(catalog, later, platform, name, depth) == survey(
            catalog,
            world,
            platform,
            name,
            depth,
        ),
    decreases depth, 1nat, 0nat,
{
    lemma_probe_stays(catalog, world, later, name, false);
    if let Ok((probed, _)) = probe_of(catalog, world, name, false) {
        if let Some(spec) = catalog.get(name) {
            lemma_include_dir_stays(world, later, probed);
            if let Ok(dir) = include_dir_of(world, probed) {
                lemma_header_paths_ask_nothing(dir, spec.headers, 0);
                if header_paths(dir, spec.headers, 0) is Ok {
                    let full_names = active(spec.dependencies, platform);
                    let light_names = active(spec.header_dependencies, platform);
                    if probed is PcName {
                        lemma_glance_each_stays(catalog, world, later, light_names, 0);
                    } else {
                        lemma_survey_each_stays(
                            catalog,
                            world,
                            later,
                            platform,
                            full_names,
                            0,
                            depth,
                        );
                        if survey_each(catalog, world, platform, full_names, 0, depth) is Ok {
                            lemma_glance_each_stays(catalog, world, later, light_names, 0);
                        }
                    }
                }
            }
        }
    }
}

proof fn lemma_survey_each_stays(
    catalog: Catalog,
    world: World,
    later: World,
    platform: PlatformView,
    names: Seq<Seq<char>>,
    from: int,
    depth: nat,
)
    requires
        0 <= from,
        later.extends(world),
        settled(survey_each(catalog, world, platform, names, from, depth)),
    ensures
        survey_each(catalog, later, platform, names, from, depth) == survey_each(
            catalog,
            world,
            platform,
            names,
            from,
            depth,
        ),
    decreases depth, 0nat, names.len() - from,
{
    if from < names.len() && depth > 0 {
        lemma_survey_stays(catalog, world, later, platform, names[from], (depth - 1) as nat);
        if survey(catalog, world, platform, names[from], (depth - 1) as nat) is Ok {
            lemma_survey_each_stays(catalog, world, later, platform, names, from + 1, depth);
        }
    }
}

/// Once a walk has ended with a result or a failure, further answers change
/// nothing: on every host that holds the same answers and more, the walk
/// ends in the same way. What a walk gives therefore does not depend on the
/// order in which the host was asked, nor on answers it did not ask for.
pub proof fn settled_walk_stays(
    catalog: Catalog,
    world: World,
    later: World,
    platform: PlatformView,
    name: Seq<char>,
    header_only: bool,
    depth: nat,
)
    requires
        later.extends(world),
        settled(walk(catalog, world, platform, name, header_only, depth)),
    ensures
        walk(catalog, later, platform, name, header_only, depth) == walk(
            catalog,
            world,
            platform,
            name,
            header_only,
            depth,
        ),
{
    if header_only {
        lemma_glance_stays(catalog, world, later, name);
    } else {
        lemma_survey_stays(catalog, world, later, platform, name, depth);
    }
}

/// Whether an outcome is a failure for want of depth.
pub open spec fn too_deep<T>(outcome: Result<T, HaltView>) -> bool {
    outcome matches Err(HaltView::Failed(Failure::TooDeep, _))
}

proof fn lemma_survey_deeper(
    catalog: Catalog,
    world: World,
    platform: PlatformView,
    name: Seq<char>,
    depth: nat,
)
    requires
        !too_deep(survey(catalog, world, platform, name, depth)),
    ensures
        survey(catalog, world, platform, name, depth + 1) == survey(
            catalog,
            world,
            platform,
            name,
            depth,
        ),
    decreases depth, 1nat, 0nat,
{
    if let Ok((probed, _)) = probe_of(catalog, world, name, false) {
        if let Some(spec) = catalog.get(name) {
            if let Ok(dir) = include_dir_of(world, probed) {
                if header_paths(dir, spec.headers, 0) is Ok && !(probed is PcName) {
                    lemma_survey_each_deeper(
                        catalog,
                        world,
                        platform,
                        active(spec.dependencies, platform),
                        0,
                        depth,
                    );
                }
            }
        }
    }
}

proof fn lemma_survey_each_deeper(
    catalog: Catalog,
    world: World,
    platform: PlatformView,
    names: Seq<Seq<char>>,
    from: int,
    depth: nat,
)
    requires
        0 <= from,
        !too_deep(survey_each(catalog, world, platform, names, from, depth)),
    ensures
        survey_each(catalog, world, platform, names, from, depth + 1) == survey_each(
            catalog,
            world,
            platform,
            names,
            from,
            depth,
        ),
    decreases depth, 0nat, names.len() - from,
{
    if from < names.len() {
        lemma_survey_deeper(catalog, world, platform, names[from], (depth - 1) as nat);
        if survey(catalog, world, platform, names[from], (depth - 1) as nat) is Ok {
            lemma_survey_each_deeper(catalog, world, platform, names, from + 1, depth);
        }
    }
}

/// The limit on depth changes nothing but where it is hit: a walk that did
/// not fail for want of depth ends in the same way under every greater
/// limit.
pub proof fn deeper_walk_agrees(
    catalog: Catalog,
    world: World,
    platform: PlatformView,
    name: Seq<char>,
    header_only: bool,
    depth: nat,
    deeper: nat,
)
    requires
        depth <= deeper,
        !too_deep(walk(catalog, world, platform, name, header_only, depth)),
    ensures
        walk(catalog, world, platform, name, header_only, deeper) == walk(
            catalog,
            world,
            platform,
            name,
            header_only,
            depth,
        ),
    decreases deeper - depth,
{
    if !header_only && depth < deeper {
        lemma_survey_deeper(catalog, world, platform, name, depth);
        deeper_walk_agrees(catalog, world, platform, name, header_only, depth + 1, deeper);
    }
}

} // verus!
