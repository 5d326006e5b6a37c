//! Resolving everything a build asks for, and what to generate from it.
use vstd::prelude::*;
use crate::failure::{Halt, HaltView};
use crate::host::{Host, World};
use crate::laws::build_asks_anew;
use crate::lib_info::{lemma_extend_assoc, lemma_extend_empty, LibInfo, LibInfoView};
use crate::platform::{Platform, PlatformView};
use crate::store::{Catalog, SpecStore};
use crate::text::{concat, copy_texts};
use crate::walk::{fold_lib_info, walk};

verus! {

/// What the requested packages contribute, from position `from` on: each is
/// probed in full, in the order of the request. An empty name requests
/// nothing.
pub open spec fn requested_walk(
    catalog: Catalog,
    world: World,
    platform: PlatformView,
    names: Seq<Seq<char>>,
    from: int,
    depth: nat,
) -> Result<LibInfoView, HaltView>
    decreases names.len() - from,
{
    if from < 0 || from >= names.len() {
        Ok(LibInfoView::empty())
    } else if names[from].len() == 0 {
        requested_walk(catalog, world, platform, names, from + 1, depth)
    } else {
        match walk(catalog, world, platform, names[from], false, depth) {
            Err(halt) => Err(halt),
            Ok(first) => match requested_walk(catalog, world, platform, names, from + 1, depth) {
                Err(halt) => Err(halt),
                Ok(rest) => Ok(first.extend(rest)),
            },
        }
    }
}

/// Resolves the requested packages against the store and the host. Full
/// dependencies are followed as many levels down as the store has records;
/// a chain longer than that names some package twice.
pub fn build(
    requested: &Vec<String>,
    store: &SpecStore,
    host: &Host,
    platform: &Platform,
) -> (found: Result<LibInfo, Halt>)
    ensures
        match requested_walk(
            store@,
            host@,
            platform@,
            requested.deep_view(),
            0,
            store.names().len(),
        ) {
            Err(halt) => found matches Err(e) && e@ == halt,
            Ok(wanted) => found matches Ok(info) && info@ == wanted,
        },
        found matches Err(Halt::Needs(query)) ==> !host@.answers(query@),
{
    let depth = store.len();
    proof {
        build_asks_anew(store@, host@, platform@, requested.deep_view(), 0, depth as nat);
    }
    let mut info = LibInfo::new();
    let ghost all = requested.deep_view();
    let ghost added = LibInfoView::empty();
    let mut i: usize = 0;
    while i < requested.len()
        invariant
            i <= requested.len(),
            all == requested.deep_view(),
            depth == store.names().len(),
            info@ == added,
            match requested_walk(store@, host@, platform@, all, i as int, depth as nat) {
                Ok(rest) => requested_walk(store@, host@, platform@, all, 0, depth as nat) == Ok::<
                    LibInfoView,
                    HaltView,
                >(added.extend(rest)),
                Err(halt) => requested_walk(store@, host@, platform@, all, 0, depth as nat) == Err::<
                    LibInfoView,
                    HaltView,
                >(halt),
            },
        decreases requested.len() - i,
    {
        if !requested[i].as_str().is_empty() {
            match fold_lib_info(requested[i].as_str(), store, host, platform, depth, &mut info) {
                Err(halt) => {
                    return Err(halt);
                },
                Ok(()) => {
                    proof {
                        let first = walk(
                            store@,
                            host@,
                            platform@,
                            all[i as int],
                            false,
                            depth as nat,
                        )->Ok_0;
                        match requested_walk(store@, host@, platform@, all, i + 1, depth as nat) {
                            Ok(rest) => {
                                lemma_extend_assoc(added, first, rest);
                            },
                            Err(_) => {},
                        }
                        added = added.extend(first);
                    }
                },
            }
        }
        i += 1;
    }
    proof {
        lemma_extend_empty(added);
    }
    Ok(info)
}

/// What to hand to the binding generator.
#[derive(Debug, PartialEq, Eq)]
pub enum Plan {
    /// No header was found: an empty file stands in for the bindings.
    Placeholder,
    /// Generate bindings for these headers, with these arguments for the
    /// C compiler front end.
    Generate { headers: Vec<String>, clang_args: Vec<String> },
}

pub enum PlanView {
    Placeholder,
    Generate { headers: Seq<Seq<char>>, clang_args: Seq<Seq<char>> },
}

impl DeepView for Plan {
    type V = PlanView;

    open spec fn deep_view(&self) -> PlanView {
        match self {
            Plan::Placeholder => PlanView::Placeholder,
            Plan::Generate { headers, clang_args } => PlanView::Generate {
                headers: headers.deep_view(),
                clang_args: clang_args.deep_view(),
            },
        }
    }
}

impl View for Plan {
    type V = PlanView;

    open spec fn view(&self) -> PlanView {
        self.deep_view()
    }
}

/// The argument that makes the C compiler front end search a directory
/// for headers.
pub open spec fn include_arg(path: Seq<char>) -> Seq<char> {
    "-I"@ + path
}

/// What to generate for a resolution: nothing where it found no header,
/// else bindings for its headers with one search argument for each include
/// path.
pub open spec fn plan_of(info: LibInfoView) -> PlanView {
    if info.headers.len() == 0 {
        PlanView::Placeholder
    } else {
        PlanView::Generate {
            headers: info.headers,
            clang_args: info.include_paths.map_values(|path: Seq<char>| include_arg(path)),
        }
    }
}

/// What to hand to the binding generator for a resolution.
pub fn plan(info: &LibInfo) -> (plan: Plan)
    ensures
        plan@ == plan_of(info@),
{
    if info.headers.len() == 0 {
        return Plan::Placeholder;
    }
    let mut clang_args: Vec<String> = Vec::new();
    let mut i: usize = 0;
    while i < info.include_paths.len()
        invariant
            i <= info.include_paths.len(),
            clang_args.len() == i,
            forall|j: int| 0 <= j < i ==> clang_args[j]@ == include_arg(info.include_paths[j]@),
        decreases info.include_paths.len() - i,
    {
        clang_args.push(concat("-I", info.include_paths[i].as_str()));
        i += 1;
    }
    assert(clang_args.deep_view() =~= info@.include_paths.map_values(
        |path: Seq<char>| include_arg(path),
    ));
    Plan::Generate { headers: copy_texts(&info.headers), clang_args }
}

/// A build that requests no package finds nothing and asks the host
/// nothing, so that only the placeholder is generated.
pub proof fn empty_request_finds_nothing(
    catalog: Catalog,
    world: World,
    platform: PlatformView,
    depth: nat,
)
    ensures
        requested_walk(catalog, world, platform, Seq::empty(), 0, depth) == Ok::<
            LibInfoView,
            HaltView,
        >(LibInfoView::empty()),
        plan_of(LibInfoView::empty()) == PlanView::Placeholder,
{
}

} // verus!
