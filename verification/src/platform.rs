//! The platform a build targets, and the filter a dependency may carry.
use vstd::prelude::*;
use crate::package::{Dependency, DependencyView};
use crate::text::same_text;

verus! {

/// The platform the build targets.
#[derive(Debug, PartialEq, Eq)]
pub struct Platform {
    /// The operating system's identifier, such as `linux`.
    pub os: String,
    /// Whether the platform belongs to the Unix family.
    pub unix: bool,
}

pub struct PlatformView {
    pub os: Seq<char>,
    pub unix: bool,
}

impl DeepView for Platform {
    type V = PlatformView;

    open spec fn deep_view(&self) -> PlatformView {
        PlatformView { os: self.os@, unix: self.unix }
    }
}

impl View for Platform {
    type V = PlatformView;

    open spec fn view(&self) -> PlatformView {
        self.deep_view()
    }
}

/// Whether `name` is one of the operating systems a filter can name.
pub open spec fn known_os(name: Seq<char>) -> bool {
    ||| name == "android"@
    ||| name == "dragonfly"@
    ||| name == "freebsd"@
    ||| name == "ios"@
    ||| name == "linux"@
    ||| name == "macos"@
    ||| name == "netbsd"@
    ||| name == "openbsd"@
    ||| name == "windows"@
}

/// Whether the platform is the one a filter names. `unix` names the whole
/// family; any other name must be a known operating system and the
/// platform's own.
pub open spec fn os_matches(name: Seq<char>, platform: PlatformView) -> bool {
    if name == "unix"@ {
        platform.unix
    } else {
        known_os(name) && name == platform.os
    }
}

/// Whether a dependency applies on the platform: it carries no filter, or
/// its filter names the platform.
pub open spec fn applies(dependency: DependencyView, platform: PlatformView) -> bool {
    match dependency.os {
        Some(name) => os_matches(name, platform),
        None => true,
    }
}

/// The names of the dependencies that apply on the platform, in the order
/// in which they are declared.
pub open spec fn active(
    dependencies: Seq<DependencyView>,
    platform: PlatformView,
) -> Seq<Seq<char>> {
    dependencies.filter(|d: DependencyView| applies(d, platform)).map_values(
        |d: DependencyView| d.name,
    )
}

fn is_known_os(name: &str) -> (known: bool)
    ensures
        known == known_os(name@),
{
    same_text(name, "android") || same_text(name, "dragonfly") || same_text(name, "freebsd")
        || same_text(name, "ios") || same_text(name, "linux") || same_text(name, "macos")
        || same_text(name, "netbsd") || same_text(name, "openbsd") || same_text(name, "windows")
}

/// Whether the platform is the one that `name` stands for.
pub fn match_os(name: &str, platform: &Platform) -> (matches: bool)
    ensures
        matches == os_matches(name@, platform@),
{
    if same_text(name, "unix") {
        platform.unix
    } else {
        is_known_os(name) && same_text(name, platform.os.as_str())
    }
}

/// Whether a dependency is to be probed on the platform.
pub fn check_os(dependency: &Dependency, platform: &Platform) -> (probe: bool)
    ensures
        probe == applies(dependency@, platform@),
{
    match &dependency.os {
        Some(name) => match_os(name.as_str(), platform),
        None => true,
    }
}

/// The names of the dependencies to probe on the platform, in the order in
/// which they are declared.
pub fn active_dependencies(
    dependencies: &Vec<Dependency>,
    platform: &Platform,
) -> (names: Vec<String>)
    ensures
        names.deep_view() == active(dependencies.deep_view(), platform@),
{
    let mut names: Vec<String> = Vec::new();
    let ghost all = dependencies.deep_view();
    let ghost keep = |d: DependencyView| applies(d, platform@);
    let ghost name_of = |d: DependencyView| d.name;
    let mut i: usize = 0;
    assert(all.take(0).filter(keep) =~= Seq::<DependencyView>::empty()) by {
        reveal_with_fuel(Seq::filter, 1);
    }
    while i < dependencies.len()
        invariant
            i <= dependencies.len(),
            all == dependencies.deep_view(),
            keep == |d: DependencyView| applies(d, platform@),
            name_of == |d: DependencyView| d.name,
            names.deep_view() =~= all.take(i as int).filter(keep).map_values(name_of),
        decreases dependencies.len() - i,
    {
        let ghost kept = all.take(i as int).filter(keep);
        let ghost listed = names.deep_view();
        proof {
            reveal_with_fuel(Seq::filter, 1);
            assert(all.take(i + 1).drop_last() =~= all.take(i as int));
            assert(all.take(i + 1).last() == dependencies[i as int]@);
        }
        if check_os(&dependencies[i], platform) {
            names.push(dependencies[i].name.clone());
            proof {
                assert(all.take(i + 1).filter(keep) == kept.push(dependencies[i as int]@));
                assert(names.deep_view() =~= listed.push(dependencies[i as int]@.name));
                assert(kept.push(dependencies[i as int]@).map_values(name_of) =~= kept.map_values(
                    name_of,
                ).push(dependencies[i as int]@.name));
            }
        } else {
            assert(all.take(i + 1).filter(keep) == kept);
        }
        i += 1;
    }
    assert(all.take(i as int) =~= all);
    names
}

/// A dependency that applies on the platform is always among those probed.
pub proof fn applicable_dependency_is_active(
    dependencies: Seq<DependencyView>,
    platform: PlatformView,
    i: int,
)
    requires
        0 <= i < dependencies.len(),
        applies(dependencies[i], platform),
    ensures
        active(dependencies, platform).contains(dependencies[i].name),
{
    let keep = |d: DependencyView| applies(d, platform);
    let kept = dependencies.filter(keep);
    dependencies.lemma_filter_contains(keep, i);
    let k = kept.index_of(dependencies[i]);
    assert(active(dependencies, platform)[k] == dependencies[i].name);
}

/// Only dependencies that apply on the platform are probed.
pub proof fn active_dependency_applies(
    dependencies: Seq<DependencyView>,
    platform: PlatformView,
    name: Seq<char>,
)
    requires
        active(dependencies, platform).contains(name),
    ensures
        exists|i: int|
            0 <= i < dependencies.len() && (#[trigger] dependencies[i]).name == name && applies(
                dependencies[i],
                platform,
            ),
{
    let keep = |d: DependencyView| applies(d, platform);
    let kept = dependencies.filter(keep);
    let k = active(dependencies, platform).index_of(name);
    assert(kept[k].name == name);
    dependencies.lemma_filter_pred(keep, k);
    assert(kept.contains(kept[k]));
    dependencies.lemma_filter_contains_rev(keep, kept[k]);
    let i = dependencies.index_of(kept[k]);
    assert(dependencies[i].name == name && applies(dependencies[i], platform));
}

/// A dependency limited to another platform is never probed: the names to
/// probe are those of the record without that dependency.
pub proof fn inapplicable_dependency_is_ignored(
    dependencies: Seq<DependencyView>,
    platform: PlatformView,
    i: int,
)
    requires
        0 <= i < dependencies.len(),
        !applies(dependencies[i], platform),
    ensures
        active(dependencies.remove(i), platform) == active(dependencies, platform),
{
    let keep = |d: DependencyView| applies(d, platform);
    let before = dependencies.take(i);
    let it = seq![dependencies[i]];
    let after = dependencies.skip(i + 1);
    assert(dependencies =~= before + it + after);
    assert(dependencies.remove(i) =~= before + after);
    assert(it.filter(keep) =~= Seq::<DependencyView>::empty()) by {
        reveal_with_fuel(Seq::filter, 2);
    }
    Seq::filter_distributes_over_add(before, it, keep);
    Seq::filter_distributes_over_add(before + it, after, keep);
    Seq::filter_distributes_over_add(before, after, keep);
    assert(dependencies.filter(keep) =~= dependencies.remove(i).filter(keep));
}

} // verus!
