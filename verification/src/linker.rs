//! Matching the libraries a record declares against what is installed.
use vstd::prelude::*;
use vstd::string::{StrSliceExecFns, StringExecFns};
use crate::failure::{agrees, Failure, Halt, HaltView};
use crate::host::{Host, Query, QueryView, World};
use crate::lib_info::{Directive, DirectiveView};
use crate::package::{LibGroup, LibGroupView, Libs, LibsView};
use crate::path::{join, joined};

verus! {

/// Whether a file name begins with the conventional `lib`.
pub open spec fn has_lib_prefix(file: Seq<char>) -> bool {
    file.len() >= 3 && file[0] == 'l' && file[1] == 'i' && file[2] == 'b'
}

/// The position of the last `.` in a file name that has one.
pub open spec fn last_dot(file: Seq<char>) -> int {
    choose|i: int|
        0 <= i < file.len() && file[i] == '.' && forall|j: int|
            i < j < file.len() ==> file[j] != '.'
}

/// The name under which a library file is linked: the file name without a
/// leading `lib` and without what follows its last `.`, that `.` included.
pub open spec fn link_name_of(file: Seq<char>) -> Seq<char> {
    let start = if has_lib_prefix(file) {
        3
    } else {
        0int
    };
    let end = if file.contains('.') {
        last_dot(file)
    } else {
        file.len() as int
    };
    file.subrange(start, end)
}

/// The name under which the library file `lib_name` is linked.
pub fn get_link_name(lib_name: &str) -> (link_name: String)
    ensures
        link_name@ == link_name_of(lib_name@),
{
    let len: usize = lib_name.unicode_len();
    let mut end: usize = len;
    let mut found = false;
    while end > 0 && !found
        invariant
            end <= len,
            len == lib_name@.len(),
            found ==> end < len && lib_name@[end as int] == '.',
            forall|j: int|
                (if found { end + 1 } else { end as int }) <= j < len ==> lib_name@[j] != '.',
        decreases end + (if found { 0int } else { 1int }),
    {
        if lib_name.get_char(end - 1) == '.' {
            found = true;
        }
        end = end - 1;
    }
    if !found {
        end = len;
    }
    let lib = len >= 3 && lib_name.get_char(0) == 'l' && lib_name.get_char(1) == 'i'
        && lib_name.get_char(2) == 'b';
    let start: usize = if lib {
        3
    } else {
        0
    };
    proof {
        if found {
            assert(lib_name@.contains('.'));
            assert(last_dot(lib_name@) == end);
        } else {
            assert(!lib_name@.contains('.'));
        }
    }
    String::from_str(lib_name.substring_char(start, end))
}

/// The first of `files`, from position `from` on, that exists in the
/// library directory; `None` where none of them does.
pub open spec fn first_installed(
    world: World,
    lib_dir: Seq<char>,
    files: Seq<Seq<char>>,
    from: int,
) -> Result<Option<Seq<char>>, HaltView>
    decreases files.len() - from,
{
    if from < 0 || from >= files.len() {
        Ok(None)
    } else {
        match joined(lib_dir, files[from]) {
            None => Err(HaltView::Failed(Failure::NotText, files[from])),
            Some(path) => match world.paths.get(path) {
                None => Err(HaltView::Needs(QueryView::Path(path))),
                Some(true) => Ok(Some(files[from])),
                Some(false) => first_installed(world, lib_dir, files, from + 1),
            },
        }
    }
}

/// The directives for the groups from position `from` on: one for each
/// group, for the first of its candidates that is installed. A group of
/// which no candidate is installed is a failure.
pub open spec fn group_directives(
    world: World,
    lib_dir: Seq<char>,
    groups: Seq<LibGroupView>,
    from: int,
) -> Result<Seq<DirectiveView>, HaltView>
    decreases groups.len() - from,
{
    if from < 0 || from >= groups.len() {
        Ok(Seq::empty())
    } else {
        match first_installed(world, lib_dir, groups[from].candidates, 0) {
            Err(halt) => Err(halt),
            Ok(None) => Err(HaltView::Failed(Failure::MissingLibrary, groups[from].name)),
            Ok(Some(file)) => match group_directives(world, lib_dir, groups, from + 1) {
                Err(halt) => Err(halt),
                Ok(rest) => Ok(seq![DirectiveView::LinkLib(link_name_of(file))] + rest),
            },
        }
    }
}

/// The directives for the files from position `from` on: one for each file.
/// A file that is not installed is a failure.
pub open spec fn file_directives(
    world: World,
    lib_dir: Seq<char>,
    files: Seq<Seq<char>>,
    from: int,
) -> Result<Seq<DirectiveView>, HaltView>
    decreases files.len() - from,
{
    if from < 0 || from >= files.len() {
        Ok(Seq::empty())
    } else {
        match joined(lib_dir, files[from]) {
            None => Err(HaltView::Failed(Failure::NotText, files[from])),
            Some(path) => match world.paths.get(path) {
                None => Err(HaltView::Needs(QueryView::Path(path))),
                Some(false) => Err(HaltView::Failed(Failure::MissingLibrary, files[from])),
                Some(true) => match file_directives(world, lib_dir, files, from + 1) {
                    Err(halt) => Err(halt),
                    Ok(rest) => Ok(seq![DirectiveView::LinkLib(link_name_of(files[from]))] + rest),
                },
            },
        }
    }
}

/// The directives for the libraries a record declares, given the directory
/// they are installed in.
pub open spec fn lib_directives(
    world: World,
    lib_dir: Seq<char>,
    libs: LibsView,
) -> Result<Seq<DirectiveView>, HaltView> {
    match libs {
        LibsView::Groups(groups) => group_directives(world, lib_dir, groups, 0),
        LibsView::Flat(files) => file_directives(world, lib_dir, files, 0),
    }
}

/// The directives for the libraries below an installation prefix: those of
/// its `lib` directory.
pub open spec fn prefix_directives(
    world: World,
    prefix: Seq<char>,
    libs: LibsView,
) -> Result<Seq<DirectiveView>, HaltView> {
    match joined(prefix, "lib"@) {
        None => Err(HaltView::Failed(Failure::NotText, prefix)),
        Some(lib_dir) => lib_directives(world, lib_dir, libs),
    }
}

/// Whether the host says that `entry` exists in `dir`.
fn installed(host: &Host, dir: &str, entry: &str) -> (found: Result<bool, Halt>)
    ensures
        agrees(
            found,
            match joined(dir@, entry@) {
                None => Err(HaltView::Failed(Failure::NotText, entry@)),
                Some(path) => match host@.paths.get(path) {
                    None => Err(HaltView::Needs(QueryView::Path(path))),
                    Some(exists) => Ok(exists),
                },
            },
        ),
{
    match join(dir, entry) {
        None => Err(Halt::Failed(Failure::NotText, String::from_str(entry))),
        Some(path) => match host.path(path.as_str()) {
            None => Err(Halt::Needs(Query::Path(path))),
            Some(exists) => Ok(exists),
        },
    }
}

fn find_installed<'a>(
    host: &Host,
    lib_dir: &str,
    files: &'a Vec<String>,
) -> (found: Result<Option<&'a String>, Halt>)
    ensures
        agrees(found, first_installed(host@, lib_dir@, files.deep_view(), 0)),
{
    let mut i: usize = 0;
    while i < files.len()
        invariant
            i <= files.len(),
            first_installed(host@, lib_dir@, files.deep_view(), 0) == first_installed(
                host@,
                lib_dir@,
                files.deep_view(),
                i as int,
            ),
        decreases files.len() - i,
    {
        match installed(host, lib_dir, files[i].as_str()) {
            Err(halt) => {
                return Err(halt);
            },
            Ok(true) => {
                return Ok(Some(&files[i]));
            },
            Ok(false) => {},
        }
        i += 1;
    }
    Ok(None)
}

fn emit_groups(
    host: &Host,
    lib_dir: &str,
    groups: &Vec<LibGroup>,
    directives: &mut Vec<Directive>,
) -> (done: Result<(), Halt>)
    ensures
        match group_directives(host@, lib_dir@, groups.deep_view(), 0) {
            Ok(emitted) => done is Ok && final(directives).deep_view() == old(
                directives,
            ).deep_view() + emitted,
            Err(halt) => done matches Err(e) && e@ == halt,
        },
{
    let ghost before = directives.deep_view();
    let ghost all = groups.deep_view();
    let ghost emitted = Seq::<DirectiveView>::empty();
    let mut i: usize = 0;
    while i < groups.len()
        invariant
            i <= groups.len(),
            all == groups.deep_view(),
            directives.deep_view() == before + emitted,
            match group_directives(host@, lib_dir@, all, i as int) {
                Ok(rest) => group_directives(host@, lib_dir@, all, 0) == Ok::<
                    Seq<DirectiveView>,
                    HaltView,
                >(emitted + rest),
                Err(halt) => group_directives(host@, lib_dir@, all, 0) == Err::<
                    Seq<DirectiveView>,
                    HaltView,
                >(halt),
            },
        decreases groups.len() - i,
    {
        assert(all[i as int].candidates == groups[i as int].candidates.deep_view());
        match find_installed(host, lib_dir, &groups[i].candidates) {
            Err(halt) => {
                return Err(halt);
            },
            Ok(None) => {
                return Err(Halt::Failed(Failure::MissingLibrary, groups[i].name.clone()));
            },
            Ok(Some(file)) => {
                let ghost listed = directives.deep_view();
                let directive = Directive::LinkLib(get_link_name(file.as_str()));
                directives.push(directive);
                proof {
                    assert(directives.deep_view() =~= listed.push(directive@));
                    let next = emitted.push(directive@);
                    match group_directives(host@, lib_dir@, all, i + 1) {
                        Ok(rest) => {
                            assert(emitted + (seq![directive@] + rest) =~= next + rest);
                        },
                        Err(_) => {},
                    }
                    assert(before + next =~= listed.push(directive@));
                    emitted = next;
                }
            },
        }
        i += 1;
    }
    assert(before + emitted + Seq::<DirectiveView>::empty() =~= before + emitted);
    assert(emitted + Seq::<DirectiveView>::empty() =~= emitted);
    Ok(())
}

fn emit_files(
    host: &Host,
    lib_dir: &str,
    files: &Vec<String>,
    directives: &mut Vec<Directive>,
) -> (done: Result<(), Halt>)
    ensures
        match file_directives(host@, lib_dir@, files.deep_view(), 0) {
            Ok(emitted) => done is Ok && final(directives).deep_view() == old(
                directives,
            ).deep_view() + emitted,
            Err(halt) => done matches Err(e) && e@ == halt,
        },
{
    let ghost before = directives.deep_view();
    let ghost all = files.deep_view();
    let ghost emitted = Seq::<DirectiveView>::empty();
    let mut i: usize = 0;
    while i < files.len()
        invariant
            i <= files.len(),
            all == files.deep_view(),
            directives.deep_view() == before + emitted,
            match file_directives(host@, lib_dir@, all, i as int) {
                Ok(rest) => file_directives(host@, lib_dir@, all, 0) == Ok::<
                    Seq<DirectiveView>,
                    HaltView,
                >(emitted + rest),
                Err(halt) => file_directives(host@, lib_dir@, all, 0) == Err::<
                    Seq<DirectiveView>,
                    HaltView,
                >(halt),
            },
        decreases files.len() - i,
    {
        match installed(host, lib_dir, files[i].as_str()) {
            Err(halt) => {
                return Err(halt);
            },
            Ok(false) => {
                return Err(Halt::Failed(Failure::MissingLibrary, files[i].clone()));
            },
            Ok(true) => {
                let ghost listed = directives.deep_view();
                let directive = Directive::LinkLib(get_link_name(files[i].as_str()));
                directives.push(directive);
                proof {
                    assert(directives.deep_view() =~= listed.push(directive@));
                    let next = emitted.push(directive@);
                    match file_directives(host@, lib_dir@, all, i + 1) {
                        Ok(rest) => {
                            assert(emitted + (seq![directive@] + rest) =~= next + rest);
                        },
                        Err(_) => {},
                    }
                    assert(before + next =~= listed.push(directive@));
                    emitted = next;
                }
            },
        }
        i += 1;
    }
    assert(emitted + Seq::<DirectiveView>::empty() =~= emitted);
    Ok(())
}

/// Adds the directives for the libraries in `lib_dir` to `directives`. On a
/// halt the list may already hold some of them.
pub(crate) fn emit_libs(
    host: &Host,
    lib_dir: &str,
    libs: &Libs,
    directives: &mut Vec<Directive>,
) -> (done: Result<(), Halt>)
    ensures
        match lib_directives(host@, lib_dir@, libs@) {
            Ok(emitted) => done is Ok && final(directives).deep_view() == old(
                directives,
            ).deep_view() + emitted,
            Err(halt) => done matches Err(e) && e@ == halt,
        },
{
    match libs {
        Libs::Groups(groups) => emit_groups(host, lib_dir, groups, directives),
        Libs::Flat(files) => emit_files(host, lib_dir, files, directives),
    }
}

/// The directives for the libraries that `libs` declares, looked for in the
/// `lib` directory below `prefix`. Of each group the first candidate that
/// the host reports as existing is linked; of a flat list every file is.
pub fn emit_cargo_meta_for_libs(
    host: &Host,
    prefix: &str,
    libs: &Libs,
) -> (emitted: Result<Vec<Directive>, Halt>)
    ensures
        agrees(emitted, prefix_directives(host@, prefix@, libs@)),
{
    match join(prefix, "lib") {
        None => Err(Halt::Failed(Failure::NotText, String::from_str(prefix))),
        Some(lib_dir) => {
            let mut directives: Vec<Directive> = Vec::new();
            assert(directives.deep_view() =~= Seq::<DirectiveView>::empty());
            match emit_libs(host, lib_dir.as_str(), libs, &mut directives) {
                Err(halt) => Err(halt),
                Ok(()) => {
                    proof {
                        let emitted = lib_directives(host@, lib_dir@, libs@)->Ok_0;
                        assert(Seq::<DirectiveView>::empty() + emitted =~= emitted);
                    }
                    Ok(directives)
                },
            }
        },
    }
}

} // verus!
