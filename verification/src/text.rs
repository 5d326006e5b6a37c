//! Text helpers shared by the other modules.
use vstd::prelude::*;
use vstd::string::StringExecFns;

verus! {

/// Whether two texts hold the same characters.
pub fn same_text(a: &str, b: &str) -> (same: bool)
    ensures
        same == (a@ == b@),
{
    let left = String::from_str(a);
    let right = String::from_str(b);
    left == right
}

/// The text `a` followed by the text `b`.
pub fn concat(a: &str, b: &str) -> (joined: String)
    ensures
        joined@ == a@ + b@,
{
    String::from_str(a).concat(b)
}

/// Whether two lists hold the same texts in the same order.
pub fn same_texts(a: &Vec<String>, b: &Vec<String>) -> (same: bool)
    ensures
        same == (a.deep_view() == b.deep_view()),
{
    if a.len() != b.len() {
        assert(a.deep_view().len() != b.deep_view().len());
        return false;
    }
    let mut i: usize = 0;
    while i < a.len()
        invariant
            a.len() == b.len(),
            i <= a.len(),
            forall|j: int| 0 <= j < i ==> a[j]@ == b[j]@,
        decreases a.len() - i,
    {
        if !(a[i] == b[i]) {
            assert(a.deep_view()[i as int] != b.deep_view()[i as int]);
            return false;
        }
        i += 1;
    }
    assert(a.deep_view() =~= b.deep_view());
    true
}

/// A copy of a list of texts.
pub fn copy_texts(list: &Vec<String>) -> (copy: Vec<String>)
    ensures
        copy.deep_view() == list.deep_view(),
{
    let mut copy: Vec<String> = Vec::new();
    let mut i: usize = 0;
    while i < list.len()
        invariant
            i <= list.len(),
            copy.len() == i,
            forall|j: int| 0 <= j < i ==> copy[j]@ == list[j]@,
        decreases list.len() - i,
    {
        copy.push(list[i].clone());
        i += 1;
    }
    assert(copy.deep_view() =~= list.deep_view());
    copy
}

/// Adds a copy of each text of `source` to the end of `target`.
pub fn append_copies(target: &mut Vec<String>, source: &Vec<String>)
    ensures
        final(target).deep_view() == old(target).deep_view() + source.deep_view(),
{
    let ghost before = target.deep_view();
    let mut i: usize = 0;
    while i < source.len()
        invariant
            i <= source.len(),
            target.deep_view() =~= before + source.deep_view().take(i as int),
        decreases source.len() - i,
    {
        let ghost listed = target.deep_view();
        target.push(source[i].clone());
        assert(target.deep_view() =~= listed.push(source[i as int]@));
        assert(source.deep_view().take(i + 1) =~= source.deep_view().take(i as int).push(
            source[i as int]@,
        ));
        i += 1;
    }
    assert(source.deep_view().take(i as int) =~= source.deep_view());
}

} // verus!
