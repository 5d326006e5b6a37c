//! The result a resolution accumulates.
use vstd::prelude::*;
use crate::text::concat;

verus! {

/// A signal for the build orchestrator.
#[derive(Debug, PartialEq, Eq)]
pub enum Directive {
    /// Search this directory for native libraries.
    LinkSearch(String),
    /// Link the library of this name.
    LinkLib(String),
}

pub enum DirectiveView {
    LinkSearch(Seq<char>),
    LinkLib(Seq<char>),
}

impl DeepView for Directive {
    type V = DirectiveView;

    open spec fn deep_view(&self) -> DirectiveView {
        match self {
            Directive::LinkSearch(dir) => DirectiveView::LinkSearch(dir@),
            Directive::LinkLib(name) => DirectiveView::LinkLib(name@),
        }
    }
}

impl View for Directive {
    type V = DirectiveView;

    open spec fn view(&self) -> DirectiveView {
        self.deep_view()
    }
}

impl DirectiveView {
    /// The line that announces the directive to the build orchestrator.
    pub open spec fn line(self) -> Seq<char> {
        match self {
            DirectiveView::LinkSearch(dir) => "cargo:rustc-link-search=native="@ + dir,
            DirectiveView::LinkLib(name) => "cargo:rustc-link-lib="@ + name,
        }
    }
}

impl Directive {
    /// The line that announces the directive to the build orchestrator.
    pub fn line(&self) -> (line: String)
        ensures
            line@ == self@.line(),
    {
        match self {
            Directive::LinkSearch(dir) => concat("cargo:rustc-link-search=native=", dir.as_str()),
            Directive::LinkLib(name) => concat("cargo:rustc-link-lib=", name.as_str()),
        }
    }
}

/// What a resolution has found: where to look for libraries and headers,
/// which headers to read, and which directives to raise. Each list keeps the
/// order of discovery and may hold an entry more than once.
#[derive(Debug, PartialEq, Eq)]
pub struct LibInfo {
    pub link_paths: Vec<String>,
    pub include_paths: Vec<String>,
    pub headers: Vec<String>,
    pub directives: Vec<Directive>,
}

pub struct LibInfoView {
    pub link_paths: Seq<Seq<char>>,
    pub include_paths: Seq<Seq<char>>,
    pub headers: Seq<Seq<char>>,
    pub directives: Seq<DirectiveView>,
}

impl LibInfoView {
    /// The result that holds nothing.
    pub open spec fn empty() -> LibInfoView {
        LibInfoView {
            link_paths: Seq::empty(),
            include_paths: Seq::empty(),
            headers: Seq::empty(),
            directives: Seq::empty(),
        }
    }

    /// This result followed by `other`, list by list.
    pub open spec fn extend(self, other: LibInfoView) -> LibInfoView {
        LibInfoView {
            link_paths: self.link_paths + other.link_paths,
            include_paths: self.include_paths + other.include_paths,
            headers: self.headers + other.headers,
            directives: self.directives + other.directives,
        }
    }

    /// Whether `self` is what `other` began with: every list of `self` is a
    /// prefix of the same list of `other`.
    pub open spec fn is_prefix_of(self, other: LibInfoView) -> bool {
        &&& self.link_paths.is_prefix_of(other.link_paths)
        &&& self.include_paths.is_prefix_of(other.include_paths)
        &&& self.headers.is_prefix_of(other.headers)
        &&& self.directives.is_prefix_of(other.directives)
    }
}

impl DeepView for LibInfo {
    type V = LibInfoView;

    open spec fn deep_view(&self) -> LibInfoView {
        LibInfoView {
            link_paths: self.link_paths.deep_view(),
            include_paths: self.include_paths.deep_view(),
            headers: self.headers.deep_view(),
            directives: self.directives.deep_view(),
        }
    }
}

impl View for LibInfo {
    type V = LibInfoView;

    open spec fn view(&self) -> LibInfoView {
        self.deep_view()
    }
}

impl LibInfo {
    /// The result that holds nothing.
    pub fn new() -> (info: LibInfo)
        ensures
            info@ == LibInfoView::empty(),
    {
        let info = LibInfo {
            link_paths: Vec::new(),
            include_paths: Vec::new(),
            headers: Vec::new(),
            directives: Vec::new(),
        };
        assert(info@.link_paths =~= Seq::empty());
        assert(info@.include_paths =~= Seq::empty());
        assert(info@.headers =~= Seq::empty());
        assert(info@.directives =~= Seq::empty());
        info
    }

    /// Moves everything `other` holds to the end of this result.
    pub fn append(&mut self, other: LibInfo)
        ensures
            final(self)@ == old(self)@.extend(other@),
    {
        let mut other = other;
        let ghost before = self@;
        let ghost added = other@;
        self.link_paths.append(&mut other.link_paths);
        self.include_paths.append(&mut other.include_paths);
        self.headers.append(&mut other.headers);
        self.directives.append(&mut other.directives);
        assert(self@.link_paths =~= before.link_paths + added.link_paths);
        assert(self@.include_paths =~= before.include_paths + added.include_paths);
        assert(self@.headers =~= before.headers + added.headers);
        assert(self@.directives =~= before.directives + added.directives);
    }
}

impl Default for LibInfo {
    fn default() -> (info: LibInfo)
        ensures
            info@ == LibInfoView::empty(),
    {
        LibInfo::new()
    }
}

/// Extending a result by the empty one leaves it as it is.
pub proof fn lemma_extend_empty(info: LibInfoView)
    ensures
        info.extend(LibInfoView::empty()) == info,
        LibInfoView::empty().extend(info) == info,
{
    let right = info.extend(LibInfoView::empty());
    assert(right.link_paths =~= info.link_paths);
    assert(right.include_paths =~= info.include_paths);
    assert(right.headers =~= info.headers);
    assert(right.directives =~= info.directives);
    let left = LibInfoView::empty().extend(info);
    assert(left.link_paths =~= info.link_paths);
    assert(left.include_paths =~= info.include_paths);
    assert(left.headers =~= info.headers);
    assert(left.directives =~= info.directives);
}

/// Extending is associative.
pub proof fn lemma_extend_assoc(a: LibInfoView, b: LibInfoView, c: LibInfoView)
    ensures
        a.extend(b).extend(c) == a.extend(b.extend(c)),
{
    let left = a.extend(b).extend(c);
    let right = a.extend(b.extend(c));
    assert(left.link_paths =~= right.link_paths);
    assert(left.include_paths =~= right.include_paths);
    assert(left.headers =~= right.headers);
    assert(left.directives =~= right.directives);
}

/// A result is what any extension of it begins with.
pub proof fn lemma_extend_grows(a: LibInfoView, b: LibInfoView)
    ensures
        a.is_prefix_of(a.extend(b)),
{
    let whole = a.extend(b);
    assert(whole.link_paths.subrange(0, a.link_paths.len() as int) =~= a.link_paths);
    assert(whole.include_paths.subrange(0, a.include_paths.len() as int) =~= a.include_paths);
    assert(whole.headers.subrange(0, a.headers.len() as int) =~= a.headers);
    assert(whole.directives.subrange(0, a.directives.len() as int) =~= a.directives);
}

} // verus!
