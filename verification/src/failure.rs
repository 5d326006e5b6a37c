//! Why a resolution stopped before it was complete.
use vstd::prelude::*;
use crate::host::{Query, QueryView};

verus! {

/// The reasons for which a resolution cannot succeed. None of them is
/// recoverable: a build that went on with part of its native libraries would
/// only fail later.
#[derive(Debug, Clone, Copy, PartialEq, Eq, Structural)]
pub enum Failure {
    /// Neither the registry nor the executable search found the package.
    NotFound,
    /// The executable that was found does not lie directly in a directory
    /// named `bin` below an installation prefix.
    OutsideBin,
    /// The include directory derived from the prefix does not exist.
    MissingDirectory,
    /// A library that the record declares is not installed.
    MissingLibrary,
    /// The record declares no libraries although they are needed.
    MissingLibs,
    /// The registry could not be asked for its include directory, or its
    /// answer was no text.
    Unreadable,
    /// A path cannot be written as text.
    NotText,
    /// Full dependencies are nested deeper than the configured limit, as
    /// they are when they form a cycle.
    TooDeep,
}

/// What ended a resolution early.
#[derive(Debug, PartialEq, Eq)]
pub enum Halt {
    /// An answer is missing from the host. Once it is recorded the
    /// resolution can be run again.
    Needs(Query),
    /// The resolution cannot succeed; the text names what it failed on.
    Failed(Failure, String),
}

pub enum HaltView {
    Needs(QueryView),
    Failed(Failure, Seq<char>),
}

impl DeepView for Halt {
    type V = HaltView;

    open spec fn deep_view(&self) -> HaltView {
        match self {
            Halt::Needs(query) => HaltView::Needs(query@),
            Halt::Failed(reason, subject) => HaltView::Failed(*reason, subject@),
        }
    }
}

impl View for Halt {
    type V = HaltView;

    open spec fn view(&self) -> HaltView {
        self.deep_view()
    }
}

/// Whether a step did what its definition says: it gave the value that was
/// defined, or halted for the reason that was defined.
pub open spec fn agrees<T: DeepView>(got: Result<T, Halt>, want: Result<T::V, HaltView>) -> bool {
    match (got, want) {
        (Ok(value), Ok(wanted)) => value.deep_view() == wanted,
        (Err(halt), Err(wanted)) => halt@ == wanted,
        _ => false,
    }
}

} // verus!
