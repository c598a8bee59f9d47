//! The two ways in which the library fails.

use vstd::prelude::*;
use vstd::string::*;

verus! {

/// A failure of the library.
#[derive(Debug, Clone)]
pub enum Error {
    /// A module could not be loaded.
    LoadError(String),
    /// A module could not expand a query with the parameters it was given.
    QueryExpandError(String),
}

/// The mathematical value of an [`Error`].
pub enum ErrorView {
    LoadError(Seq<char>),
    QueryExpandError(Seq<char>),
}

impl View for Error {
    type V = ErrorView;

    open spec fn view(&self) -> ErrorView {
        match *self {
            Error::LoadError(s) => ErrorView::LoadError(s@),
            Error::QueryExpandError(s) => ErrorView::QueryExpandError(s@),
        }
    }
}

impl ErrorView {
    /// The text that comes with the failure.
    pub open spec fn detail(self) -> Seq<char> {
        match self {
            ErrorView::LoadError(s) => s,
            ErrorView::QueryExpandError(s) => s,
        }
    }

    /// What stands before the detail when the failure is shown.
    pub open spec fn label(self) -> Seq<char> {
        match self {
            ErrorView::LoadError(_) => "[Load error] "@,
            ErrorView::QueryExpandError(_) => "[Query expansion error] "@,
        }
    }

    /// The failure as it is shown: its label, then its detail.
    pub open spec fn shown(self) -> Seq<char> {
        self.label() + self.detail()
    }
}

impl Error {
    /// A load failure with the given detail.
    pub fn load(detail: &str) -> (e: Error)
        ensures
            e@ == ErrorView::LoadError(detail@),
    {
        Error::LoadError(detail.to_owned())
    }

    /// A query expansion failure with the given detail.
    pub fn query_expand(detail: &str) -> (e: Error)
        ensures
            e@ == ErrorView::QueryExpandError(detail@),
    {
        Error::QueryExpandError(detail.to_owned())
    }

    /// A copy.
    pub fn duplicate(&self) -> (r: Error)
        ensures
            r@ == self@,
    {
        match self {
            Error::LoadError(s) => Error::LoadError(s.clone()),
            Error::QueryExpandError(s) => Error::QueryExpandError(s.clone()),
        }
    }

    /// The text that comes with the failure.
    pub fn detail(&self) -> (r: &str)
        ensures
            r@ == self@.detail(),
    {
        match self {
            Error::LoadError(s) => s.as_str(),
            Error::QueryExpandError(s) => s.as_str(),
        }
    }

    /// The failure as it is shown: `[Load error] ` or
    /// `[Query expansion error] `, then the detail.
    pub fn to_string(&self) -> (r: String)
        ensures
            r@ == self@.shown(),
    {
        match self {
            Error::LoadError(s) => {
                let mut r = String::new();
                r.append("[Load error] ");
                r.append(s.as_str());
                assert(r@ =~= self@.shown());
                r
            },
            Error::QueryExpandError(s) => {
                let mut r = String::new();
                r.append("[Query expansion error] ");
                r.append(s.as_str());
                assert(r@ =~= self@.shown());
                r
            },
        }
    }
}

} // verus!
