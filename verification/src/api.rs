//! What a service around the expander answers.

use vstd::prelude::*;
use vstd::string::*;
use crate::error::{Error, ErrorView};
use crate::expansion::TermExpansions;

verus! {

/// A module as a service lists it.
#[derive(Debug, Clone)]
pub struct ModuleInfo {
    pub id: String,
    pub name: String,
    pub kind: String,
}

/// The mathematical value of a [`ModuleInfo`].
pub struct ModuleInfoView {
    pub id: Seq<char>,
    pub name: Seq<char>,
    pub kind: Seq<char>,
}

impl View for ModuleInfo {
    type V = ModuleInfoView;

    open spec fn view(&self) -> ModuleInfoView {
        ModuleInfoView { id: self.id@, name: self.name@, kind: self.kind@ }
    }
}

impl ModuleInfo {
    pub fn new(id: &str, name: &str, kind: &str) -> (r: Self)
        ensures
            r@ == (ModuleInfoView { id: id@, name: name@, kind: kind@ }),
    {
        ModuleInfo { id: id.to_owned(), name: name.to_owned(), kind: kind.to_owned() }
    }
}

/// The values of a sequence of listed modules.
pub open spec fn info_views(v: Seq<ModuleInfo>) -> Seq<ModuleInfoView> {
    Seq::new(v.len(), |i: int| v[i]@)
}

/// An answer of the service.
#[derive(Debug)]
pub enum ApiResponse {
    /// The expansion of a query.
    QueryExpansion {
        /// The terms and their expansions.
        terms: TermExpansions,
        /// The query as it came in.
        original_query: String,
        /// The query with each term in a slot.
        query_expansion_template: String,
        /// The query with each term replaced by its expansions.
        query: String,
    },
    /// The modules of the service.
    Modules(Vec<ModuleInfo>),
}

impl ApiResponse {
    /// The answer to a query.
    pub fn new_queryexpansion(
        terms: TermExpansions,
        query: &str,
        query_expansion_template: &str,
        resolved_query: &str,
    ) -> (r: Self)
        ensures
            r matches ApiResponse::QueryExpansion {
                terms: t,
                original_query: o,
                query_expansion_template: q,
                query: e,
            } && t == terms && o@ == query@ && q@ == query_expansion_template@ && e@
                == resolved_query@,
    {
        ApiResponse::QueryExpansion {
            terms,
            original_query: query.to_owned(),
            query_expansion_template: query_expansion_template.to_owned(),
            query: resolved_query.to_owned(),
        }
    }
}

/// A failure of the service.
#[derive(Debug)]
pub enum ApiError {
    InternalError(&'static str),
    NotFound(&'static str),
    NotAcceptable(&'static str),
    PermissionDenied(&'static str),
    MissingArgument(&'static str),
    /// A failure of the library.
    Error(Error),
}

/// The mathematical value of an [`ApiError`].
pub enum ApiErrorView {
    InternalError(Seq<char>),
    NotFound(Seq<char>),
    NotAcceptable(Seq<char>),
    PermissionDenied(Seq<char>),
    MissingArgument(Seq<char>),
    Error(ErrorView),
}

impl View for ApiError {
    type V = ApiErrorView;

    open spec fn view(&self) -> ApiErrorView {
        match *self {
            ApiError::InternalError(s) => ApiErrorView::InternalError(s@),
            ApiError::NotFound(s) => ApiErrorView::NotFound(s@),
            ApiError::NotAcceptable(s) => ApiErrorView::NotAcceptable(s@),
            ApiError::PermissionDenied(s) => ApiErrorView::PermissionDenied(s@),
            ApiError::MissingArgument(s) => ApiErrorView::MissingArgument(s@),
            ApiError::Error(e) => ApiErrorView::Error(e@),
        }
    }
}

impl ApiErrorView {
    /// The status with which the failure is answered: 500 for an internal
    /// error, 403 where permission is denied, 406 for what is not
    /// acceptable, 404 for everything else.
    pub open spec fn status(self) -> u16 {
        match self {
            ApiErrorView::InternalError(_) => 500,
            ApiErrorView::PermissionDenied(_) => 403,
            ApiErrorView::NotAcceptable(_) => 406,
            _ => 404,
        }
    }

    /// The name of the kind of failure.
    pub open spec fn name(self) -> Seq<char> {
        match self {
            ApiErrorView::InternalError(_) => "InternalError"@,
            ApiErrorView::NotFound(_) => "NotFound"@,
            ApiErrorView::NotAcceptable(_) => "NotAcceptable"@,
            ApiErrorView::PermissionDenied(_) => "PermissionDenied"@,
            ApiErrorView::MissingArgument(_) => "MissingArgument"@,
            ApiErrorView::Error(_) => "Error"@,
        }
    }

    /// What the failure says.
    pub open spec fn message(self) -> Seq<char> {
        match self {
            ApiErrorView::InternalError(s) => s,
            ApiErrorView::NotFound(s) => s,
            ApiErrorView::NotAcceptable(s) => s,
            ApiErrorView::PermissionDenied(s) => s,
            ApiErrorView::MissingArgument(s) => s,
            ApiErrorView::Error(e) => e.detail(),
        }
    }
}

impl ApiError {
    /// The status with which the failure is answered.
    pub fn status(&self) -> (r: u16)
        ensures
            r == self@.status(),
    {
        match self {
            ApiError::InternalError(_) => 500,
            ApiError::PermissionDenied(_) => 403,
            ApiError::NotAcceptable(_) => 406,
            _ => 404,
        }
    }

    /// The name of the kind of failure.
    pub fn name(&self) -> (r: &'static str)
        ensures
            r@ == self@.name(),
    {
        match self {
            ApiError::InternalError(_) => "InternalError",
            ApiError::NotFound(_) => "NotFound",
            ApiError::NotAcceptable(_) => "NotAcceptable",
            ApiError::PermissionDenied(_) => "PermissionDenied",
            ApiError::MissingArgument(_) => "MissingArgument",
            ApiError::Error(_) => "Error",
        }
    }

    /// What the failure says.
    pub fn message(&self) -> (r: &str)
        ensures
            r@ == self@.message(),
    {
        match self {
            ApiError::InternalError(s) => s,
            ApiError::NotFound(s) => s,
            ApiError::NotAcceptable(s) => s,
            ApiError::PermissionDenied(s) => s,
            ApiError::MissingArgument(s) => s,
            ApiError::Error(e) => e.detail(),
        }
    }

    /// The failure of the library as one of the service.
    pub fn from_error(e: Error) -> (r: Self)
        ensures
            r@ == ApiErrorView::Error(e@),
    {
        ApiError::Error(e)
    }
}

} // verus!
