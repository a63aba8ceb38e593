//! What the service reports to a caller when it cannot serve a request.

use crate::seqs::views;
use vstd::prelude::*;

verus! {

/// A failure in serving a graph request.
#[derive(Debug)]
pub enum GraphError {
    /// The client accepts none of the media types the server produces.
    InvalidContentType,
    /// The request lacks these mandatory query parameters.
    MissingParams(Vec<String>),
    /// The version table has no entry for its own default media type.
    MissingMinimumVersion,
    /// The requested resource does not exist.
    DoesNotExist(String),
    /// The requested resource exists and could not be read.
    FileOpenError(String),
}

/// The mathematical value of a [`GraphError`].
pub enum GraphErrorView {
    InvalidContentType,
    MissingParams(Seq<Seq<char>>),
    MissingMinimumVersion,
    DoesNotExist(Seq<char>),
    FileOpenError(Seq<char>),
}

impl View for GraphError {
    type V = GraphErrorView;

    open spec fn view(&self) -> GraphErrorView {
        match self {
            GraphError::InvalidContentType => GraphErrorView::InvalidContentType,
            GraphError::MissingParams(keys) => GraphErrorView::MissingParams(views(keys@)),
            GraphError::MissingMinimumVersion => GraphErrorView::MissingMinimumVersion,
            GraphError::DoesNotExist(what) => GraphErrorView::DoesNotExist(what@),
            GraphError::FileOpenError(what) => GraphErrorView::FileOpenError(what@),
        }
    }
}

} // verus!
