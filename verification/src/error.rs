//! The ways in which a cache operation can fail.

use vstd::prelude::*;
use vstd::string::StringExecFns;

verus! {

/// The mathematical content of a [`CacheError`]: the kind of failure and its
/// detail as a sequence of characters.
pub enum ErrorModel {
    NotFound(Seq<char>),
    Expired(Seq<char>),
    InvalidRequest(Seq<char>),
    CacheFull(Seq<char>),
    Internal(Seq<char>),
}

impl ErrorModel {
    /// The detail that the error carries: a key, or a sentence.
    pub open spec fn detail(self) -> Seq<char> {
        match self {
            ErrorModel::NotFound(key) => key,
            ErrorModel::Expired(key) => key,
            ErrorModel::InvalidRequest(reason) => reason,
            ErrorModel::CacheFull(reason) => reason,
            ErrorModel::Internal(reason) => reason,
        }
    }

    /// The words that introduce the detail in the error's text.
    pub open spec fn heading(self) -> Seq<char> {
        match self {
            ErrorModel::NotFound(_) => "Key not found: "@,
            ErrorModel::Expired(_) => "Key expired: "@,
            ErrorModel::InvalidRequest(_) => "Invalid request: "@,
            ErrorModel::CacheFull(_) => "Cache full: "@,
            ErrorModel::Internal(_) => "Internal error: "@,
        }
    }

    /// The error's text: heading, then detail.
    pub open spec fn text(self) -> Seq<char> {
        self.heading() + self.detail()
    }

    /// The HTTP status that reports the error: a missing and an expired key
    /// are both 404, a bad request 400, a full cache 503, anything else 500.
    pub open spec fn status_code(self) -> u16 {
        match self {
            ErrorModel::NotFound(_) => 404,
            ErrorModel::Expired(_) => 404,
            ErrorModel::InvalidRequest(_) => 400,
            ErrorModel::CacheFull(_) => 503,
            ErrorModel::Internal(_) => 500,
        }
    }
}

/// A failed cache operation.
#[derive(Debug)]
pub enum CacheError {
    /// The key is not in the cache.
    NotFound(String),
    /// The key was in the cache, but its time to live had run out.
    Expired(String),
    /// The request was refused before anything changed.
    InvalidRequest(String),
    /// The cache is full and nothing could be evicted.
    CacheFull(String),
    /// A condition that the cache's invariants rule out.
    Internal(String),
}

impl View for CacheError {
    type V = ErrorModel;

    open spec fn view(&self) -> ErrorModel {
        match self {
            CacheError::NotFound(key) => ErrorModel::NotFound(key@),
            CacheError::Expired(key) => ErrorModel::Expired(key@),
            CacheError::InvalidRequest(reason) => ErrorModel::InvalidRequest(reason@),
            CacheError::CacheFull(reason) => ErrorModel::CacheFull(reason@),
            CacheError::Internal(reason) => ErrorModel::Internal(reason@),
        }
    }
}

impl CacheError {
    /// The detail that the error carries, as a transport reports it.
    pub fn detail(&self) -> (detail: &String)
        ensures
            detail@ == self@.detail(),
    {
        match self {
            CacheError::NotFound(key) => key,
            CacheError::Expired(key) => key,
            CacheError::InvalidRequest(reason) => reason,
            CacheError::CacheFull(reason) => reason,
            CacheError::Internal(reason) => reason,
        }
    }

    /// The error's text: what kind of failure it is, then the detail.
    pub fn to_string(&self) -> (text: String)
        ensures
            text@ == self@.text(),
    {
        let heading = match self {
            CacheError::NotFound(_) => "Key not found: ",
            CacheError::Expired(_) => "Key expired: ",
            CacheError::InvalidRequest(_) => "Invalid request: ",
            CacheError::CacheFull(_) => "Cache full: ",
            CacheError::Internal(_) => "Internal error: ",
        };
        heading.to_owned().concat(self.detail().as_str())
    }

    /// The HTTP status that reports the error.
    pub fn status_code(&self) -> (code: u16)
        ensures
            code == self@.status_code(),
    {
        match self {
            CacheError::NotFound(_) => 404,
            CacheError::Expired(_) => 404,
            CacheError::InvalidRequest(_) => 400,
            CacheError::CacheFull(_) => 503,
            CacheError::Internal(_) => 500,
        }
    }
}

} // verus!
