//! What a client sends.

use crate::cache::model::byte_len;
use vstd::prelude::*;

verus! {

/// What is wrong with the key of a request, if anything: it is empty, or
/// longer than 256 bytes.
pub open spec fn key_problem(key: Seq<char>) -> Option<Seq<char>> {
    if key.len() == 0 {
        Some("Key cannot be empty"@)
    } else if byte_len(key) > 256 {
        Some("Key exceeds maximum length of 256 characters"@)
    } else {
        None
    }
}

/// A text, if any, as its sequence of characters.
pub open spec fn text_view(text: Option<String>) -> Option<Seq<char>> {
    match text {
        Some(t) => Some(t@),
        None => None,
    }
}

/// The body of a request to store a value.
#[derive(Debug, Clone)]
pub struct SetRequest {
    /// The key to store under.
    pub key: String,
    /// The value to store.
    pub value: String,
    /// Seconds to live; the store's default where absent.
    pub ttl: Option<u64>,
}

impl SetRequest {
    /// Checks the key. Returns what is wrong with it, or `None` if it can be
    /// stored under.
    pub fn validate(&self) -> (problem: Option<String>)
        ensures
            text_view(problem) == key_problem(self.key@),
    {
        if self.key.as_str().is_empty() {
            return Some("Key cannot be empty".to_owned());
        }
        if self.key.as_str().as_bytes().len() > 256 {
            return Some("Key exceeds maximum length of 256 characters".to_owned());
        }
        None
    }
}

} // verus!
