//! What each endpoint does with the store, from request to response. The
//! transport around it decodes, locks and encodes.

use crate::cache::CacheStore;
use crate::error::{CacheError, ErrorModel};
use crate::models::requests::key_problem;
use crate::models::responses::report;
use crate::models::{DeleteResponse, GetResponse, SetRequest, SetResponse};
use vstd::prelude::*;

verus! {

/// The answer to a store request, as of the time `now`.
///
/// A request whose key fails [`SetRequest::validate`] is refused and the store
/// stays as it is. Any other request goes to [`CacheStore::set_at`]; where
/// that succeeds the response names the key.
pub fn handle_set(store: &mut CacheStore, request: SetRequest, now: u64) -> (response: Result<
    SetResponse,
    CacheError,
>)
    requires
        old(store).well_formed(),
    ensures
        final(store).well_formed(),
        match key_problem(request.key@) {
            Some(problem) => {
                &&& final(store)@ == old(store)@
                &&& response matches Err(e) && e@ == ErrorModel::InvalidRequest(problem)
            },
            None => {
                &&& final(store)@ == old(store)@.after_set(
                    request.key@,
                    request.value@,
                    request.ttl,
                    now,
                )
                &&& match response {
                    Ok(r) => {
                        &&& old(store)@.set_outcome(request.key@, request.value@) is Ok
                        &&& r.key@ == request.key@
                        &&& r.message@ == report(request.key@, "set"@)
                    },
                    Err(e) => old(store)@.set_outcome(request.key@, request.value@) == Err::<
                        (),
                        ErrorModel,
                    >(e@),
                }
            },
        },
{
    match request.validate() {
        Some(problem) => Err(CacheError::InvalidRequest(problem)),
        None => {
            let key = request.key.clone();
            match store.set_at(request.key, request.value, request.ttl, now) {
                Ok(_) => Ok(SetResponse::new(key.as_str())),
                Err(e) => Err(e),
            }
        },
    }
}

/// The answer to a read request, as of the time `now`: what
/// [`CacheStore::get_at`] returns, a value together with its key.
pub fn handle_get(store: &mut CacheStore, key: &str, now: u64) -> (response: Result<
    GetResponse,
    CacheError,
>)
    requires
        old(store).well_formed(),
    ensures
        final(store).well_formed(),
        final(store)@ == old(store)@.after_get(key@, now),
        match response {
            Ok(r) => r.key@ == key@ && old(store)@.get_outcome(key@, now) == Ok::<
                Seq<char>,
                ErrorModel,
            >(r.value@),
            Err(e) => old(store)@.get_outcome(key@, now) == Err::<Seq<char>, ErrorModel>(e@),
        },
{
    match store.get_at(key, now) {
        Ok(value) => Ok(GetResponse::new(key, value.as_str())),
        Err(e) => Err(e),
    }
}

/// The answer to a delete request: what [`CacheStore::delete`] returns, with
/// a response that names the key where it succeeds.
pub fn handle_delete(store: &mut CacheStore, key: &str) -> (response: Result<
    DeleteResponse,
    CacheError,
>)
    requires
        old(store).well_formed(),
    ensures
        final(store).well_formed(),
        final(store)@ == old(store)@.after_delete(key@),
        match response {
            Ok(r) => {
                &&& old(store)@.delete_outcome(key@) is Ok
                &&& r.key@ == key@
                &&& r.message@ == report(key@, "deleted"@)
            },
            Err(e) => old(store)@.delete_outcome(key@) == Err::<(), ErrorModel>(e@),
        },
{
    match store.delete(key) {
        Ok(_) => Ok(DeleteResponse::new(key)),
        Err(e) => Err(e),
    }
}

} // verus!
