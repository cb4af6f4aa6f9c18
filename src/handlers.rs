use crate::id::{is_v4, new_id, parse_id, parsed_uuid};
use crate::store::{lists_exactly, Message, Store};
use vstd::prelude::*;

verus! {

/// Why a request was refused.
#[derive(Debug, Clone, Copy, PartialEq, Eq, Structural)]
pub enum ApiError {
    /// No record has the requested identifier.
    NotFound,
    /// The identifier in the path is not a UUID.
    BadRequest,
    /// The request body lacks a text `message` field.
    Validation,
}

impl ApiError {
    /// The HTTP status that reports this error.
    pub fn status(&self) -> (r: u16)
        ensures
            r == match self {
                ApiError::NotFound => 404u16,
                ApiError::BadRequest => 400u16,
                ApiError::Validation => 422u16,
            },
    {
        match self {
            ApiError::NotFound => 404,
            ApiError::BadRequest => 400,
            ApiError::Validation => 422,
        }
    }
}

/// A reply as a value: the record's view, or the error.
pub open spec fn reply_view(r: Result<Message, ApiError>) -> Result<(u128, Seq<char>), ApiError> {
    match r {
        Ok(m) => Ok(m@),
        Err(e) => Err(e),
    }
}

/// What reading `id` from the table `m` answers.
pub open spec fn get_outcome(m: Map<u128, Seq<char>>, id: u128) -> Result<(u128, Seq<char>), ApiError> {
    if m.contains_key(id) {
        Ok((id, m[id]))
    } else {
        Err(ApiError::NotFound)
    }
}

/// What replacing the text of `id` with `text` in `m` answers.
pub open spec fn update_outcome(m: Map<u128, Seq<char>>, id: u128, text: Seq<char>) -> Result<
    (u128, Seq<char>),
    ApiError,
> {
    if m.contains_key(id) {
        Ok((id, text))
    } else {
        Err(ApiError::NotFound)
    }
}

/// The table after replacing the text of `id` with `text` in `m`: an
/// unknown identifier leaves it as it was.
pub open spec fn after_update(m: Map<u128, Seq<char>>, id: u128, text: Seq<char>) -> Map<
    u128,
    Seq<char>,
> {
    if m.contains_key(id) {
        m.insert(id, text)
    } else {
        m
    }
}

/// What deleting `id` from `m` answers.
pub open spec fn delete_outcome(m: Map<u128, Seq<char>>, id: u128) -> Result<(), ApiError> {
    if m.contains_key(id) {
        Ok(())
    } else {
        Err(ApiError::NotFound)
    }
}

/// Every record of the store.
pub fn list(store: &Store) -> (r: Vec<Message>)
    ensures
        lists_exactly(r@, store@),
{
    store.list()
}

/// Creates a record holding the body's `message` under a fresh random
/// identifier; `payload` is `None` where the body lacked a text `message`.
pub fn post(store: &mut Store, payload: Option<String>) -> (r: Result<Message, ApiError>)
    ensures
        match payload {
            Some(message) => r matches Ok(m) && is_v4(m.id) && m.message@ == message@
                && final(store)@ == old(store)@.insert(m.id, message@),
            None => r == Err::<Message, ApiError>(ApiError::Validation) && final(store)@ == old(store)@,
        },
{
    match payload {
        Some(message) => {
            let id = new_id();
            Ok(store.insert(id, message))
        },
        None => Err(ApiError::Validation),
    }
}

/// The record stored under `id`.
pub fn get_by_id(store: &Store, id: u128) -> (r: Result<Message, ApiError>)
    ensures
        reply_view(r) == get_outcome(store@, id),
{
    match store.get(id) {
        Some(m) => Ok(m),
        None => Err(ApiError::NotFound),
    }
}

/// The record whose identifier `path_id` spells.
pub fn get(store: &Store, path_id: &str) -> (r: Result<Message, ApiError>)
    ensures
        match parsed_uuid(path_id@) {
            Some(id) => reply_view(r) == get_outcome(store@, id),
            None => reply_view(r) == Err::<(u128, Seq<char>), ApiError>(ApiError::BadRequest),
        },
{
    match parse_id(path_id) {
        Some(id) => get_by_id(store, id),
        None => Err(ApiError::BadRequest),
    }
}

/// Replaces the text of the record stored under `id` with `message`,
/// keeping its identifier; an unknown identifier is refused and the store
/// is left as it was.
pub fn update_by_id(store: &mut Store, id: u128, message: String) -> (r: Result<Message, ApiError>)
    ensures
        reply_view(r) == update_outcome(old(store)@, id, message@),
        final(store)@ == after_update(old(store)@, id, message@),
        !old(store)@.contains_key(id) ==> r == Err::<Message, ApiError>(ApiError::NotFound)
            && final(store)@ == old(store)@,
{
    match store.get(id) {
        Some(existing) => Ok(store.insert(existing.id, message)),
        None => Err(ApiError::NotFound),
    }
}

/// Replaces the text of the record whose identifier `path_id` spells with
/// the body's `message` (`payload` is `None` where the body lacked one). A
/// malformed identifier is reported before a malformed body, and that
/// before an unknown identifier.
pub fn update(store: &mut Store, path_id: &str, payload: Option<String>) -> (r: Result<
    Message,
    ApiError,
>)
    ensures
        match (parsed_uuid(path_id@), payload) {
            (None, _) => r == Err::<Message, ApiError>(ApiError::BadRequest) && final(store)@ == old(
                store,
            )@,
            (Some(_), None) => r == Err::<Message, ApiError>(ApiError::Validation) && final(store)@
                == old(store)@,
            (Some(id), Some(message)) => reply_view(r) == update_outcome(old(store)@, id, message@)
                && final(store)@ == after_update(old(store)@, id, message@),
        },
{
    match parse_id(path_id) {
        Some(id) => match payload {
            Some(message) => update_by_id(store, id, message),
            None => Err(ApiError::Validation),
        },
        None => Err(ApiError::BadRequest),
    }
}

/// Removes the record stored under `id`.
pub fn delete_by_id(store: &mut Store, id: u128) -> (r: Result<(), ApiError>)
    ensures
        r == delete_outcome(old(store)@, id),
        final(store)@ == old(store)@.remove(id),
{
    if store.remove(id) {
        Ok(())
    } else {
        Err(ApiError::NotFound)
    }
}

/// Removes the record whose identifier `path_id` spells.
pub fn delete(store: &mut Store, path_id: &str) -> (r: Result<(), ApiError>)
    ensures
        match parsed_uuid(path_id@) {
            Some(id) => r == delete_outcome(old(store)@, id) && final(store)@ == old(store)@.remove(id),
            None => r == Err::<(), ApiError>(ApiError::BadRequest) && final(store)@ == old(store)@,
        },
{
    match parse_id(path_id) {
        Some(id) => delete_by_id(store, id),
        None => Err(ApiError::BadRequest),
    }
}

} // verus!
