//! What the web service answers, decided from what the repository returned.
//!
//! Each handler of the service locks the repository, makes one or two
//! calls, and answers; the functions here take the results of those calls
//! and give the answer. A failed call is answered by rejecting the request
//! as not found.

use vstd::prelude::*;
use crate::person::{Person, PersonPatch};
use crate::routes::{location_path, location_text};

verus! {

/// The body of a successful answer.
#[derive(Debug, PartialEq, Eq)]
pub enum ReplyBody {
    /// One person, sent as JSON.
    Person(Person),
    /// A list of persons, sent as a JSON array.
    People(Vec<Person>),
    /// A short text.
    Message(String),
}

/// A successful answer: its status code, its body and, for a created
/// person, the path that it can be read under.
#[derive(Debug, PartialEq, Eq)]
pub struct Reply {
    pub status: u16,
    pub body: ReplyBody,
    pub location: Option<String>,
}

/// Why a request is refused.
#[derive(Debug, Clone, Copy, PartialEq, Eq, Structural)]
pub enum Rejection {
    /// Answered with status 404.
    NotFound,
}

/// The answer to `GET /api/v1/persons`: the listed persons with status
/// 200, or not found when listing failed.
pub fn list_reply<E>(listed: Result<Vec<Person>, E>) -> (r: Result<Reply, Rejection>)
    ensures
        match listed {
            Ok(v) => r == Ok::<Reply, Rejection>(Reply { status: 200, body: ReplyBody::People(v), location: None }),
            Err(_) => r == Err::<Reply, Rejection>(Rejection::NotFound),
        },
{
    match listed {
        Ok(persons) => Ok(Reply { status: 200, body: ReplyBody::People(persons), location: None }),
        Err(_) => Err(Rejection::NotFound),
    }
}

/// The answer to `GET /api/v1/persons/{id}`: the person with status 200,
/// or not found when the repository gave none.
pub fn get_reply<E>(found: Result<Person, E>) -> (r: Result<Reply, Rejection>)
    ensures
        match found {
            Ok(p) => r == Ok::<Reply, Rejection>(Reply { status: 200, body: ReplyBody::Person(p), location: None }),
            Err(_) => r == Err::<Reply, Rejection>(Rejection::NotFound),
        },
{
    match found {
        Ok(person) => Ok(Reply { status: 200, body: ReplyBody::Person(person), location: None }),
        Err(_) => Err(Rejection::NotFound),
    }
}

/// The answer to `POST /api/v1/persons`: status 201, the text
/// `Created person`, and the new person's path as its location; or a
/// rejection when creating failed.
pub fn create_reply<E>(created: Result<i32, E>) -> (r: Result<Reply, Rejection>)
    ensures
        match created {
            Ok(id) => r matches Ok(reply) && {
                &&& reply.status == 201
                &&& reply.body matches ReplyBody::Message(m) && m@ == "Created person"@
                &&& reply.location matches Some(l) && l@ == location_text(id)
            },
            Err(_) => r == Err::<Reply, Rejection>(Rejection::NotFound),
        },
{
    match created {
        Ok(id) => {
            let location = location_path(id);
            Ok(Reply { status: 201, body: ReplyBody::Message(String::from_str("Created person")), location: Some(location) })
        },
        Err(_) => Err(Rejection::NotFound),
    }
}

/// The answer to `DELETE /api/v1/persons/{id}`: status 204 with the text
/// `Deleted person`, or not found when deleting failed.
pub fn delete_reply<E>(deleted: Result<(), E>) -> (r: Result<Reply, Rejection>)
    ensures
        match deleted {
            Ok(()) => r matches Ok(reply) && {
                &&& reply.status == 204
                &&& reply.body matches ReplyBody::Message(m) && m@ == "Deleted person"@
                &&& reply.location is None
            },
            Err(_) => r == Err::<Reply, Rejection>(Rejection::NotFound),
        },
{
    match deleted {
        Ok(()) => Ok(Reply { status: 204, body: ReplyBody::Message(String::from_str("Deleted person")), location: None }),
        Err(_) => Err(Rejection::NotFound),
    }
}

/// The first step of `PATCH /api/v1/persons/{id}`: from the stored person,
/// the person to write back, with the change applied; or not found when
/// the repository gave no person.
pub fn patch_target<E>(found: Result<Person, E>, patch: PersonPatch) -> (r: Result<Person, Rejection>)
    ensures
        match found {
            Ok(p) => r matches Ok(q) && q@ == patch@.applied_to(p@),
            Err(_) => r == Err::<Person, Rejection>(Rejection::NotFound),
        },
{
    match found {
        Ok(person) => Ok(patch.apply_to(person)),
        Err(_) => Err(Rejection::NotFound),
    }
}

/// The last step of `PATCH /api/v1/persons/{id}`: the person as the
/// repository stored it, with status 200; or a rejection when the update
/// failed.
pub fn update_reply<E>(updated: Result<Person, E>) -> (r: Result<Reply, Rejection>)
    ensures
        match updated {
            Ok(p) => r == Ok::<Reply, Rejection>(Reply { status: 200, body: ReplyBody::Person(p), location: None }),
            Err(_) => r == Err::<Reply, Rejection>(Rejection::NotFound),
        },
{
    match updated {
        Ok(person) => Ok(Reply { status: 200, body: ReplyBody::Person(person), location: None }),
        Err(_) => Err(Rejection::NotFound),
    }
}

} // verus!
