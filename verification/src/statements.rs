//! The SQL text that the PostgreSQL-backed repository sends, and what it
//! makes of the answers.
//!
//! Names and addresses are written between single quotes as given; numbers
//! are written in decimal.

use vstd::prelude::*;
use crate::error::WebappError;
use crate::person::{Person, PersonNoId, PersonNoIdView, PersonView, views};
use crate::text::{i32_text, push_i32};

verus! {

/// Creates the `person` table unless it exists.
pub fn create_table_statement() -> (s: &'static str)
    ensures
        s@ == "\n            CREATE TABLE IF NOT EXISTS person (\n                id              INTEGER PRIMARY KEY,\n                name            VARCHAR NOT NULL,\n                age             INTEGER NOT NULL,\n                address         VARCHAR NOT NULL,\n                work            VARCHAR NOT NULL\n                )\n        "@,
{
    "\n            CREATE TABLE IF NOT EXISTS person (\n                id              INTEGER PRIMARY KEY,\n                name            VARCHAR NOT NULL,\n                age             INTEGER NOT NULL,\n                address         VARCHAR NOT NULL,\n                work            VARCHAR NOT NULL\n                )\n        "
}

/// Asks for the identifier that new identifiers are counted from: 0 when
/// the smallest stored one is 0, else the greatest stored one.
pub fn max_id_query() -> (s: &'static str)
    ensures
        s@ == "\n            SELECT case when min(id) = 0 then 0 else max(id) end FROM person;\n        "@,
{
    "\n            SELECT case when min(id) = 0 then 0 else max(id) end FROM person;\n        "
}

/// Asks for every stored person.
pub fn select_all_query() -> (s: &'static str)
    ensures
        s@ == "\n            SELECT * FROM person\n        "@,
{
    "\n            SELECT * FROM person\n        "
}

pub open spec fn select_person_text(id: i32) -> Seq<char> {
    "\n            SELECT * FROM person WHERE id = "@ + i32_text(id) + "\n        "@
}

pub open spec fn insert_person_text(id: i32, person: PersonNoIdView) -> Seq<char> {
    "\n            INSERT INTO person VALUES\n                ("@ + i32_text(id) + ", '"@
        + person.name + "', "@ + i32_text(person.age) + ", '"@ + person.address + "', '"@
        + person.work + "')\n        "@
}

pub open spec fn update_person_text(person: PersonView) -> Seq<char> {
    "\n            UPDATE person SET\n                name = '"@ + person.name
        + "',\n                age = "@ + i32_text(person.age)
        + ",\n                address = '"@ + person.address
        + "',\n                work = '"@ + person.work
        + "'\n            WHERE id = "@ + i32_text(person.id) + " \n        "@
}

pub open spec fn delete_person_text(id: i32) -> Seq<char> {
    "\n            DELETE FROM person WHERE id = "@ + i32_text(id) + "\n        "@
}

/// Asks for the person with `id`.
pub fn select_person_query(id: i32) -> (s: String)
    ensures
        s@ == select_person_text(id),
{
    let mut s = String::new();
    s.append("\n            SELECT * FROM person WHERE id = ");
    push_i32(&mut s, id);
    s.append("\n        ");
    assert(s@ =~= select_person_text(id));
    s
}

/// Stores `person` under `id`.
pub fn insert_person_statement(id: i32, person: &PersonNoId) -> (s: String)
    ensures
        s@ == insert_person_text(id, person@),
{
    let mut s = String::new();
    s.append("\n            INSERT INTO person VALUES\n                (");
    push_i32(&mut s, id);
    s.append(", '");
    s.append(person.name.as_str());
    s.append("', ");
    push_i32(&mut s, person.age);
    s.append(", '");
    s.append(person.address.as_str());
    s.append("', '");
    s.append(person.work.as_str());
    s.append("')\n        ");
    assert(s@ =~= insert_person_text(id, person@));
    s
}

/// Overwrites the stored person that carries `person.id`.
pub fn update_person_statement(person: &Person) -> (s: String)
    ensures
        s@ == update_person_text(person@),
{
    let mut s = String::new();
    s.append("\n            UPDATE person SET\n                name = '");
    s.append(person.name.as_str());
    s.append("',\n                age = ");
    push_i32(&mut s, person.age);
    s.append(",\n                address = '");
    s.append(person.address.as_str());
    s.append("',\n                work = '");
    s.append(person.work.as_str());
    s.append("'\n            WHERE id = ");
    push_i32(&mut s, person.id);
    s.append(" \n        ");
    assert(s@ =~= update_person_text(person@));
    s
}

/// Removes the person with `id`.
pub fn delete_person_statement(id: i32) -> (s: String)
    ensures
        s@ == delete_person_text(id),
{
    let mut s = String::new();
    s.append("\n            DELETE FROM person WHERE id = ");
    push_i32(&mut s, id);
    s.append("\n        ");
    assert(s@ =~= delete_person_text(id));
    s
}

/// The identifier for a new person, from the answer to [`max_id_query`]:
/// one more than the value of the first row, or 1 when the query failed or
/// gave no row.
pub fn id_after(found: Option<i32>) -> (id: i32)
    requires
        found matches Some(m) ==> m < i32::MAX,
    ensures
        id == match found {
            Some(m) => m + 1,
            None => 1,
        },
{
    match found {
        Some(m) => m + 1,
        None => 1,
    }
}

/// The person of the first row of an answer to [`select_person_query`],
/// or `NotFoundError` when the answer has no row.
pub fn first_person(rows: Vec<Person>) -> (r: Result<Person, WebappError>)
    ensures
        match r {
            Ok(p) => rows@.len() > 0 && p@ == views(rows@)[0],
            Err(e) => rows@.len() == 0 && e == WebappError::NotFoundError,
        },
{
    let mut rows = rows;
    if rows.len() == 0 {
        Err(WebappError::NotFoundError)
    } else {
        Ok(rows.swap_remove(0))
    }
}

} // verus!
