//! The records that the directory keeps, and the abstract values that the
//! contracts speak of.

use vstd::prelude::*;

verus! {

/// A stored person, identified by `id`.
#[derive(Debug, Clone, PartialEq, Eq)]
pub struct Person {
    pub id: i32,
    pub name: String,
    pub age: i32,
    pub address: String,
    pub work: String,
}

/// A person as submitted for creation: everything but the identifier.
#[derive(Debug, Clone, PartialEq, Eq)]
pub struct PersonNoId {
    pub name: String,
    pub age: i32,
    pub address: String,
    pub work: String,
}

/// A partial change to a person: each field that is present replaces the
/// stored one.
#[derive(Debug, Clone, PartialEq, Eq)]
pub struct PersonPatch {
    pub name: Option<String>,
    pub age: Option<i32>,
    pub address: Option<String>,
    pub work: Option<String>,
}

/// The abstract value of a [`Person`].
pub struct PersonView {
    pub id: i32,
    pub name: Seq<char>,
    pub age: i32,
    pub address: Seq<char>,
    pub work: Seq<char>,
}

/// The abstract value of a [`PersonNoId`].
pub struct PersonNoIdView {
    pub name: Seq<char>,
    pub age: i32,
    pub address: Seq<char>,
    pub work: Seq<char>,
}

/// The abstract value of a [`PersonPatch`].
pub struct PersonPatchView {
    pub name: Option<Seq<char>>,
    pub age: Option<i32>,
    pub address: Option<Seq<char>>,
    pub work: Option<Seq<char>>,
}

impl View for Person {
    type V = PersonView;

    open spec fn view(&self) -> PersonView {
        PersonView {
            id: self.id,
            name: self.name@,
            age: self.age,
            address: self.address@,
            work: self.work@,
        }
    }
}

impl View for PersonNoId {
    type V = PersonNoIdView;

    open spec fn view(&self) -> PersonNoIdView {
        PersonNoIdView {
            name: self.name@,
            age: self.age,
            address: self.address@,
            work: self.work@,
        }
    }
}

pub open spec fn option_text_view(o: Option<String>) -> Option<Seq<char>> {
    match o {
        Some(s) => Some(s@),
        None => None,
    }
}

impl View for PersonPatch {
    type V = PersonPatchView;

    open spec fn view(&self) -> PersonPatchView {
        PersonPatchView {
            name: option_text_view(self.name),
            age: self.age,
            address: option_text_view(self.address),
            work: option_text_view(self.work),
        }
    }
}

impl PersonNoIdView {
    /// The person that this submission becomes once it is given `id`.
    pub open spec fn with_id(self, id: i32) -> PersonView {
        PersonView { id, name: self.name, age: self.age, address: self.address, work: self.work }
    }
}

/// Keeps `current` where the change holds nothing, takes the change's value otherwise.
pub open spec fn patched<T>(current: T, change: Option<T>) -> T {
    match change {
        Some(v) => v,
        None => current,
    }
}

impl PersonPatchView {
    /// `person` with every field that the patch holds replaced; the
    /// identifier is never changed.
    pub open spec fn applied_to(self, person: PersonView) -> PersonView {
        PersonView {
            id: person.id,
            name: patched(person.name, self.name),
            age: patched(person.age, self.age),
            address: patched(person.address, self.address),
            work: patched(person.work, self.work),
        }
    }
}

/// The abstract values of a sequence of persons, in order.
pub open spec fn views(persons: Seq<Person>) -> Seq<PersonView> {
    persons.map_values(|p: Person| p@)
}

impl Person {
    /// Builds the stored person from a submission and its new identifier.
    pub fn from_submission(id: i32, person: PersonNoId) -> (r: Person)
        ensures
            r@ == person@.with_id(id),
    {
        Person { id, name: person.name, age: person.age, address: person.address, work: person.work }
    }

    /// A field-by-field copy of this person.
    pub fn duplicate(&self) -> (r: Person)
        ensures
            r@ == self@,
    {
        Person {
            id: self.id,
            name: self.name.clone(),
            age: self.age,
            address: self.address.clone(),
            work: self.work.clone(),
        }
    }
}

impl PersonPatch {
    /// Applies this change to `person`: each present field replaces the
    /// stored one (name, then age, then work, then address); the identifier
    /// is kept.
    pub fn apply_to(self, person: Person) -> (r: Person)
        ensures
            r@ == self@.applied_to(person@),
            r.id == person.id,
            self.name matches Some(n) ==> r.name == n,
            self.name is None ==> r.name == person.name,
            self.age matches Some(a) ==> r.age == a,
            self.age is None ==> r.age == person.age,
            self.address matches Some(a) ==> r.address == a,
            self.address is None ==> r.address == person.address,
            self.work matches Some(w) ==> r.work == w,
            self.work is None ==> r.work == person.work,
    {
        let mut current = person;
        if let Some(name) = self.name {
            current.name = name;
        }
        if let Some(age) = self.age {
            current.age = age;
        }
        if let Some(work) = self.work {
            current.work = work;
        }
        if let Some(address) = self.address {
            current.address = address;
        }
        current
    }
}

/// Each field that a change holds replaces the stored one and each field
/// that it does not hold is kept; a change never touches the identifier, a change that holds nothing
/// leaves the person as it is, and applying the same change twice is
/// applying it once.
pub proof fn law_patch(patch: PersonPatchView, person: PersonView)
    ensures
        patch.name matches Some(n) ==> patch.applied_to(person).name == n,
        patch.name is None ==> patch.applied_to(person).name == person.name,
        patch.age matches Some(a) ==> patch.applied_to(person).age == a,
        patch.age is None ==> patch.applied_to(person).age == person.age,
        patch.address matches Some(a) ==> patch.applied_to(person).address == a,
        patch.address is None ==> patch.applied_to(person).address == person.address,
        patch.work matches Some(w) ==> patch.applied_to(person).work == w,
        patch.work is None ==> patch.applied_to(person).work == person.work,
        patch.applied_to(person).id == person.id,
        (patch.name is None && patch.age is None && patch.address is None && patch.work is None)
            ==> patch.applied_to(person) == person,
        patch.applied_to(patch.applied_to(person)) == patch.applied_to(person),
{
}

} // verus!
