//! The repository interface of the directory and its in-memory
//! implementation.

use vstd::prelude::*;
use crate::error::WebappError;
use crate::person::{Person, PersonNoId, PersonView, views};
use crate::table::{
    has_id, index_of_id, lookup, max_id, next_id, next_id_fits, replaced, without_id,
    lemma_index_of_id, lemma_index_of_id_prefix, lemma_next_id_is_fresh,
    law_update_keeps_positions, law_read_after_update,
};

verus! {

/// A store of persons. Its contents are a table of persons in listing order;
/// each operation is described by what it does to that table.
pub trait PersonRepository {
    /// The stored persons, in the order in which `list` gives them.
    spec fn people(&self) -> Seq<PersonView>;

    /// Prepares the store; the stored persons stay as they are.
    fn init(&mut self) -> (r: Result<(), WebappError>)
        ensures
            final(self).people() == old(self).people(),
    ;

    /// Stores `person` under a new identifier and returns that identifier.
    fn create(&mut self, person: PersonNoId) -> (r: Result<i32, WebappError>)
        requires
            next_id_fits(old(self).people()),
        ensures
            match r {
                Ok(id) => {
                    &&& !has_id(old(self).people(), id)
                    &&& final(self).people() == old(self).people().push(person@.with_id(id))
                },
                Err(_) => final(self).people() == old(self).people(),
            },
    ;

    /// All stored persons, in order.
    fn list(&mut self) -> (r: Result<Vec<Person>, WebappError>)
        ensures
            final(self).people() == old(self).people(),
            r matches Ok(v) ==> views(v@) == old(self).people(),
    ;

    /// The stored person with `id`.
    fn get(&mut self, id: i32) -> (r: Result<Person, WebappError>)
        ensures
            final(self).people() == old(self).people(),
            r matches Ok(p) ==> lookup(old(self).people(), id) == Some(p@),
            r == Err::<Person, WebappError>(WebappError::NotFoundError) ==> lookup(old(self).people(), id) is None,
    ;

    /// Replaces the stored person that carries `person.id` with `person`,
    /// and returns the stored person.
    fn update(&mut self, person: Person) -> (r: Result<Person, WebappError>)
        requires
            has_id(old(self).people(), person.id),
        ensures
            match r {
                Ok(p) => {
                    &&& p@ == person@
                    &&& final(self).people() == replaced(old(self).people(), person@)
                },
                Err(_) => final(self).people() == old(self).people(),
            },
    ;

    /// Removes every stored person that carries `id`.
    fn delete(&mut self, id: i32) -> (r: Result<(), WebappError>)
        ensures
            match r {
                Ok(()) => final(self).people() == without_id(old(self).people(), id),
                Err(_) => final(self).people() == old(self).people(),
            },
    ;
}

/// A repository that keeps its persons in memory, in creation order.
pub struct MockRepository {
    persons: Vec<Person>,
}

impl MockRepository {
    /// An empty repository.
    pub fn new() -> (r: MockRepository)
        ensures
            r.people() == Seq::<PersonView>::empty(),
    {
        let r = MockRepository { persons: Vec::new() };
        assert(views(r.persons@) =~= Seq::<PersonView>::empty());
        r
    }

    /// The identifier that the next created person gets: 1 when the
    /// repository is empty, else one more than the greatest stored one.
    pub fn get_id(&self) -> (r: i32)
        requires
            next_id_fits(self.people()),
        ensures
            r == next_id(self.people()),
    {
        let ghost s = self.people();
        if self.persons.len() == 0 {
            return 1;
        }
        let mut max = self.persons[0].id;
        assert(s.take(1).len() == 1);
        let mut i: usize = 1;
        while i < self.persons.len()
            invariant
                1 <= i <= self.persons@.len(),
                s == views(self.persons@),
                max == max_id(s.take(i as int)),
            decreases self.persons@.len() - i,
        {
            assert(s.take(i + 1).drop_last() =~= s.take(i as int));
            if max < self.persons[i].id {
                max = self.persons[i].id;
            }
            i = i + 1;
        }
        assert(s.take(i as int) =~= s);
        max + 1
    }
}

impl PersonRepository for MockRepository {
    closed spec fn people(&self) -> Seq<PersonView> {
        views(self.persons@)
    }

    fn init(&mut self) -> (r: Result<(), WebappError>)
        ensures
            r is Ok,
    {
        Ok(())
    }

    fn create(&mut self, person: PersonNoId) -> (r: Result<i32, WebappError>)
        ensures
            r == Ok::<i32, WebappError>(next_id(old(self).people()) as i32),
    {
        let id = self.get_id();
        proof {
            lemma_next_id_is_fresh(old(self).people());
        }
        let stored = Person::from_submission(id, person);
        self.persons.push(stored);
        assert(views(self.persons@) =~= views(old(self).persons@).push(stored@));
        Ok(id)
    }

    fn list(&mut self) -> (r: Result<Vec<Person>, WebappError>)
        ensures
            r is Ok,
    {
        let ghost s = self.people();
        let mut out: Vec<Person> = Vec::new();
        let mut i: usize = 0;
        while i < self.persons.len()
            invariant
                i <= self.persons@.len(),
                s == views(self.persons@),
                views(out@) == s.take(i as int),
            decreases self.persons@.len() - i,
        {
            let p = self.persons[i].duplicate();
            let ghost before = out@;
            out.push(p);
            assert(p@ == s[i as int]);
            assert(views(out@) =~= views(before).push(p@));
            assert(s.take(i + 1) =~= s.take(i as int).push(s[i as int]));
            i = i + 1;
        }
        assert(s.take(i as int) =~= s);
        Ok(out)
    }

    fn get(&mut self, id: i32) -> (r: Result<Person, WebappError>)
        ensures
            match r {
                Ok(p) => lookup(old(self).people(), id) == Some(p@),
                Err(e) => e == WebappError::NotFoundError && lookup(old(self).people(), id) is None,
            },
    {
        let ghost s = self.people();
        let mut i: usize = 0;
        while i < self.persons.len()
            invariant
                i <= self.persons@.len(),
                s == views(self.persons@),
                index_of_id(s.take(i as int), id) == -1,
            decreases self.persons@.len() - i,
        {
            assert(s.take(i + 1).drop_last() =~= s.take(i as int));
            if self.persons[i].id == id {
                proof {
                    lemma_index_of_id_prefix(s, id, i + 1);
                }
                return Ok(self.persons[i].duplicate());
            }
            i = i + 1;
        }
        assert(s.take(i as int) =~= s);
        Err(WebappError::NotFoundError)
    }

    fn update(&mut self, person: Person) -> (r: Result<Person, WebappError>)
        ensures
            r is Ok,
            final(self).people().len() == old(self).people().len(),
            forall|j: int| 0 <= j < old(self).people().len() ==> #[trigger] final(self).people()[j].id == old(self).people()[j].id,
            forall|j: int| 0 <= j < old(self).people().len() && old(self).people()[j].id != person.id
                ==> #[trigger] final(self).people()[j] == old(self).people()[j],
            lookup(final(self).people(), person.id) == Some(person@),
    {
        let ghost s = self.people();
        proof {
            lemma_index_of_id(s, person.id);
        }
        let mut i: usize = 0;
        while i < self.persons.len()
            invariant
                i <= self.persons@.len(),
                s == views(self.persons@),
                index_of_id(s.take(i as int), person.id) == -1,
                s == old(self).people(),
                i <= index_of_id(s, person.id) < s.len(),
                s[index_of_id(s, person.id)].id == person.id,
            decreases self.persons@.len() - i,
        {
            assert(s.take(i + 1).drop_last() =~= s.take(i as int));
            if self.persons[i].id == person.id {
                proof {
                    lemma_index_of_id_prefix(s, person.id, i + 1);
                    assert(index_of_id(s.take(i + 1), person.id) == i);
                }
                let stored = person.duplicate();
                self.persons[i] = stored;
                assert(views(self.persons@) =~= replaced(s, person@));
                proof {
                    law_update_keeps_positions(s, person@);
                    law_read_after_update(s, person@, person.id);
                }
                return Ok(person);
            }
            i = i + 1;
        }
        assert(s.take(i as int) =~= s);
        proof {
            lemma_index_of_id(s, person.id);
        }
        Ok(person)
    }

    fn delete(&mut self, id: i32) -> (r: Result<(), WebappError>)
        ensures
            r is Ok,
    {
        let ghost s = self.people();
        let mut kept: Vec<Person> = Vec::new();
        let mut i: usize = 0;
        while i < self.persons.len()
            invariant
                i <= self.persons@.len(),
                s == views(self.persons@),
                views(kept@) == without_id(s.take(i as int), id),
            decreases self.persons@.len() - i,
        {
            proof {
                assert(s.take(i + 1) =~= s.take(i as int).push(s[i as int]));
                s.take(i as int).lemma_filter_push(s[i as int], |p: PersonView| p.id != id);
            }
            if self.persons[i].id != id {
                let p = self.persons[i].duplicate();
                kept.push(p);
                assert(views(kept@) =~= without_id(s.take(i as int), id).push(p@));
            }
            i = i + 1;
        }
        assert(s.take(i as int) =~= s);
        self.persons = kept;
        Ok(())
    }
}

} // verus!
