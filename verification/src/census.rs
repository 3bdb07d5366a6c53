//! The people of a country, in order of entry.

use vstd::prelude::*;
use crate::model::{CensusView, EntryView};
use crate::person::Person;

verus! {

/// The identity of one person of a census.
///
/// A token says nothing about the person's name and cannot be made up from
/// one: it is handed out when the person is entered and only compared
/// afterwards. In contracts it stands for the number the person was entered
/// under.
#[derive(Clone, Copy, Debug, PartialEq, Eq, Structural)]
pub struct PersonId {
    ordinal: usize,
}

impl View for PersonId {
    type V = nat;

    closed spec fn view(&self) -> nat {
        self.ordinal as nat
    }
}

impl PersonId {
    /// Two tokens stand for the same number exactly if they are equal.
    pub proof fn lemma_equal_views(self, other: PersonId)
        ensures
            self@ == other@ <==> self == other,
    {
    }
}

/// One person of the census with the identity they were entered under.
#[derive(Debug)]
struct Entry {
    id: PersonId,
    person: Person,
}

impl View for Entry {
    type V = EntryView;

    closed spec fn view(&self) -> EntryView {
        EntryView { id: self.id@, name: self.person@ }
    }
}

/// An ever-growing list of people.
///
/// Nobody leaves a census and nobody changes place in it. A person gets their
/// identity on entry and keeps it whatever they are called later.
#[derive(Debug)]
pub struct Census {
    entries: Vec<Entry>,
}

impl View for Census {
    type V = CensusView;

    closed spec fn view(&self) -> CensusView {
        CensusView { entries: Seq::new(self.entries@.len(), |i: int| self.entries@[i]@) }
    }
}

impl Census {
    /// The identities of the census are in order: see [`CensusView::wf`].
    pub open spec fn wf(&self) -> bool {
        self@.wf()
    }

    /// A census with nobody in it.
    pub fn new() -> (census: Census)
        ensures
            census.wf(),
            census@ == CensusView::empty(),
    {
        let census = Census { entries: Vec::new() };
        assert(census@.entries =~= Seq::empty());
        census
    }

    /// How many people have been entered.
    pub fn len(&self) -> (n: usize)
        ensures
            n == self@.len(),
    {
        self.entries.len()
    }

    /// Enters a person called `name` behind everybody else and returns the
    /// identity they are known by from now on, which nobody had before.
    pub fn append(&mut self, name: String) -> (id: PersonId)
        requires
            old(self).wf(),
        ensures
            final(self).wf(),
            final(self)@ == old(self)@.append(name@),
            id@ == old(self)@.next_id(),
            !old(self)@.knows(id@),
    {
        let id = PersonId { ordinal: self.entries.len() };
        self.entries.push(Entry { id, person: Person::new(name) });
        assert(self@.entries =~= old(self)@.append(name@).entries);
        id
    }

    /// Where the person with identity `id` stands, if the census knows them.
    fn position(&self, id: PersonId) -> (place: Option<usize>)
        requires
            self.wf(),
        ensures
            match place {
                Some(i) => self@.holds_at(i as int, id@),
                None => !self@.knows(id@),
            },
    {
        let mut i: usize = 0;
        while i < self.entries.len()
            invariant
                i <= self.entries.len(),
                forall|j: int| 0 <= j < i ==> !self@.holds_at(j, id@),
            decreases self.entries.len() - i,
        {
            if self.entries[i].id == id {
                return Some(i);
            }
            assert(self@.entries[i as int].id != id@);
            i += 1;
        }
        None
    }

    /// The identity of the first person in order of entry who is called
    /// `name` now, or nothing if nobody is.
    pub fn find_by_name(&self, name: &String) -> (found: Option<PersonId>)
        requires
            self.wf(),
        ensures
            found is Some <==> self@.has_name(name@),
            found matches Some(id) ==> self@.find_by_name(name@) == Some(id@),
    {
        let mut i: usize = 0;
        while i < self.entries.len()
            invariant
                i <= self.entries.len(),
                forall|j: int| 0 <= j < i ==> !self@.named_at(j, name@),
            decreases self.entries.len() - i,
        {
            if *self.entries[i].person.name() == *name {
                proof {
                    self@.lemma_find_by_name_first(i as int, name@);
                }
                return Some(self.entries[i].id);
            }
            i += 1;
        }
        None
    }

    /// The person with identity `id`, or nothing if the census knows no such
    /// person.
    pub fn resolve(&self, id: PersonId) -> (found: Option<&Person>)
        requires
            self.wf(),
        ensures
            found is Some <==> self@.knows(id@),
            found matches Some(person) ==> self@.name_of(id@) == Some(person@),
    {
        match self.position(id) {
            Some(i) => {
                proof {
                    self@.lemma_place_of(i as int, id@);
                }
                Some(&self.entries[i].person)
            },
            None => None,
        }
    }

    /// The person with identity `id`, to be renamed by the caller, or nothing
    /// if the census knows no such person.
    ///
    /// Whatever the caller does with the reference, the census afterwards
    /// differs from the one before in that person's name alone.
    pub fn resolve_mutable(&mut self, id: PersonId) -> (found: Option<&mut Person>)
        requires
            old(self).wf(),
        ensures
            final(self).wf(),
            found is Some <==> old(self)@.knows(id@),
            found matches Some(person) ==> old(self)@.name_of(id@) == Some((*person)@),
            found matches Some(person) ==> final(self)@ == old(self)@.rename(id@, (*final(person))@),
            found is None ==> final(self)@ == old(self)@,
    {
        match self.position(id) {
            Some(i) => {
                proof {
                    self@.lemma_place_of(i as int, id@);
                }
                let ghost last = *final(self);
                let entry = &mut self.entries[i];
                let person = &mut entry.person;
                proof {
                    let after = old(self)@.rename(id@, (*final(person))@);
                    assert(last@.entries =~= after.entries);
                }
                Some(person)
            },
            None => None,
        }
    }
}

} // verus!
