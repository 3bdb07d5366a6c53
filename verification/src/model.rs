//! The mathematical model of a census and of a country.
//!
//! The executable types are described by the values of this module, and every
//! operation on them by a function here from the value before to the value
//! after. The lemmas beside them say what those functions keep and change.

use vstd::prelude::*;

verus! {

/// One person of a census: who they are, and what they are called.
pub struct EntryView {
    pub id: nat,
    pub name: Seq<char>,
}

/// The people of a census, in order of entry.
pub struct CensusView {
    pub entries: Seq<EntryView>,
}

impl CensusView {
    /// The census nobody has been entered in.
    pub open spec fn empty() -> CensusView {
        CensusView { entries: Seq::empty() }
    }

    /// How many people have been entered.
    pub open spec fn len(self) -> nat {
        self.entries.len()
    }

    /// Entry `i` is the person whose identity is `id`.
    pub open spec fn holds_at(self, i: int, id: nat) -> bool {
        0 <= i < self.entries.len() && self.entries[i].id == id
    }

    /// Entry `i` is a person called `name`.
    pub open spec fn named_at(self, i: int, name: Seq<char>) -> bool {
        0 <= i < self.entries.len() && self.entries[i].name == name
    }

    /// Every identity was handed out by this census, and none of them twice.
    ///
    /// Identities are handed out in rising order from zero, so all of them lie
    /// below the number of entries, and that number itself is always free.
    pub open spec fn wf(self) -> bool {
        &&& forall|i: int|
            0 <= i < self.entries.len() ==> (#[trigger] self.entries[i]).id < self.entries.len()
        &&& forall|i: int, j: int|
            0 <= i < j < self.entries.len() ==> (#[trigger] self.entries[i]).id != (
            #[trigger] self.entries[j]).id
    }

    /// Somebody of the census has identity `id`.
    pub open spec fn knows(self, id: nat) -> bool {
        exists|i: int| self.holds_at(i, id)
    }

    /// Where the person with identity `id` stands, if the census knows them.
    pub open spec fn place_of(self, id: nat) -> int {
        choose|i: int| self.holds_at(i, id)
    }

    /// What the person with identity `id` is called, if the census knows them.
    pub open spec fn name_of(self, id: nat) -> Option<Seq<char>> {
        if self.knows(id) {
            Some(self.entries[self.place_of(id)].name)
        } else {
            None
        }
    }

    /// Somebody of the census is called `name`.
    pub open spec fn has_name(self, name: Seq<char>) -> bool {
        exists|i: int| self.named_at(i, name)
    }

    /// Entry `i` is called `name`, and nobody entered before is.
    pub open spec fn first_named_at(self, i: int, name: Seq<char>) -> bool {
        &&& self.named_at(i, name)
        &&& forall|j: int| 0 <= j < i ==> !self.named_at(j, name)
    }

    /// The identity of the first person called `name`, if anybody is.
    pub open spec fn find_by_name(self, name: Seq<char>) -> Option<nat> {
        if self.has_name(name) {
            Some(self.entries[choose|i: int| self.first_named_at(i, name)].id)
        } else {
            None
        }
    }

    /// The identity that the next person entered will get.
    pub open spec fn next_id(self) -> nat {
        self.entries.len()
    }

    /// The census after a person called `name` has been entered.
    pub open spec fn append(self, name: Seq<char>) -> CensusView {
        CensusView { entries: self.entries.push(EntryView { id: self.next_id(), name }) }
    }

    /// The census after the person with identity `id` has taken the name
    /// `name`; the same census if it knows no such person.
    pub open spec fn rename(self, id: nat, name: Seq<char>) -> CensusView {
        if self.knows(id) {
            CensusView { entries: self.entries.update(self.place_of(id), EntryView { id, name }) }
        } else {
            self
        }
    }

    /// In a well-formed census a person stands where their identity is held.
    pub proof fn lemma_place_of(self, i: int, id: nat)
        requires
            self.wf(),
            self.holds_at(i, id),
        ensures
            self.knows(id),
            self.place_of(id) == i,
            self.name_of(id) == Some(self.entries[i].name),
    {
        let p = self.place_of(id);
        assert(self.holds_at(p, id));
        if p < i {
            assert(self.entries[p].id != self.entries[i].id);
        } else if i < p {
            assert(self.entries[i].id != self.entries[p].id);
        }
    }

    /// Among the people called `name`, one was entered before all others.
    pub proof fn lemma_first_named_exists(self, i: int, name: Seq<char>)
        requires
            self.named_at(i, name),
        ensures
            exists|k: int| 0 <= k <= i && self.first_named_at(k, name),
        decreases i,
    {
        if exists|j: int| 0 <= j < i && self.named_at(j, name) {
            let j = choose|j: int| 0 <= j < i && self.named_at(j, name);
            self.lemma_first_named_exists(j, name);
            let k = choose|k: int| 0 <= k <= j && self.first_named_at(k, name);
            assert(0 <= k <= i && self.first_named_at(k, name));
        } else {
            assert(self.first_named_at(i, name));
        }
    }

    /// The search by name gives the identity held at the first entry so called.
    pub proof fn lemma_find_by_name_first(self, i: int, name: Seq<char>)
        requires
            self.first_named_at(i, name),
        ensures
            self.find_by_name(name) == Some(self.entries[i].id),
    {
        assert(self.named_at(i, name));
        let k = choose|k: int| self.first_named_at(k, name);
        assert(self.first_named_at(k, name));
        if k < i {
            assert(!self.named_at(k, name));
        } else if i < k {
            assert(!self.named_at(i, name));
        }
    }

    /// What the search by name gives: the identity of a known person who is
    /// called `name` and before whom nobody is, or nothing where nobody is
    /// called `name`.
    pub proof fn lemma_find_by_name(self, name: Seq<char>)
        requires
            self.wf(),
        ensures
            match self.find_by_name(name) {
                Some(id) => {
                    &&& self.knows(id)
                    &&& self.first_named_at(self.place_of(id), name)
                    &&& self.name_of(id) == Some(name)
                },
                None => forall|i: int| !self.named_at(i, name),
            },
    {
        if self.has_name(name) {
            let i = choose|i: int| self.named_at(i, name);
            self.lemma_first_named_exists(i, name);
            let k = choose|k: int| self.first_named_at(k, name);
            self.lemma_place_of(k, self.entries[k].id);
        }
    }

    /// Entering somebody leaves everybody else as they were: the newcomer
    /// gets an identity that nobody had, and stands last under the name
    /// given.
    pub proof fn lemma_append(self, name: Seq<char>)
        requires
            self.wf(),
        ensures
            self.append(name).wf(),
            self.append(name).len() == self.len() + 1,
            !self.knows(self.next_id()),
            self.append(name).name_of(self.next_id()) == Some(name),
            forall|i: int| 0 <= i < self.len() ==> self.append(name).entries[i] == self.entries[i],
            forall|id: nat| self.knows(id) ==> self.append(name).name_of(id) == self.name_of(id),
            forall|id: nat|
                self.append(name).knows(id) <==> self.knows(id) || id == self.next_id(),
    {
        let after = self.append(name);
        let last = self.len() as int;
        assert(after.holds_at(last, self.next_id()));
        after.lemma_place_of(last, self.next_id());
        assert forall|id: nat| self.knows(id) implies after.name_of(id) == self.name_of(id) by {
            let i = self.place_of(id);
            assert(after.holds_at(i, id));
            after.lemma_place_of(i, id);
        }
        assert forall|id: nat| after.knows(id) implies self.knows(id) || id == self.next_id() by {
            let i = after.place_of(id);
            if i < last {
                assert(self.holds_at(i, id));
            }
        }
    }

    /// Renaming somebody changes that person's name and nothing else:
    /// everybody keeps their place and identity, and everybody else their
    /// name.
    pub proof fn lemma_rename(self, id: nat, name: Seq<char>)
        requires
            self.wf(),
        ensures
            self.rename(id, name).wf(),
            self.rename(id, name).len() == self.len(),
            forall|i: int|
                0 <= i < self.len() ==> (#[trigger] self.rename(id, name).entries[i]).id
                    == self.entries[i].id,
            forall|i: int|
                0 <= i < self.len() && self.entries[i].id != id ==> (#[trigger] self.rename(
                    id,
                    name,
                ).entries[i]) == self.entries[i],
            forall|other: nat| self.rename(id, name).knows(other) <==> self.knows(other),
            forall|other: nat|
                other != id ==> self.rename(id, name).name_of(other) == self.name_of(other),
            self.knows(id) ==> self.rename(id, name).name_of(id) == Some(name),
    {
        let after = self.rename(id, name);
        if self.knows(id) {
            let p = self.place_of(id);
            assert(self.holds_at(p, id));
            assert forall|i: int| 0 <= i < self.len() implies (#[trigger] after.entries[i]).id
                == self.entries[i].id by {}
            assert forall|i: int| 0 <= i < self.len() && self.entries[i].id != id implies (
            #[trigger] after.entries[i]) == self.entries[i] by {}
            assert(after.wf());
            assert forall|other: nat| after.knows(other) <==> self.knows(other) by {
                if after.knows(other) {
                    let i = after.place_of(other);
                    assert(self.holds_at(i, other));
                }
                if self.knows(other) {
                    let i = self.place_of(other);
                    assert(after.holds_at(i, other));
                }
            }
            assert forall|other: nat| other != id implies after.name_of(other) == self.name_of(
                other,
            ) by {
                if self.knows(other) {
                    let i = self.place_of(other);
                    assert(self.holds_at(i, other));
                    assert(after.holds_at(i, other));
                    after.lemma_place_of(i, other);
                }
            }
            assert(after.holds_at(p, id));
            after.lemma_place_of(p, id);
        }
    }
}

/// What can happen to a country.
pub enum Event {
    /// A person of this name is entered.
    Enter(Seq<char>),
    /// The crown goes to this name.
    Crown(Seq<char>),
    /// The king takes this name.
    RenameKing(Seq<char>),
}

/// A country: its census, and the identity of the king once one was crowned.
pub struct CountryView {
    pub people: CensusView,
    pub king: Option<nat>,
}

impl CountryView {
    /// The country without people and without a king.
    pub open spec fn empty() -> CountryView {
        CountryView { people: CensusView::empty(), king: None }
    }

    /// The census is well-formed and knows the king, if there is one.
    pub open spec fn wf(self) -> bool {
        &&& self.people.wf()
        &&& self.king matches Some(id) ==> self.people.knows(id)
    }

    /// The country after a person called `name` has been entered.
    pub open spec fn enter(self, name: Seq<char>) -> CountryView {
        CountryView { people: self.people.append(name), king: self.king }
    }

    /// The country after the crown went to `name`: to the first person so
    /// called, or, where nobody is, to a person entered under that name on
    /// the spot.
    pub open spec fn crown(self, name: Seq<char>) -> CountryView {
        match self.people.find_by_name(name) {
            Some(id) => CountryView { people: self.people, king: Some(id) },
            None => CountryView {
                people: self.people.append(name),
                king: Some(self.people.next_id()),
            },
        }
    }

    /// What the king is called, if there is one.
    pub open spec fn king_name(self) -> Option<Seq<char>> {
        match self.king {
            Some(id) => self.people.name_of(id),
            None => None,
        }
    }

    /// The country after the king has taken the name `name`; the same
    /// country if it has no king.
    pub open spec fn rename_king(self, name: Seq<char>) -> CountryView {
        match self.king {
            Some(id) => CountryView { people: self.people.rename(id, name), king: self.king },
            None => self,
        }
    }

    /// The country after `event`.
    pub open spec fn apply(self, event: Event) -> CountryView {
        match event {
            Event::Enter(name) => self.enter(name),
            Event::Crown(name) => self.crown(name),
            Event::RenameKing(name) => self.rename_king(name),
        }
    }

    /// The country after `events`, one after another.
    pub open spec fn run(self, events: Seq<Event>) -> CountryView
        decreases events.len(),
    {
        if events.len() == 0 {
            self
        } else {
            self.run(events.drop_last()).apply(events.last())
        }
    }
}

} // verus!
