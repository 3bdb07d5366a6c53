//! A country: a census and a crown.

use vstd::prelude::*;
use crate::census::{Census, PersonId};
use crate::model::CountryView;
use crate::person::Person;

verus! {

/// The people of a country and, once somebody was crowned, their king.
///
/// The crown is held by identity, not by name and not by place: the king is
/// looked up anew in the census whenever he is asked for, and is found
/// whatever he or anybody else has been called in the meantime.
#[derive(Debug)]
pub struct Country {
    people: Census,
    king: Option<PersonId>,
}

impl View for Country {
    type V = CountryView;

    closed spec fn view(&self) -> CountryView {
        CountryView {
            people: self.people@,
            king: match self.king {
                Some(id) => Some(id@),
                None => None,
            },
        }
    }
}

impl Country {
    /// The census is in order and knows the king: see [`CountryView::wf`].
    pub open spec fn wf(&self) -> bool {
        self@.wf()
    }

    /// A country without people and without a king.
    pub fn new() -> (country: Country)
        ensures
            country.wf(),
            country@ == CountryView::empty(),
    {
        Country { people: Census::new(), king: None }
    }

    /// The census of the country.
    pub fn people(&self) -> (people: &Census)
        ensures
            people@ == self@.people,
    {
        &self.people
    }

    /// Enters a person called `name`, whether or not somebody is called so
    /// already. The crown stays where it is.
    pub fn enter(&mut self, name: String)
        requires
            old(self).wf(),
        ensures
            final(self).wf(),
            final(self)@ == old(self)@.enter(name@),
    {
        proof {
            self@.people.lemma_append(name@);
        }
        let _ = self.people.append(name);
    }

    /// Crowns the first person in order of entry who is called `name` now.
    /// Where nobody is, a person of that name is entered and crowned.
    pub fn crown(&mut self, name: String)
        requires
            old(self).wf(),
        ensures
            final(self).wf(),
            final(self)@ == old(self)@.crown(name@),
            final(self)@.king_name() == Some(name@),
    {
        proof {
            self@.people.lemma_find_by_name(name@);
            self@.people.lemma_append(name@);
        }
        match self.people.find_by_name(&name) {
            Some(id) => {
                self.king = Some(id);
            },
            None => {
                let id = self.people.append(name);
                self.king = Some(id);
            },
        }
    }

    /// The king, or nothing if nobody was ever crowned.
    pub fn king(&self) -> (king: Option<&Person>)
        requires
            self.wf(),
        ensures
            king is Some <==> self@.king is Some,
            king matches Some(person) ==> self@.king_name() == Some(person@),
    {
        match self.king {
            Some(id) => self.people.resolve(id),
            None => None,
        }
    }

    /// The king, to be renamed by the caller, or nothing if nobody was ever
    /// crowned.
    ///
    /// Whatever the caller does with the reference, the country afterwards
    /// differs from the one before in the king's name alone, and the crown
    /// stays with him.
    pub fn mutable_king(&mut self) -> (king: Option<&mut Person>)
        requires
            old(self).wf(),
        ensures
            final(self).wf(),
            king is Some <==> old(self)@.king is Some,
            king matches Some(person) ==> old(self)@.king_name() == Some((*person)@),
            king matches Some(person) ==> final(self)@ == old(self)@.rename_king((*final(person))@),
            king is None ==> final(self)@ == old(self)@,
    {
        match self.king {
            Some(id) => {
                proof {
                    assert forall|name: Seq<char>|
                        (#[trigger] self@.people.rename(id@, name)).knows(id@) by {
                        self@.people.lemma_rename(id@, name);
                    }
                }
                self.people.resolve_mutable(id)
            },
            None => None,
        }
    }
}

} // verus!
