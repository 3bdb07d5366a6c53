//! A person, as far as a name goes.

use vstd::prelude::*;

verus! {

/// A person: the name they currently go by.
///
/// Who a person is does not depend on this value. A census keeps each
/// person's identity beside it, so an exclusive reference to a `Person` lets
/// its holder change what the person is called and nothing else.
#[derive(Debug)]
pub struct Person {
    name: String,
}

impl View for Person {
    type V = Seq<char>;

    closed spec fn view(&self) -> Seq<char> {
        self.name@
    }
}

impl Person {
    /// A person called `name`.
    pub fn new(name: String) -> (person: Person)
        ensures
            person@ == name@,
    {
        Person { name }
    }

    /// What the person is called now.
    pub fn name(&self) -> (name: &String)
        ensures
            name@ == self@,
    {
        &self.name
    }

    /// Calls the person `new_name` from now on.
    pub fn rename(&mut self, new_name: String)
        ensures
            final(self)@ == new_name@,
    {
        self.name = new_name;
    }
}

} // verus!
