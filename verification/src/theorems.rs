//! What holds of a country through any course of events.
//!
//! Every statement here is about the values of [`crate::model`], in which the
//! contracts of the executable operations are written, so each of them holds
//! of any [`crate::Country`] that those operations have produced.

use vstd::prelude::*;
use crate::model::{CensusView, CountryView, Event};

verus! {

/// No two people of a census have the same identity.
pub proof fn identities_differ(census: CensusView, i: int, j: int)
    requires
        census.wf(),
        0 <= i < census.len(),
        0 <= j < census.len(),
        i != j,
    ensures
        census.entries[i].id != census.entries[j].id,
{
    if i < j {
        assert(census.entries[i].id != census.entries[j].id);
    } else {
        assert(census.entries[j].id != census.entries[i].id);
    }
}

/// Whatever happens to a well-formed country leaves it well-formed, with
/// everybody who was there still in their place under the identity they had.
/// Nobody leaves, and a king, once there is one, is never lost.
pub proof fn event_keeps_everybody(country: CountryView, event: Event)
    requires
        country.wf(),
    ensures
        country.apply(event).wf(),
        country.apply(event).people.len() >= country.people.len(),
        forall|i: int|
            0 <= i < country.people.len() ==> (#[trigger] country.apply(event).people.entries[i]).id
                == country.people.entries[i].id,
        forall|id: nat| country.people.knows(id) ==> country.apply(event).people.knows(id),
        country.king is Some ==> country.apply(event).king is Some,
{
    match event {
        Event::Enter(name) => {
            country.people.lemma_append(name);
        },
        Event::Crown(name) => {
            country.people.lemma_append(name);
            country.people.lemma_find_by_name(name);
        },
        Event::RenameKing(name) => {
            if let Some(id) = country.king {
                country.people.lemma_rename(id, name);
            }
        },
    }
}

/// Identities are stable. After any number of entries, crownings and
/// renamings, whoever they concern, a person stands where they stood and has
/// the identity they were entered under, and the census still knows them by
/// it.
pub proof fn identity_is_stable(country: CountryView, events: Seq<Event>)
    requires
        country.wf(),
    ensures
        country.run(events).wf(),
        country.run(events).people.len() >= country.people.len(),
        forall|i: int|
            0 <= i < country.people.len() ==> (#[trigger] country.run(events).people.entries[i]).id
                == country.people.entries[i].id,
        forall|id: nat| country.people.knows(id) ==> country.run(events).people.knows(id),
        country.king is Some ==> country.run(events).king is Some,
    decreases events.len(),
{
    if events.len() > 0 {
        identity_is_stable(country, events.drop_last());
        event_keeps_everybody(country.run(events.drop_last()), events.last());
    }
}

/// A king can always be found: in a well-formed country there is a king's
/// name exactly if somebody was crowned.
pub proof fn king_is_found(country: CountryView)
    requires
        country.wf(),
    ensures
        country.king_name() is Some <==> country.king is Some,
{
}

/// Entering somebody changes nobody else: the crown stays where it is, and
/// everybody known before is called what they were called.
pub proof fn enter_is_local(country: CountryView, name: Seq<char>, other: nat)
    requires
        country.wf(),
        country.people.knows(other),
    ensures
        country.enter(name).king == country.king,
        country.enter(name).king_name() == country.king_name(),
        country.enter(name).people.name_of(other) == country.people.name_of(other),
        country.enter(name).people.len() == country.people.len() + 1,
{
    country.people.lemma_append(name);
}

/// Renaming is local. When the king takes a new name, every other identity
/// resolves to the name it resolved to before, and to nothing if it did
/// not resolve.
pub proof fn rename_is_local(country: CountryView, name: Seq<char>, other: nat)
    requires
        country.wf(),
        country.king != Some(other),
    ensures
        country.rename_king(name).people.name_of(other) == country.people.name_of(other),
        country.rename_king(name).people.len() == country.people.len(),
{
    if let Some(id) = country.king {
        country.people.lemma_rename(id, name);
    }
}

/// The crown follows the king through a renaming: the same identity holds
/// it, and the king's name is the new one.
pub proof fn king_keeps_crown_under_new_name(country: CountryView, name: Seq<char>)
    requires
        country.wf(),
        country.king is Some,
    ensures
        country.rename_king(name).king == country.king,
        country.rename_king(name).king_name() == Some(name),
{
    country.people.lemma_rename(country.king.unwrap(), name);
}

/// Of several people with one name the crown goes to the one entered first.
/// If entry `later` is called `name`, then crowning `name` enters nobody, and
/// the king is somebody called `name` who stands at `later` or before it, with
/// nobody of that name before him.
pub proof fn crown_goes_to_the_first(country: CountryView, name: Seq<char>, later: int)
    requires
        country.wf(),
        country.people.named_at(later, name),
    ensures
        country.crown(name).people == country.people,
        country.crown(name).king is Some,
        country.people.knows(country.crown(name).king.unwrap()),
        country.people.place_of(country.crown(name).king.unwrap()) <= later,
        country.people.first_named_at(
            country.people.place_of(country.crown(name).king.unwrap()),
            name,
        ),
{
    country.people.lemma_find_by_name(name);
    let first = country.people.place_of(country.crown(name).king.unwrap());
    if later < first {
        assert(!country.people.named_at(later, name));
    }
}

/// Crowning a name that nobody has enters exactly one person, called so,
/// under an identity that nobody had, and makes them king.
pub proof fn crown_enters_on_miss(country: CountryView, name: Seq<char>)
    requires
        country.wf(),
        !country.people.has_name(name),
    ensures
        country.crown(name).people == country.people.append(name),
        country.crown(name).people.len() == country.people.len() + 1,
        country.crown(name).king == Some(country.people.next_id()),
        !country.people.knows(country.people.next_id()),
        country.crown(name).king_name() == Some(name),
{
    country.people.lemma_append(name);
}

/// Whoever is crowned is called by the name the crown went to.
pub proof fn crown_names_the_king(country: CountryView, name: Seq<char>)
    requires
        country.wf(),
    ensures
        country.crown(name).wf(),
        country.crown(name).king_name() == Some(name),
{
    country.people.lemma_append(name);
    country.people.lemma_find_by_name(name);
}

/// A name left behind does not lead back to the king. After the king has
/// given up `old_name` for another, crowning `old_name` crowns somebody else:
/// the first of those who are called so now, or a newcomer.
pub proof fn old_name_does_not_follow(
    country: CountryView,
    old_name: Seq<char>,
    new_name: Seq<char>,
)
    requires
        country.wf(),
        country.king is Some,
        new_name != old_name,
    ensures
        country.rename_king(new_name).crown(old_name).king != country.king,
{
    let renamed = country.rename_king(new_name);
    king_keeps_crown_under_new_name(country, new_name);
    event_keeps_everybody(country, Event::RenameKing(new_name));
    crown_names_the_king(renamed, old_name);
    let crowned = renamed.crown(old_name);
    if crowned.king == country.king {
        let id = country.king.unwrap();
        if renamed.people.find_by_name(old_name) is None {
            renamed.people.lemma_append(old_name);
        }
        assert(crowned.people.name_of(id) == Some(new_name));
    }
}

} // verus!
