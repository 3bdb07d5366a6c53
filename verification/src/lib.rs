//! A country keeps a census of its people and remembers who wears the crown.
//!
//! People are entered one after another and never leave. Each receives an
//! identity on entry that stays with them for life, whatever name they go by
//! later. The crown is held by identity, so the king is found again after any
//! number of entries and renamings.
//!
//! * [`person`]: a person, as far as a name goes
//! * [`model`]: the mathematical model of a census and of a country
//! * [`census`]: the people in order of entry, and the identities they are known by
//! * [`country`]: the census together with the crown
//! * [`theorems`]: what holds of a country through any course of events

pub mod census;
pub mod country;
pub mod model;
pub mod person;
pub mod theorems;

pub use crate::census::{Census, PersonId};
pub use crate::country::Country;
pub use crate::person::Person;
