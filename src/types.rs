//! The entities of a timeline: points of interest, categories, timelines and persons.

use crate::date::CalendarDate;
use crate::error::TimelineError;
use crate::ident::Identifier;
use crate::time::{Ending, PointInTime};
use vstd::prelude::*;

verus! {

/// A scale of measurement; a placeholder of the model.
pub struct Scale;

/// A period of time at some precision; a placeholder of the model.
pub struct PeriodOfTime<T> {
    pub precision: T,
}

/// The impact of an event; a placeholder of the model.
pub struct Impact;

/// A calibration of the timeline; a placeholder of the model.
pub struct Calibration;

/// A named entity; a placeholder of the model.
pub struct NamedEntity;

/// A tag on a record; a placeholder of the model.
pub struct Tag;

/// The quality of a relationship; a placeholder of the model.
pub struct RelationshipQuality;

/// A personality; a placeholder of the model.
pub struct Personality;

/// A dated record on a timeline, grouped under a category.
#[derive(Clone, Debug)]
pub struct PointOfInterest {
    pub id: Identifier,
    pub parent: Identifier,
    pub timeline: Identifier,
    pub starts: PointInTime,
    pub ends: Ending,
    pub name: String,
    pub context: String,
}

impl PointOfInterest {
    /// A point of interest with a fresh identifier, the given category and name,
    /// and nothing else known yet.
    pub fn new_barebones(parent: Identifier, name: String) -> (r: PointOfInterest)
        ensures
            r.parent == parent,
            r.name@ == name@,
            r.starts == PointInTime::Undetermined,
            r.ends == Ending::Undetermined,
            r.context@.len() == 0,
    {
        PointOfInterest {
            id: Identifier::fresh(),
            parent,
            timeline: Identifier::fresh(),
            starts: PointInTime::Undetermined,
            ends: Ending::Undetermined,
            name,
            context: String::new(),
        }
    }

    /// A point of interest with a fresh identifier, the given category, timeline,
    /// name and start, and no known end.
    pub fn new_bare_with_start(
        parent: Identifier,
        timeline: Identifier,
        name: String,
        starts: PointInTime,
    ) -> (r: PointOfInterest)
        ensures
            r.parent == parent,
            r.timeline == timeline,
            r.name@ == name@,
            r.starts == starts,
            r.ends == Ending::Undetermined,
            r.context@.len() == 0,
    {
        PointOfInterest {
            id: Identifier::fresh(),
            parent,
            timeline,
            starts,
            ends: Ending::Undetermined,
            name,
            context: String::new(),
        }
    }

    pub fn identity(&self) -> (r: Identifier)
        ensures
            r == self.id,
    {
        self.id
    }

    /// The category the point of interest belongs to.
    pub fn parent(&self) -> (r: Identifier)
        ensures
            r == self.parent,
    {
        self.parent
    }

    pub fn name(&self) -> (r: &String)
        ensures
            r@ == self.name@,
    {
        &self.name
    }

    /// The calendar date the point of interest starts on.
    pub fn begins(&self) -> (r: Result<CalendarDate, TimelineError>)
        ensures
            r == self.starts.resolved(),
    {
        self.starts.begins()
    }
}

/// The fields of a point of interest as its author hands them in.
#[derive(Clone, Debug)]
pub struct NonSignalPointOfInterest {
    pub id: Identifier,
    pub parent: Identifier,
    pub timeline: Identifier,
    pub starts: PointInTime,
    pub ends: Ending,
    pub name: String,
    pub context: String,
}

impl NonSignalPointOfInterest {
    /// A record with a fresh identifier, the given category and name, and
    /// nothing else known yet.
    pub fn new(parent: Identifier, name: String) -> (r: NonSignalPointOfInterest)
        ensures
            r.parent == parent,
            r.name@ == name@,
            r.starts == PointInTime::Undetermined,
            r.ends == Ending::Undetermined,
            r.context@.len() == 0,
    {
        NonSignalPointOfInterest {
            id: Identifier::fresh(),
            parent,
            timeline: Identifier::fresh(),
            starts: PointInTime::Undetermined,
            ends: Ending::Undetermined,
            name,
            context: String::new(),
        }
    }
}

impl From<NonSignalPointOfInterest> for PointOfInterest {
    fn from(value: NonSignalPointOfInterest) -> (r: PointOfInterest) {
        PointOfInterest {
            id: value.id,
            parent: value.parent,
            timeline: value.timeline,
            starts: value.starts,
            ends: value.ends,
            name: value.name,
            context: value.context,
        }
    }
}

impl vstd::std_specs::convert::FromSpecImpl<NonSignalPointOfInterest> for PointOfInterest {
    open spec fn obeys_from_spec() -> bool {
        true
    }

    open spec fn from_spec(v: NonSignalPointOfInterest) -> PointOfInterest {
        PointOfInterest {
            id: v.id,
            parent: v.parent,
            timeline: v.timeline,
            starts: v.starts,
            ends: v.ends,
            name: v.name,
            context: v.context,
        }
    }
}

/// The timeline of one person.
#[derive(Clone, Copy, Debug, PartialEq, Eq, Hash, Structural)]
pub struct Timeline {
    pub id: Identifier,
    pub person: Identifier,
}

impl Timeline {
    /// A timeline with a fresh identifier for the given person.
    pub fn new(person: Identifier) -> (r: Timeline)
        ensures
            r.person == person,
    {
        Timeline { id: Identifier::fresh(), person }
    }

    pub fn identity(&self) -> (r: Identifier)
        ensures
            r == self.id,
    {
        self.id
    }

    /// The person the timeline is about.
    pub fn parent(&self) -> (r: Identifier)
        ensures
            r == self.person,
    {
        self.person
    }
}

/// A named category that points of interest are grouped under.
#[derive(Clone, Debug)]
pub struct MainCategory {
    pub id: Identifier,
    pub name: String,
}

impl MainCategory {
    /// A category with a fresh identifier and the given name.
    pub fn new(name: String) -> (r: MainCategory)
        ensures
            r.name@ == name@,
    {
        MainCategory { id: Identifier::fresh(), name }
    }

    pub fn identity(&self) -> (r: Identifier)
        ensures
            r == self.id,
    {
        self.id
    }

    pub fn name(&self) -> (r: &String)
        ensures
            r@ == self.name@,
    {
        &self.name
    }
}

/// The subject of a timeline, whose origin anchors ages.
#[derive(Clone, Debug)]
pub struct Person {
    pub id: Identifier,
    pub name: String,
    pub origo: PointInTime,
}

impl Person {
    /// A person with a fresh identifier, the given name and origin.
    pub fn new(name: String, origo: PointInTime) -> (r: Person)
        ensures
            r.name@ == name@,
            r.origo == origo,
    {
        Person { id: Identifier::fresh(), name, origo }
    }

    pub fn identity(&self) -> (r: Identifier)
        ensures
            r == self.id,
    {
        self.id
    }

    pub fn name(&self) -> (r: &String)
        ensures
            r@ == self.name@,
    {
        &self.name
    }

    /// The calendar date of the person's origin.
    pub fn begins(&self) -> (r: Result<CalendarDate, TimelineError>)
        ensures
            r == self.origo.resolved(),
    {
        self.origo.begins()
    }
}

} // verus!
