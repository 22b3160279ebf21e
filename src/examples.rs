//! A small sample timeline to start from.

use crate::data::{earliest, TimelineContext};
use crate::laws::lemma_earliest_is_minimum;
use crate::date::CalendarDate;
use crate::error::TimelineError;
use crate::ident::Identifier;
use crate::time::PointInTime;
use crate::types::{MainCategory, Person, PointOfInterest, Timeline};
use vstd::prelude::*;

verus! {

/// The four starting categories: life events, developmental steps, places
/// lived and schooling, each with a fresh identifier.
pub fn init_example_categories() -> (r: Vec<MainCategory>)
    ensures
        r@.len() == 4,
        r@[0].name@ == "Life events"@,
        r@[1].name@ == "Developmental steps"@,
        r@[2].name@ == "Places lived"@,
        r@[3].name@ == "Schooling"@,
{
    let mut r: Vec<MainCategory> = Vec::new();
    r.push(MainCategory::new("Life events".to_owned()));
    r.push(MainCategory::new("Developmental steps".to_owned()));
    r.push(MainCategory::new("Places lived".to_owned()));
    r.push(MainCategory::new("Schooling".to_owned()));
    r
}

fn example_point(parent: Identifier, timeline: Identifier, name: &str, starts: PointInTime) -> (r:
    PointOfInterest)
    ensures
        r.parent == parent,
        r.timeline == timeline,
        r.name@ == name@,
        r.starts == starts,
{
    PointOfInterest::new_bare_with_start(parent, timeline, name.to_owned(), starts)
}

/// The sample points of interest of the timeline, under the first four
/// categories in turn; categories past the fourth get none, and a missing
/// category's points are left out.
pub fn init_example_pois(starting_categories: &Vec<MainCategory>, timeline: &Timeline) -> (r: Vec<
    PointOfInterest,
>)
    ensures
        starting_categories@.len() >= 4 ==> r@.len() == 11,
        starting_categories@.len() >= 4 ==> r@[0].name@ == "Födsel"@ && r@[0].starts == (PointInTime::Day(CalendarDate { year: 2007, month: 12, day: 30 }))
            && r@[0].parent == starting_categories@[0].id,
        starting_categories@.len() >= 4 ==> r@[1].name@ == "Gick"@ && r@[1].starts == PointInTime::Year(2008)
            && r@[1].parent == starting_categories@[1].id,
        starting_categories@.len() >= 4 ==> r@[2].name@ == "Talade"@ && r@[2].starts == PointInTime::Year(2008)
            && r@[2].parent == starting_categories@[1].id,
        starting_categories@.len() >= 4 ==> r@[3].name@ == "Cyklade"@ && r@[3].starts == PointInTime::Year(2013)
            && r@[3].parent == starting_categories@[1].id,
        starting_categories@.len() >= 4 ==> r@[4].name@ == "Simmade"@ && r@[4].starts == PointInTime::Year(2014)
            && r@[4].parent == starting_categories@[1].id,
        starting_categories@.len() >= 4 ==> r@[5].name@ == "Hammarstad"@ && r@[5].starts == PointInTime::Year(2007)
            && r@[5].parent == starting_categories@[2].id,
        starting_categories@.len() >= 4 ==> r@[6].name@ == "Räveby"@ && r@[6].starts == PointInTime::Year(2009)
            && r@[6].parent == starting_categories@[2].id,
        starting_categories@.len() >= 4 ==> r@[7].name@ == "Ingalunda"@ && r@[7].starts == PointInTime::Year(2014)
            && r@[7].parent == starting_categories@[2].id,
        starting_categories@.len() >= 4 ==> r@[8].name@ == "Förskola"@ && r@[8].starts == PointInTime::Year(2009)
            && r@[8].parent == starting_categories@[3].id,
        starting_categories@.len() >= 4 ==> r@[9].name@ == "Lågstadiet på Gladskolan"@ && r@[9].starts == PointInTime::Year(2014)
            && r@[9].parent == starting_categories@[3].id,
        starting_categories@.len() >= 4 ==> r@[10].name@ == "Mellanstadiet på snejipan"@ && r@[10].starts == PointInTime::Year(2017)
            && r@[10].parent == starting_categories@[3].id,
        forall|i: int|
            0 <= i < r@.len() ==> (#[trigger] r@[i]).timeline == timeline.id && exists|j: int|
                0 <= j < starting_categories@.len() && j < 4 && r@[i].parent
                    == starting_categories@[j].id,
{
    let n = starting_categories.len();
    let t = timeline.id;
    let mut r: Vec<PointOfInterest> = Vec::new();
    if n > 0 {
        let c = starting_categories[0].id;
        let birth = CalendarDate { year: 2007, month: 12, day: 30 };
        r.push(example_point(c, t, "Födsel", PointInTime::Day(birth)));
    }
    if n > 1 {
        let c = starting_categories[1].id;
        r.push(example_point(c, t, "Gick", PointInTime::Year(2008)));
        r.push(example_point(c, t, "Talade", PointInTime::Year(2008)));
        r.push(example_point(c, t, "Cyklade", PointInTime::Year(2013)));
        r.push(example_point(c, t, "Simmade", PointInTime::Year(2014)));
    }
    if n > 2 {
        let c = starting_categories[2].id;
        r.push(example_point(c, t, "Hammarstad", PointInTime::Year(2007)));
        r.push(example_point(c, t, "Räveby", PointInTime::Year(2009)));
        r.push(example_point(c, t, "Ingalunda", PointInTime::Year(2014)));
    }
    if n > 3 {
        let c = starting_categories[3].id;
        r.push(example_point(c, t, "Förskola", PointInTime::Year(2009)));
        r.push(example_point(c, t, "Lågstadiet på Gladskolan", PointInTime::Year(2014)));
        r.push(example_point(c, t, "Mellanstadiet på snejipan", PointInTime::Year(2017)));
    }
    r
}

/// The sample timeline: its four categories and eleven points of interest, in
/// one context. Fails only where two freshly drawn identifiers collide.
pub fn provide_timeline_context() -> (r: Result<TimelineContext, TimelineError>)
    ensures
        r.is_ok() ==> r->Ok_0.wf() && r->Ok_0.records().len() == 11 && r->Ok_0.groups().len()
            == 4,
        r.is_err() ==> r == Err::<TimelineContext, TimelineError>(TimelineError::DuplicateIdentifier),
        r.is_ok() ==> earliest(r->Ok_0.records()) == Some(
            CalendarDate { year: 2007, month: 1, day: 1 },
        ),
{
    let starting_categories = init_example_categories();
    let birth = CalendarDate { year: 2007, month: 12, day: 30 };
    let person = Person::new("Långben".to_owned(), PointInTime::Day(birth));
    let timeline = Timeline::new(person.identity());
    let pois = init_example_pois(&starting_categories, &timeline);
    let ghost records = pois@;
    let ghost cats = starting_categories@;
    let r = TimelineContext::new(starting_categories, pois);
    proof {
        assert forall|i: int| 0 <= i < records.len() implies cats.map_values(
            |c: MainCategory| c.id,
        ).contains(#[trigger] records[i].parent) by {
            let j = choose|j: int| 0 <= j < cats.len() && j < 4 && records[i].parent == cats[j].id;
            assert(cats.map_values(|c: MainCategory| c.id)[j] == records[i].parent);
        }
        if r.is_ok() {
            let first = CalendarDate { year: 2007, month: 1, day: 1 };
            lemma_earliest_is_minimum(records);
            assert(records[5].starts.resolved() == Ok::<CalendarDate, TimelineError>(first));
            let e = earliest(records)->Some_0;
            let i = choose|i: int|
                0 <= i < records.len() && (#[trigger] records[i]).starts.resolved() == Ok::<
                    CalendarDate,
                    TimelineError,
                >(e);
            assert(!first.before(e));
            assert(e == first);
        }
    }
    r
}

} // verus!
