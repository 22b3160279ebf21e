//! Laws that relate the operations of the timeline core.

use crate::data::{earliest, group_ids, members_of, TimelineContext};
use crate::date::{lemma_day_number_bounds, lemma_day_number_monotone, CalendarDate};
use crate::ident::Identifier;
use crate::time::PointInTime;
use crate::types::PointOfInterest;
use crate::viewstate::{day_height_of, days_height, offset_of};
use vstd::prelude::*;

verus! {

/// Resolution is a function of the point in time alone: equal points in time
/// resolve alike, whatever else holds.
pub proof fn lemma_begins_is_deterministic(p: PointInTime, q: PointInTime)
    requires
        p == q,
    ensures
        p.resolved() == q.resolved(),
{
}

/// The origin is the minimum over the resolvable starts: it is absent exactly
/// when no start resolves, an empty repository included; otherwise it is the
/// date of some start, and no start resolves to an earlier date.
pub proof fn lemma_earliest_is_minimum(pois: Seq<PointOfInterest>)
    ensures
        earliest(pois).is_none() <==> forall|i: int|
            0 <= i < pois.len() ==> (#[trigger] pois[i]).starts.resolved().is_err(),
        earliest(pois).is_some() ==> exists|i: int|
            0 <= i < pois.len() && (#[trigger] pois[i]).starts.resolved() == Ok::<
                CalendarDate,
                crate::error::TimelineError,
            >(earliest(pois)->Some_0),
        earliest(pois).is_some() ==> forall|i: int|
            0 <= i < pois.len() && (#[trigger] pois[i]).starts.resolved().is_ok() ==> !pois[i].starts.resolved()->Ok_0.before(
                earliest(pois)->Some_0,
            ),
    decreases pois.len(),
{
    if pois.len() > 0 {
        let rest = pois.drop_last();
        lemma_earliest_is_minimum(rest);
        assert forall|i: int| 0 <= i < rest.len() implies rest[i] == pois[i] by {}
        let k = pois.len() - 1;
        assert(pois[k] == pois.last());
        if earliest(rest).is_some() {
            let j = choose|j: int|
                0 <= j < rest.len() && (#[trigger] rest[j]).starts.resolved() == Ok::<
                    CalendarDate,
                    crate::error::TimelineError,
                >(earliest(rest)->Some_0);
            assert(pois[j] == rest[j]);
        }
        if earliest(pois).is_none() {
            assert forall|i: int| 0 <= i < pois.len() implies (#[trigger] pois[i]).starts.resolved().is_err() by {
                if i < k {
                    assert(pois[i] == rest[i]);
                }
            }
        }
    }
}

/// The members of a category are the identifiers of the records kept by a
/// filter on the parent, in their order.
pub proof fn lemma_members_of_is_filter(pois: Seq<PointOfInterest>, category: Identifier)
    ensures
        members_of(pois, category) == pois.filter(|p: PointOfInterest| p.parent == category).map_values(
            |p: PointOfInterest| p.id,
        ),
    decreases pois.len(),
{
    reveal(Seq::filter);
    let pred = |p: PointOfInterest| p.parent == category;
    if pois.len() > 0 {
        lemma_members_of_is_filter(pois.drop_last(), category);
        let sub = pois.drop_last().filter(pred);
        assert(pois.filter(pred) == if pred(pois.last()) {
            sub.push(pois.last())
        } else {
            sub
        });
        if pred(pois.last()) {
            assert(sub.push(pois.last()).map_values(|p: PointOfInterest| p.id) =~= sub.map_values(
                |p: PointOfInterest| p.id,
            ).push(pois.last().id));
        }
    } else {
        assert(pois.filter(pred).map_values(|p: PointOfInterest| p.id) =~= Seq::<Identifier>::empty());
    }
}

/// The height of a day times the window's days gives back the viewport's
/// height: as fractions, `numerator / denominator * window == viewport`.
pub proof fn lemma_day_height_fills_viewport(viewport: u64, window: u64)
    requires
        window > 0,
    ensures
        day_height_of(viewport, window).numerator * window == viewport * day_height_of(
            viewport,
            window,
        ).denominator,
{
}

/// A start that does not resolve leaves its own point of interest without an
/// offset and no other: every point of interest whose start resolves keeps an
/// offset.
pub proof fn lemma_unresolved_offset_is_isolated(
    pois: Seq<PointOfInterest>,
    i: int,
    viewport: u64,
    window: u64,
)
    requires
        0 <= i < pois.len(),
        pois[i].starts.resolved().is_err(),
    ensures
        offset_of(pois[i], earliest(pois), viewport, window).is_none(),
        forall|j: int|
            0 <= j < pois.len() && (#[trigger] pois[j]).starts.resolved().is_ok() ==> offset_of(
                pois[j],
                earliest(pois),
                viewport,
                window,
            ).is_some(),
{
    lemma_earliest_is_minimum(pois);
}

/// The origin's own point of interest lies at offset zero.
pub proof fn lemma_origin_offset_is_zero(pois: Seq<PointOfInterest>, i: int, viewport: u64, window: u64)
    requires
        0 <= i < pois.len(),
        earliest(pois).is_some(),
        pois[i].starts.resolved() == Ok::<CalendarDate, crate::error::TimelineError>(
            earliest(pois)->Some_0,
        ),
    ensures
        offset_of(pois[i], earliest(pois), viewport, window) == Some(
            crate::viewstate::PixelLength { numerator: 0, denominator: window },
        ),
{
    let e = earliest(pois)->Some_0;
    assert(e.day_number() - e.day_number() == 0);
    assert(0 * viewport == 0);
    assert(days_height(0, viewport, window) == crate::viewstate::PixelLength {
        numerator: 0,
        denominator: window,
    });
}

/// No point of interest lies above the origin: every offset is at least zero.
pub proof fn lemma_offsets_are_non_negative(
    pois: Seq<PointOfInterest>,
    i: int,
    viewport: u64,
    window: u64,
)
    requires
        0 <= i < pois.len(),
        offset_of(pois[i], earliest(pois), viewport, window).is_some(),
    ensures
        offset_of(pois[i], earliest(pois), viewport, window)->Some_0.numerator >= 0,
{
    lemma_earliest_is_minimum(pois);
    let e = earliest(pois)->Some_0;
    let d = pois[i].starts.resolved()->Ok_0;
    assert(e.wf());
    assert(d.wf());
    lemma_day_number_bounds(e);
    lemma_day_number_bounds(d);
    if e.before(d) {
        lemma_day_number_monotone(e, d);
    } else {
        assert(d == e);
    }
    let days = d.day_number() - e.day_number();
    assert(0 <= days <= 200_000_000);
    assert(0 <= days * viewport <= 200_000_000 * 0x1_0000_0000_0000_0000) by (nonlinear_arith)
        requires
            0 <= days <= 200_000_000,
            0 <= viewport < 0x1_0000_0000_0000_0000,
    ;
}

/// An identifier is a member of a category exactly when some record with that
/// identifier has that category as parent.
pub proof fn lemma_members_of_contains(pois: Seq<PointOfInterest>, category: Identifier, id: Identifier)
    ensures
        members_of(pois, category).contains(id) <==> exists|i: int|
            0 <= i < pois.len() && (#[trigger] pois[i]).id == id && pois[i].parent == category,
    decreases pois.len(),
{
    if pois.len() > 0 {
        let rest = pois.drop_last();
        lemma_members_of_contains(rest, category, id);
        let k = pois.len() - 1;
        assert(pois[k] == pois.last());
        if exists|i: int| 0 <= i < rest.len() && (#[trigger] rest[i]).id == id && rest[i].parent == category {
            let i = choose|i: int| 0 <= i < rest.len() && (#[trigger] rest[i]).id == id && rest[i].parent == category;
            assert(pois[i] == rest[i]);
        }
        if exists|i: int| 0 <= i < pois.len() && (#[trigger] pois[i]).id == id && pois[i].parent == category {
            let i = choose|i: int| 0 <= i < pois.len() && (#[trigger] pois[i]).id == id && pois[i].parent == category;
            if i < k {
                assert(rest[i] == pois[i]);
            }
        }
        if pois.last().parent == category {
            assert(members_of(pois, category) == members_of(rest, category).push(pois.last().id));
            if members_of(pois, category).contains(id) {
                let j = choose|j: int| 0 <= j < members_of(pois, category).len() && members_of(pois, category)[j] == id;
                if j < members_of(rest, category).len() {
                    assert(members_of(rest, category)[j] == id);
                }
            }
            if members_of(rest, category).contains(id) {
                let j = choose|j: int| 0 <= j < members_of(rest, category).len() && members_of(rest, category)[j] == id;
                assert(members_of(pois, category)[j] == id);
            }
            if pois.last().id == id {
                assert(members_of(pois, category)[members_of(rest, category).len() as int] == id);
            }
        }
    }
}

/// The member lists of a well-formed context split the records: each record's
/// identifier is in the list of its parent, and in no other list.
pub proof fn lemma_members_partition_records(ctx: TimelineContext, r: int, g: int)
    requires
        ctx.wf(),
        0 <= r < ctx.records().len(),
        0 <= g < ctx.groups().len(),
    ensures
        ctx.groups()[g].points_of_interest@.contains(ctx.records()[r].id) <==> ctx.groups()[g].category.id
            == ctx.records()[r].parent,
        exists|h: int|
            0 <= h < ctx.groups().len() && (#[trigger] ctx.groups()[h]).points_of_interest@.contains(
                ctx.records()[r].id,
            ),
{
    ctx.lemma_wf_facts();
    let recs = ctx.records();
    let p = recs[r];
    lemma_members_of_contains(recs, ctx.groups()[g].category.id, p.id);
    if ctx.groups()[g].points_of_interest@.contains(p.id) {
        let i = choose|i: int|
            0 <= i < recs.len() && (#[trigger] recs[i]).id == p.id && recs[i].parent == ctx.groups()[g].category.id;
        assert(crate::data::poi_ids(recs)[i] == crate::data::poi_ids(recs)[r]);
    }
    assert(group_ids(ctx.groups()).contains(p.parent));
    let h = choose|h: int| 0 <= h < ctx.groups().len() && group_ids(ctx.groups())[h] == p.parent;
    lemma_members_of_contains(recs, ctx.groups()[h].category.id, p.id);
    assert(ctx.groups()[h].points_of_interest@.contains(p.id));
}

} // verus!
