//! Layout metrics derived from the repository and the viewport: the height of a
//! day, of the whole timeline, and each point of interest's offset.

use crate::date::{lemma_day_number_bounds, local_today, CalendarDate};
use crate::data::{earliest, TimelineContext};
use crate::ident::Identifier;
use crate::time::PointInTime;
use crate::types::PointOfInterest;
use vstd::prelude::*;

verus! {

/// The number of days a viewport shows unless told otherwise.
pub const DEFAULT_WINDOW_DAYS: u64 = 365;

/// How many days the viewport shows at once; always at least one.
#[derive(Clone, Copy, Debug, PartialEq, Eq, Structural)]
pub struct Resolution {
    days: u64,
}

impl Resolution {
    pub closed spec fn days(&self) -> u64 {
        self.days
    }

    pub closed spec fn wf(&self) -> bool {
        self.days > 0
    }

    /// A window of the given number of days; none for zero days.
    pub fn new(days: u64) -> (r: Option<Resolution>)
        ensures
            r.is_some() <==> days > 0,
            r.is_some() ==> r->Some_0.wf() && r->Some_0.days() == days,
    {
        if days == 0 {
            None
        } else {
            Some(Resolution { days })
        }
    }

    pub fn days_shown(&self) -> (r: u64)
        ensures
            r == self.days(),
    {
        self.days
    }
}

impl Default for Resolution {
    fn default() -> (r: Resolution)
        ensures
            r.wf(),
            r.days() == DEFAULT_WINDOW_DAYS,
    {
        Resolution { days: DEFAULT_WINDOW_DAYS }
    }
}

/// A length in pixels, held exactly as `numerator / denominator`.
#[derive(Clone, Copy, Debug, PartialEq, Eq, Structural)]
pub struct PixelLength {
    pub numerator: i128,
    pub denominator: u64,
}

/// The height of one day: the viewport's height shared among the window's days.
pub open spec fn day_height_of(viewport: u64, window: u64) -> PixelLength {
    PixelLength { numerator: viewport as i128, denominator: window }
}

/// The height of `days` days.
pub open spec fn days_height(days: int, viewport: u64, window: u64) -> PixelLength {
    PixelLength { numerator: (days * viewport) as i128, denominator: window }
}

/// The offset of a point of interest from the origin: none where there is no
/// origin or its start does not resolve.
pub open spec fn offset_of(
    p: PointOfInterest,
    origin: Option<CalendarDate>,
    viewport: u64,
    window: u64,
) -> Option<PixelLength> {
    match origin {
        None => None,
        Some(o) => match p.starts.resolved() {
            Ok(d) => Some(days_height(d.day_number() - o.day_number(), viewport, window)),
            Err(_) => None,
        },
    }
}

/// The metrics of one layout pass.
pub struct Layout {
    pub day_height: PixelLength,
    pub timeline_height: PixelLength,
    /// Each point of interest with its offset, in the repository's order.
    pub offsets: Vec<(Identifier, Option<PixelLength>)>,
}

/// Where the view is focused.
#[derive(Clone, Copy, Debug, PartialEq, Eq, Structural)]
pub enum ViewCursor {
    SpecificPoI(Identifier),
    CategoryPiT { cat: Identifier, pot: PointInTime },
    Neutral,
}

impl Default for ViewCursor {
    fn default() -> (r: ViewCursor)
        ensures
            r == ViewCursor::Neutral,
    {
        ViewCursor::Neutral
    }
}

/// The state of the timeline's view.
#[derive(Clone, Copy, Debug)]
pub struct ViewState {
    pub resolution: Resolution,
    pub day_height: PixelLength,
    pub timeline_height: PixelLength,
    pub cursor: ViewCursor,
}

/// `days` days in pixels, for a viewport of `viewport` pixels showing `window` days.
fn scale_days(days: i64, viewport: u64, window: u64) -> (r: PixelLength)
    requires
        -200_000_000 <= days <= 200_000_000,
    ensures
        r == days_height(days as int, viewport, window),
{
    proof {
        assert(-200_000_000 * 0x1_0000_0000_0000_0000 <= days * viewport <= 200_000_000
            * 0x1_0000_0000_0000_0000) by (nonlinear_arith)
            requires
                -200_000_000 <= days <= 200_000_000,
                0 <= viewport < 0x1_0000_0000_0000_0000,
        ;
    }
    PixelLength { numerator: days as i128 * viewport as i128, denominator: window }
}

impl TimelineContext {
    /// The layout for a viewport of `viewport` pixels showing `resolution`'s days,
    /// with the span measured up to `today`. A point of interest whose start does
    /// not resolve has no offset; the others keep theirs.
    pub fn layout_at(&self, viewport: u64, resolution: &Resolution, today: &CalendarDate) -> (r:
        Layout)
        requires
            resolution.wf(),
            today.wf(),
        ensures
            r.day_height == day_height_of(viewport, resolution.days()),
            r.timeline_height == days_height(
                match earliest(self.records()) {
                    Some(o) => today.day_number() - o.day_number(),
                    None => 0,
                },
                viewport,
                resolution.days(),
            ),
            r.offsets@.len() == self.records().len(),
            forall|i: int|
                0 <= i < self.records().len() ==> #[trigger] r.offsets@[i] == (
                    self.records()[i].id,
                    offset_of(self.records()[i], earliest(self.records()), viewport, resolution.days()),
                ),
    {
        let window = resolution.days;
        let origin = self.try_begins();
        let span = self.span_days_at(today);
        proof {
            lemma_day_number_bounds(*today);
            if origin.is_some() {
                lemma_day_number_bounds(origin->Some_0);
            }
        }
        let timeline_height = scale_days(span, viewport, window);
        let day_height = PixelLength { numerator: viewport as i128, denominator: window };
        let records = self.pois_in_order();
        let mut offsets: Vec<(Identifier, Option<PixelLength>)> = Vec::new();
        let mut i: usize = 0;
        while i < records.len()
            invariant
                records@ == self.records(),
                origin == earliest(self.records()),
                origin.is_some() ==> origin->Some_0.wf(),
                i <= records@.len(),
                offsets@.len() == i,
                forall|j: int|
                    0 <= j < i ==> #[trigger] offsets@[j] == (
                        records@[j].id,
                        offset_of(records@[j], origin, viewport, window),
                    ),
            decreases records@.len() - i,
        {
            let p = &records[i];
            let offset = match origin {
                None => None,
                Some(o) => match p.begins() {
                    Ok(d) => {
                        proof {
                            lemma_day_number_bounds(d);
                            lemma_day_number_bounds(o);
                        }
                        Some(scale_days(d.days_since(&o), viewport, window))
                    },
                    Err(_) => None,
                },
            };
            offsets.push((p.id, offset));
            i = i + 1;
        }
        Layout { day_height, timeline_height, offsets }
    }

    /// The layout for a viewport of `viewport` pixels showing `resolution`'s days,
    /// with the span measured up to the current local date.
    pub fn layout(&self, viewport: u64, resolution: &Resolution) -> (r: Layout)
        requires
            resolution.wf(),
        ensures
            r.day_height == day_height_of(viewport, resolution.days()),
            earliest(self.records()).is_none() ==> r.timeline_height == days_height(
                0,
                viewport,
                resolution.days(),
            ),
            earliest(self.records()).is_some() ==> exists|t: CalendarDate|
                t.wf() && r.timeline_height == days_height(
                    t.day_number() - earliest(self.records())->Some_0.day_number(),
                    viewport,
                    resolution.days(),
                ),
            r.offsets@.len() == self.records().len(),
            forall|i: int|
                0 <= i < self.records().len() ==> #[trigger] r.offsets@[i] == (
                    self.records()[i].id,
                    offset_of(self.records()[i], earliest(self.records()), viewport, resolution.days()),
                ),
    {
        let today = local_today();
        self.layout_at(viewport, resolution, &today)
    }
}

/// The view state of a viewport of `viewport` pixels showing `resolution`'s days,
/// with the span measured up to `today`, focused nowhere yet.
pub fn provide_view_state_at(
    ctx: &TimelineContext,
    viewport: u64,
    resolution: Resolution,
    today: &CalendarDate,
) -> (r: ViewState)
    requires
        resolution.wf(),
        today.wf(),
    ensures
        r.resolution == resolution,
        r.day_height == day_height_of(viewport, resolution.days()),
        r.timeline_height == days_height(
            match earliest(ctx.records()) {
                Some(o) => today.day_number() - o.day_number(),
                None => 0,
            },
            viewport,
            resolution.days(),
        ),
        r.cursor == ViewCursor::Neutral,
{
    let origin = ctx.try_begins();
    let span = ctx.span_days_at(today);
    proof {
        lemma_day_number_bounds(*today);
        if origin.is_some() {
            lemma_day_number_bounds(origin->Some_0);
        }
    }
    let timeline_height = scale_days(span, viewport, resolution.days);
    let day_height = PixelLength { numerator: viewport as i128, denominator: resolution.days };
    ViewState { resolution, day_height, timeline_height, cursor: ViewCursor::Neutral }
}

/// The view state of a viewport of `viewport` pixels showing `resolution`'s days,
/// with the span measured up to the current local date, focused nowhere yet.
pub fn provide_view_state(ctx: &TimelineContext, viewport: u64, resolution: Resolution) -> (r:
    ViewState)
    requires
        resolution.wf(),
    ensures
        r.resolution == resolution,
        r.day_height == day_height_of(viewport, resolution.days()),
        earliest(ctx.records()).is_none() ==> r.timeline_height == days_height(
            0,
            viewport,
            resolution.days(),
        ),
        earliest(ctx.records()).is_some() ==> exists|t: CalendarDate|
            t.wf() && r.timeline_height == days_height(
                t.day_number() - earliest(ctx.records())->Some_0.day_number(),
                viewport,
                resolution.days(),
            ),
        r.cursor == ViewCursor::Neutral,
{
    let today = local_today();
    provide_view_state_at(ctx, viewport, resolution, &today)
}

/// Where to scroll a container so that an element comes to its centre: the
/// vertical position puts the element's top half the container's height down
/// from the container's top; the horizontal one centres the element's column,
/// and is never left of zero. Sizes are whole pixels, halves rounded down.
pub fn center_element_in_container(
    offset_top: i32,
    container_height: u32,
    column_left: i32,
    element_width: u32,
    container_width: u32,
) -> (r: (i64, i64))
    ensures
        r.0 == offset_top - container_height / 2,
        r.1 == if column_left + element_width / 2 - container_width / 2 > 0 {
            column_left + element_width / 2 - container_width / 2
        } else {
            0
        },
{
    let scroll_y = offset_top as i64 - (container_height / 2) as i64;
    let left = column_left as i64 + (element_width / 2) as i64 - (container_width / 2) as i64;
    let scroll_x = if left > 0 {
        left
    } else {
        0
    };
    (scroll_y, scroll_x)
}

} // verus!
