use lifeline::data::{CategoryIndex, PoIs, TimelineContext};
use lifeline::date::CalendarDate;
use lifeline::error::TimelineError;
use lifeline::examples::{init_example_categories, init_example_pois, provide_timeline_context};
use lifeline::ident::Identifier;
use lifeline::time::{Approximated, DateTime, Ending, Month, PointInTime, Season};
use lifeline::types::{MainCategory, NonSignalPointOfInterest, Person, PointOfInterest, Timeline};
use lifeline::viewstate::{center_element_in_container, provide_view_state, provide_view_state_at, PixelLength, Resolution, ViewCursor};

fn date(year: i32, month: u8, day: u8) -> CalendarDate {
    CalendarDate::from_ymd(year, month, day).unwrap()
}

fn px(length: &PixelLength) -> f64 {
    length.numerator as f64 / length.denominator as f64
}

fn point(parent: Identifier, name: &str, starts: PointInTime) -> PointOfInterest {
    PointOfInterest::new_bare_with_start(parent, Identifier::fresh(), name.to_string(), starts)
}

fn one_category(name: &str) -> (MainCategory, TimelineContext) {
    let cat = MainCategory::new(name.to_string());
    let ctx = TimelineContext::new(vec![cat.clone()], Vec::new()).unwrap();
    (cat, ctx)
}

#[test]
fn begins_year_is_first_of_january() {
    assert_eq!(PointInTime::Year(2007).begins(), Ok(date(2007, 1, 1)));
}

#[test]
fn begins_month_is_first_day_of_month() {
    assert_eq!(PointInTime::Month(2020, Month::March).begins(), Ok(date(2020, 3, 1)));
    assert_eq!(PointInTime::from((2021, 11)).begins(), Ok(date(2021, 11, 1)));
}

#[test]
fn begins_seasons_have_fixed_anchors() {
    assert_eq!(PointInTime::Season(2010, Season::Winter).begins(), Ok(date(2010, 12, 1)));
    assert_eq!(PointInTime::Season(2010, Season::Spring).begins(), Ok(date(2010, 3, 1)));
    assert_eq!(PointInTime::Season(2010, Season::Summer).begins(), Ok(date(2010, 6, 1)));
    assert_eq!(PointInTime::Season(2010, Season::Fall).begins(), Ok(date(2010, 9, 1)));
}

#[test]
fn begins_day_and_instant_keep_their_date() {
    let d = date(2007, 12, 30);
    assert_eq!(PointInTime::Day(d).begins(), Ok(d));
    assert_eq!(PointInTime::from(d).begins(), Ok(d));
    let t = DateTime { date: d, hour: 23, minute: 59, second: 59 };
    assert_eq!(PointInTime::Time(t).begins(), Ok(d));
}

#[test]
fn begins_is_deterministic() {
    let points = [
        PointInTime::Year(2009),
        PointInTime::Month(1999, Month::December),
        PointInTime::Season(2001, Season::Fall),
        PointInTime::Day(date(2000, 2, 29)),
    ];
    for p in points.iter() {
        assert_eq!(p.begins(), p.begins());
        assert!(p.begins().is_ok());
    }
}

#[test]
fn begins_unresolved_kinds_fail() {
    assert_eq!(PointInTime::Undetermined.begins(), Err(TimelineError::UnresolvedTime));
    assert_eq!(
        PointInTime::Approximated(Approximated::default()).begins(),
        Err(TimelineError::UnresolvedTime)
    );
    assert_eq!(
        PointInTime::ChronologicalAge(7, Identifier::fresh()).begins(),
        Err(TimelineError::UnresolvedTime)
    );
    assert_eq!(
        PointInTime::TimeAgo { at: date(2020, 1, 1), days: 3 }.begins(),
        Err(TimelineError::UnresolvedTime)
    );
}

#[test]
fn begins_nonexistent_day_fails() {
    let bad = CalendarDate { year: 2023, month: 2, day: 29 };
    assert_eq!(PointInTime::Day(bad).begins(), Err(TimelineError::InvalidDate));
    assert_eq!(PointInTime::Year(400000).begins(), Err(TimelineError::InvalidDate));
}

#[test]
fn month_from_number() {
    assert_eq!(Month::from(3), Month::March);
    assert_eq!(Month::from(12), Month::December);
    assert_eq!(Month::from(0), Month::January);
    assert_eq!(Month::from(13), Month::January);
    assert_eq!(Month::March.to_number(), 3);
}

#[test]
fn defaults() {
    assert_eq!(Season::default(), Season::Summer);
    assert_eq!(Month::default(), Month::June);
    assert_eq!(PointInTime::default(), PointInTime::Undetermined);
    assert_eq!(Ending::default(), Ending::Undetermined);
    assert_eq!(ViewCursor::default(), ViewCursor::Neutral);
    assert_eq!(Resolution::default().days_shown(), 365);
    assert_eq!(PointInTime::from(2014), PointInTime::Year(2014));
}

#[test]
fn calendar_dates_follow_chrono() {
    assert!(CalendarDate::from_ymd(2015, 3, 14).is_some());
    assert!(CalendarDate::from_ymd(2015, 0, 14).is_none());
    assert!(CalendarDate::from_ymd(2015, 2, 29).is_none());
    assert!(CalendarDate::from_ymd(-4, 2, 29).is_some());
    assert!(CalendarDate::from_ymd(400000, 1, 1).is_none());
    assert!(CalendarDate::from_ymd(-400000, 1, 1).is_none());
}

#[test]
fn days_between_dates() {
    assert_eq!(date(2009, 1, 1).days_since(&date(2007, 1, 1)), 731);
    assert_eq!(date(1970, 1, 1).days_since(&date(1, 1, 1)), 719_162);
    assert_eq!(date(1, 1, 1).days_since(&date(0, 1, 1)), 366);
    assert_eq!(date(2007, 1, 1).days_since(&date(2009, 1, 1)), -731);
    assert!(date(2007, 1, 1).is_before(&date(2007, 1, 2)));
    assert!(!date(2007, 1, 2).is_before(&date(2007, 1, 2)));
}

#[test]
fn identifier_text_is_hyphenated_uuid() {
    assert_eq!(Identifier::from_value(0).to_string(), "00000000-0000-0000-0000-000000000000");
    assert_eq!(
        Identifier::from_value(0x67e5504410b1426f9247bb680e5fe0c8).to_string(),
        "67e55044-10b1-426f-9247-bb680e5fe0c8"
    );
    assert_eq!(Identifier::fresh().to_string().len(), 36);
}

#[test]
fn fresh_identifiers_differ() {
    assert_ne!(Identifier::fresh(), Identifier::fresh());
}

#[test]
fn origin_of_empty_repository_is_none() {
    let (_, ctx) = one_category("Life events");
    assert_eq!(ctx.try_begins(), None);
    assert_eq!(ctx.pois().begins(), Err(TimelineError::EmptyRepository));
    assert_eq!(PoIs::new().try_begins(), None);
}

#[test]
fn origin_is_earliest_start() {
    let (cat, mut ctx) = one_category("Places lived");
    ctx.insert(point(cat.id, "Later", PointInTime::Year(2009))).unwrap();
    ctx.insert(point(cat.id, "Earlier", PointInTime::Year(2007))).unwrap();
    assert_eq!(ctx.try_begins(), Some(date(2007, 1, 1)));
    assert_eq!(ctx.pois().begins(), Ok(date(2007, 1, 1)));
}

#[test]
fn origin_skips_unresolved_starts() {
    let (cat, mut ctx) = one_category("Life events");
    ctx.insert(point(cat.id, "Unknown", PointInTime::Undetermined)).unwrap();
    assert_eq!(ctx.try_begins(), None);
    assert_eq!(ctx.pois().begins(), Err(TimelineError::UnresolvedTime));
    ctx.insert(point(cat.id, "Known", PointInTime::Season(2012, Season::Spring))).unwrap();
    assert_eq!(ctx.try_begins(), Some(date(2012, 3, 1)));
}

#[test]
fn search_by_exact_name_finds_entity() {
    let (cat, mut ctx) = one_category("Places lived");
    let a = point(cat.id, "Hammarstad", PointInTime::Year(2007));
    let b = point(cat.id, "Räveby", PointInTime::Year(2009));
    let (ida, idb) = (a.id, b.id);
    ctx.insert(a).unwrap();
    ctx.insert(b).unwrap();
    assert!(ctx.pois().search("Hammarstad").contains(&ida));
    assert!(ctx.pois().search("Räveby").contains(&idb));
    assert!(!ctx.pois().search("Hammarstad").contains(&idb));
}

#[test]
fn search_finds_context_text() {
    let (cat, mut ctx) = one_category("Schooling");
    let mut p = point(cat.id, "Förskola", PointInTime::Year(2009));
    p.context = "Blåbärsgatan".to_string();
    let id = p.id;
    ctx.insert(p).unwrap();
    assert!(ctx.pois().search("Blåbärsgatan").contains(&id));
}

#[test]
fn autocomplete_offers_indexed_words() {
    let (cat, mut ctx) = one_category("Places lived");
    ctx.insert(point(cat.id, "Hammarstad", PointInTime::Year(2007))).unwrap();
    let options = ctx.pois().autocomplete("hamm");
    assert!(options.iter().any(|o| o.contains("hammarstad")));
}

#[test]
fn keys_and_get() {
    let (cat, mut ctx) = one_category("Life events");
    let a = point(cat.id, "A", PointInTime::Year(2001));
    let ida = a.id;
    ctx.insert(a).unwrap();
    assert_eq!(ctx.pois().keys(), vec![ida]);
    assert_eq!(ctx.pois().get(&ida).unwrap().name(), "A");
    assert!(ctx.pois().get(&Identifier::fresh()).is_none());
    assert!(ctx.pois().contains(&ida));
}

#[test]
fn category_members_in_insertion_order() {
    let first = MainCategory::new("First".to_string());
    let second = MainCategory::new("Second".to_string());
    let mut ctx = TimelineContext::new(vec![first.clone(), second.clone()], Vec::new()).unwrap();
    let a = point(first.id, "a", PointInTime::Year(2010));
    let b = point(second.id, "b", PointInTime::Year(2001));
    let c = point(first.id, "c", PointInTime::Year(2000));
    let (ia, ib, ic) = (a.id, b.id, c.id);
    ctx.insert(a).unwrap();
    ctx.insert(b).unwrap();
    ctx.insert(c).unwrap();
    let cats = ctx.categories();
    assert_eq!(cats.len(), 2);
    assert_eq!(cats[0].category.id, first.id);
    assert_eq!(cats[0].name(), "First");
    assert_eq!(cats[0].pois(), &vec![ia, ic]);
    assert_eq!(cats[1].pois(), &vec![ib]);
}

#[test]
fn arrange_by_category_groups_existing_points() {
    let cats = vec![MainCategory::new("x".to_string()), MainCategory::new("y".to_string())];
    let p = point(cats[1].id, "p", PointInTime::Year(2000));
    let index = CategoryIndex::arrange_by_category(cats.clone(), &vec![p.clone()]).unwrap();
    assert_eq!(index.slot(&cats[0].id), Some(0));
    assert_eq!(index.slot(&cats[1].id), Some(1));
    assert_eq!(index.slot(&Identifier::fresh()), None);
    let pid = p.id;
    let all = TimelineContext::new(cats.clone(), vec![p]).unwrap();
    assert_eq!(all.categories()[0].pois().len(), 0);
    assert_eq!(all.categories()[1].pois(), &vec![pid]);
}

#[test]
fn insert_unknown_category_changes_nothing() {
    let (cat, mut ctx) = one_category("Life events");
    let a = point(cat.id, "Hammarstad", PointInTime::Year(2007));
    ctx.insert(a).unwrap();
    let stray = point(Identifier::fresh(), "Stray", PointInTime::Year(2001));
    let stray_id = stray.id;
    assert_eq!(ctx.insert(stray), Err(TimelineError::UnknownCategory));
    assert_eq!(ctx.pois().keys().len(), 1);
    assert!(ctx.pois().get(&stray_id).is_none());
    assert!(!ctx.pois().search("Stray").contains(&stray_id));
    assert_eq!(ctx.categories()[0].pois().len(), 1);
    assert_eq!(ctx.try_begins(), Some(date(2007, 1, 1)));
}

#[test]
fn insert_duplicate_identifier_fails() {
    let (cat, mut ctx) = one_category("Life events");
    let a = point(cat.id, "A", PointInTime::Year(2007));
    let mut twin = point(cat.id, "Twin", PointInTime::Year(2001));
    twin.id = a.id;
    ctx.insert(a).unwrap();
    assert_eq!(ctx.insert(twin), Err(TimelineError::DuplicateIdentifier));
    assert_eq!(ctx.pois().keys().len(), 1);
    assert_eq!(ctx.categories()[0].pois().len(), 1);
    assert_eq!(ctx.try_begins(), Some(date(2007, 1, 1)));
}

#[test]
fn add_poi_takes_authored_record() {
    let (cat, mut ctx) = one_category("Life events");
    let mut p = NonSignalPointOfInterest::new(cat.id, "Korfbajs".to_string());
    p.starts = PointInTime::Year(2015);
    let id = p.id;
    ctx.add_poi(p).unwrap();
    assert_eq!(ctx.pois().get(&id).unwrap().starts, PointInTime::Year(2015));
    assert_eq!(ctx.categories()[0].pois(), &vec![id]);
    let stray = NonSignalPointOfInterest::new(Identifier::fresh(), "x".to_string());
    assert_eq!(ctx.add_poi(stray), Err(TimelineError::UnknownCategory));
}

#[test]
fn new_context_rejects_bad_input() {
    let a = MainCategory::new("a".to_string());
    let mut b = MainCategory::new("b".to_string());
    b.id = a.id;
    assert!(matches!(
        TimelineContext::new(vec![a.clone(), b], Vec::new()),
        Err(TimelineError::DuplicateIdentifier)
    ));
    let stray = point(Identifier::fresh(), "s", PointInTime::Year(2000));
    assert!(matches!(
        TimelineContext::new(vec![a.clone()], vec![stray]),
        Err(TimelineError::UnknownCategory)
    ));
    let p = point(a.id, "p", PointInTime::Year(2000));
    let mut q = point(a.id, "q", PointInTime::Year(2001));
    q.id = p.id;
    assert!(matches!(
        TimelineContext::new(vec![a.clone()], vec![p, q]),
        Err(TimelineError::DuplicateIdentifier)
    ));
    let p = point(a.id, "p", PointInTime::Year(2000));
    let mut q = point(a.id, "q", PointInTime::Year(2001));
    q.id = p.id;
    assert!(matches!(PoIs::from_poi_collection(vec![p, q]), Err(TimelineError::DuplicateIdentifier)));
}

#[test]
fn day_height_times_window_is_viewport() {
    let (_, ctx) = one_category("c");
    for (viewport, window) in [(800u64, 365u64), (1080, 7), (333, 1000), (1, 1)] {
        let layout = ctx.layout(viewport, &Resolution::new(window).unwrap());
        assert!((px(&layout.day_height) * window as f64 - viewport as f64).abs() < 1e-9);
    }
}

#[test]
fn layout_scenario_two_years() {
    let (cat, mut ctx) = one_category("Places lived");
    let a = point(cat.id, "A", PointInTime::Year(2007));
    let b = point(cat.id, "B", PointInTime::Year(2009));
    let (ia, ib) = (a.id, b.id);
    ctx.insert(a).unwrap();
    ctx.insert(b).unwrap();
    assert_eq!(ctx.try_begins(), Some(date(2007, 1, 1)));
    let res = Resolution::new(365).unwrap();
    let layout = ctx.layout_at(800, &res, &date(2010, 1, 1));
    assert!((px(&layout.day_height) - 2.19).abs() < 0.01);
    assert_eq!(layout.offsets.len(), 2);
    assert_eq!(layout.offsets[0].0, ia);
    assert_eq!(layout.offsets[0].1, Some(PixelLength { numerator: 0, denominator: 365 }));
    assert_eq!(layout.offsets[1].0, ib);
    // 2007-01-01 to 2009-01-01 is 731 days, 2008 being a leap year.
    let off_b = layout.offsets[1].1.unwrap();
    assert_eq!(off_b, PixelLength { numerator: 731 * 800, denominator: 365 });
    assert!((px(&off_b) - 731.0 * 800.0 / 365.0).abs() < 1e-9);
    assert_eq!(layout.timeline_height, PixelLength { numerator: 1096 * 800, denominator: 365 });
}

#[test]
fn layout_isolates_unresolved_entity() {
    let (cat, mut ctx) = one_category("c");
    let a = point(cat.id, "A", PointInTime::Year(2007));
    let u = point(cat.id, "U", PointInTime::Undetermined);
    let b = point(cat.id, "B", PointInTime::Month(2007, Month::February));
    ctx.insert(a).unwrap();
    ctx.insert(u).unwrap();
    ctx.insert(b).unwrap();
    let layout = ctx.layout(100, &Resolution::new(10).unwrap());
    assert!(layout.offsets[0].1.is_some());
    assert_eq!(layout.offsets[1].1, None);
    assert_eq!(layout.offsets[2].1, Some(PixelLength { numerator: 31 * 100, denominator: 10 }));
}

#[test]
fn empty_repository_has_zero_span_layout() {
    let (_, ctx) = one_category("c");
    assert_eq!(ctx.span_days(), 0);
    let layout = ctx.layout(800, &Resolution::default());
    assert_eq!(layout.timeline_height.numerator, 0);
    assert!(layout.offsets.is_empty());
}

#[test]
fn span_counts_days_to_today() {
    let (cat, mut ctx) = one_category("c");
    ctx.insert(point(cat.id, "A", PointInTime::Year(2007))).unwrap();
    assert_eq!(ctx.span_days_at(&date(2007, 2, 1)), 31);
    assert!(ctx.span_days() > 6000);
}

#[test]
fn resolution_rejects_zero_days() {
    assert!(Resolution::new(0).is_none());
    assert_eq!(Resolution::new(30).unwrap().days_shown(), 30);
}

#[test]
fn view_state_starts_neutral() {
    let (_, ctx) = one_category("c");
    let vs = provide_view_state(&ctx, 730, Resolution::default());
    assert_eq!(vs.cursor, ViewCursor::Neutral);
    assert!((px(&vs.day_height) - 2.0).abs() < 1e-9);
    assert_eq!(vs.timeline_height.numerator, 0);
}

#[test]
fn sample_timeline() {
    let ctx = provide_timeline_context().unwrap();
    assert_eq!(ctx.pois().keys().len(), 11);
    assert_eq!(ctx.categories().len(), 4);
    assert_eq!(ctx.categories()[1].pois().len(), 4);
    assert_eq!(ctx.categories()[0].name(), "Life events");
    assert_eq!(ctx.try_begins(), Some(date(2007, 1, 1)));
    let cats = init_example_categories();
    let timeline = Timeline::new(Identifier::fresh());
    assert_eq!(init_example_pois(&cats, &timeline).len(), 11);
    assert_eq!(init_example_pois(&cats[..2].to_vec(), &timeline).len(), 5);
}

#[test]
fn constructors_fill_fields() {
    let parent = Identifier::fresh();
    let p = PointOfInterest::new_barebones(parent, "n".to_string());
    assert_eq!(p.parent(), parent);
    assert_eq!(p.starts, PointInTime::Undetermined);
    assert_eq!(p.begins(), Err(TimelineError::UnresolvedTime));
    let person = Person::new("Långben".to_string(), PointInTime::Day(date(2007, 12, 30)));
    assert_eq!(person.begins(), Ok(date(2007, 12, 30)));
    assert_eq!(person.name(), "Långben");
    let t = Timeline::new(person.identity());
    assert_eq!(t.parent(), person.identity());
    let q: PointOfInterest = NonSignalPointOfInterest::new(parent, "m".to_string()).into();
    assert_eq!(q.name(), "m");
}

#[test]
fn scroll_centres_element() {
    assert_eq!(center_element_in_container(1000, 400, 300, 100, 800), (800, 0));
    assert_eq!(center_element_in_container(50, 400, 900, 100, 800), (-150, 550));
    assert_eq!(center_element_in_container(7, 5, 10, 3, 2), (5, 10));
}

#[test]
fn view_state_at_measures_span_to_given_day() {
    let (cat, mut ctx) = one_category("c");
    ctx.insert(point(cat.id, "A", PointInTime::Year(2007))).unwrap();
    let vs = provide_view_state_at(&ctx, 365, Resolution::default(), &date(2008, 1, 1));
    assert_eq!(vs.timeline_height, PixelLength { numerator: 365 * 365, denominator: 365 });
    assert!((px(&vs.timeline_height) - 365.0).abs() < 1e-9);
}

#[test]
fn add_poi_keeps_full_record_and_category_order() {
    let first = MainCategory::new("First".to_string());
    let second = MainCategory::new("Second".to_string());
    let mut ctx = TimelineContext::new(vec![first.clone(), second.clone()], Vec::new()).unwrap();
    let mut p = NonSignalPointOfInterest::new(second.id, "Simmade".to_string());
    p.context = "i sjön".to_string();
    p.ends = Ending::After;
    let (id, tl) = (p.id, p.timeline);
    ctx.add_poi(p).unwrap();
    let stored = ctx.pois().get(&id).unwrap();
    assert_eq!(stored.timeline, tl);
    assert_eq!(stored.ends, Ending::After);
    assert_eq!(stored.context, "i sjön");
    assert_eq!(ctx.categories()[0].category.id, first.id);
    assert!(ctx.categories()[0].pois().is_empty());
    assert_eq!(ctx.categories()[1].pois(), &vec![id]);
    assert!(ctx.pois().search("Simmade").contains(&id));
}

#[test]
fn search_finds_every_record_sharing_a_word() {
    let (cat, mut ctx) = one_category("c");
    let a = point(cat.id, "Skolstart", PointInTime::Year(2014));
    let b = point(cat.id, "skolstart", PointInTime::Year(2015));
    let (ia, ib) = (a.id, b.id);
    ctx.insert(a).unwrap();
    ctx.insert(b).unwrap();
    let found = ctx.pois().search("SKOLSTART");
    assert!(found.contains(&ia) && found.contains(&ib));
}

#[test]
fn sample_points_have_their_categories_and_starts() {
    let cats = init_example_categories();
    let timeline = Timeline::new(Identifier::fresh());
    let pois = init_example_pois(&cats, &timeline);
    assert_eq!(pois[0].name, "Födsel");
    assert_eq!(pois[0].starts, PointInTime::Day(date(2007, 12, 30)));
    assert_eq!(pois[0].parent, cats[0].id);
    assert_eq!(pois[5].name, "Hammarstad");
    assert_eq!(pois[5].parent, cats[2].id);
    assert_eq!(pois[10].starts, PointInTime::Year(2017));
    assert_eq!(pois[10].parent, cats[3].id);
}

#[test]
fn search_finds_multi_word_names() {
    let (cat, mut ctx) = one_category("Schooling");
    let a = point(cat.id, "Lågstadiet på Gladskolan", PointInTime::Year(2014));
    let b = point(cat.id, "Mellanstadiet på snejipan", PointInTime::Year(2017));
    let (ia, ib) = (a.id, b.id);
    ctx.insert(a).unwrap();
    ctx.insert(b).unwrap();
    let found = ctx.pois().search("Lågstadiet på Gladskolan");
    assert!(found.contains(&ia));
    assert!(!found.contains(&ib));
    assert!(ctx.pois().search("Mellanstadiet på snejipan").contains(&ib));
}

#[test]
fn autocomplete_offers_at_most_five() {
    let (cat, mut ctx) = one_category("c");
    for name in ["sa", "sb", "sc", "sd", "se", "sf", "sg"] {
        ctx.insert(point(cat.id, name, PointInTime::Year(2000))).unwrap();
    }
    let options = ctx.pois().autocomplete("s");
    assert!(!options.is_empty() && options.len() <= 5);
    assert!(options.iter().all(|o| o.starts_with('s')));
}
