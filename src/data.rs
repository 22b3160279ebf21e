//! The repository of points of interest, its category index, and the context
//! that keeps both, and the text index, in step.

use crate::date::{local_today, CalendarDate};
use crate::error::TimelineError;
use crate::ident::Identifier;
use crate::search::{
    complete_term, completions_of, index_text, indexed_keys, keys_of_all, keyword_keys, keyword_of,
    new_search_index, search_keys, search_words, timeline_settings, KEYS_PER_KEYWORD, MAX_SEARCH_RESULTS,
};
use crate::slots::{new_slot_map, slot_entries, slot_map_insert, slot_of};
use crate::types::{MainCategory, NonSignalPointOfInterest, PointOfInterest};
use indexmap::IndexMap;
use indicium::simple::SearchIndex;
use vstd::prelude::*;

verus! {

/// No identifier occurs twice in `ids`.
pub open spec fn all_distinct(ids: Seq<Identifier>) -> bool {
    forall|i: int, j: int| 0 <= i < ids.len() && 0 <= j < ids.len() && i != j ==> ids[i] != ids[j]
}

/// The identifiers of the points of interest, in their order.
pub open spec fn poi_ids(pois: Seq<PointOfInterest>) -> Seq<Identifier> {
    pois.map_values(|p: PointOfInterest| p.id)
}

/// The identifiers of the points of interest whose parent is `category`, in
/// their order.
pub open spec fn members_of(pois: Seq<PointOfInterest>, category: Identifier) -> Seq<Identifier>
    decreases pois.len(),
{
    if pois.len() == 0 {
        Seq::empty()
    } else {
        let rest = members_of(pois.drop_last(), category);
        if pois.last().parent == category {
            rest.push(pois.last().id)
        } else {
            rest
        }
    }
}

/// The earliest date that a start of the points of interest resolves to; none
/// where no start resolves.
pub open spec fn earliest(pois: Seq<PointOfInterest>) -> Option<CalendarDate>
    decreases pois.len(),
{
    if pois.len() == 0 {
        None
    } else {
        let rest = earliest(pois.drop_last());
        match pois.last().starts.resolved() {
            Ok(d) => match rest {
                Some(e) => if d.before(e) {
                    Some(d)
                } else {
                    Some(e)
                },
                None => Some(d),
            },
            Err(_) => rest,
        }
    }
}

/// The key values the text index of the points of interest should hold.
pub open spec fn key_values(pois: Seq<PointOfInterest>) -> Set<u128> {
    Set::new(|v: u128| exists|i: int| 0 <= i < pois.len() && (#[trigger] pois[i]).id.value == v)
}

/// The normalised form of every word of the record's name is a keyword with the
/// record's key attached.
pub open spec fn name_indexed(keywords: Map<Seq<char>, Set<u128>>, p: PointOfInterest) -> bool {
    forall|j: int|
        0 <= j < search_words(p.name@).len() ==> keywords.contains_key(
            keyword_of(#[trigger] search_words(p.name@)[j]),
        ) && keywords[keyword_of(search_words(p.name@)[j])].contains(p.id.value)
}

/// Normalising each word once more leaves it as it is.
pub open spec fn words_settled(words: Seq<Seq<char>>) -> bool {
    forall|j: int| 0 <= j < words.len() ==> keyword_of(#[trigger] words[j]) == words[j]
}

/// There are no more key values than records.
pub proof fn lemma_key_values_finite(pois: Seq<PointOfInterest>)
    ensures
        key_values(pois).finite(),
        key_values(pois).len() <= pois.len(),
    decreases pois.len(),
{
    if pois.len() == 0 {
        assert(key_values(pois) =~= Set::<u128>::empty());
    } else {
        let rest = pois.drop_last();
        lemma_key_values_finite(rest);
        assert forall|v: u128| key_values(pois).contains(v) implies key_values(rest).insert(
            pois.last().id.value,
        ).contains(v) by {
            let i = choose|i: int| 0 <= i < pois.len() && pois[i].id.value == v;
            if i < rest.len() {
                assert(rest[i] == pois[i]);
            }
        }
        assert forall|v: u128| key_values(rest).insert(pois.last().id.value).contains(v) implies key_values(
            pois,
        ).contains(v) by {
            if v != pois.last().id.value {
                let i = choose|i: int| 0 <= i < rest.len() && rest[i].id.value == v;
                assert(rest[i] == pois[i]);
            } else {
                assert(pois[pois.len() - 1].id.value == v);
            }
        }
        assert(key_values(pois) =~= key_values(rest).insert(pois.last().id.value));
    }
}

/// The points of interest, owned in insertion order, with their text index.
pub struct PoIs {
    pois: Vec<PointOfInterest>,
    search: SearchIndex<u128>,
}

impl PoIs {
    /// The records, in insertion order.
    pub closed spec fn records(&self) -> Seq<PointOfInterest> {
        self.pois@
    }

    /// Identifiers are unique, and the text index holds exactly the records' keys.
    pub closed spec fn wf(&self) -> bool {
        &&& all_distinct(poi_ids(self.pois@))
        &&& timeline_settings(self.search)
        &&& indexed_keys(self.search) == key_values(self.pois@)
        &&& forall|w: Seq<char>|
            #[trigger] keyword_keys(self.search).contains_key(w) ==> keyword_keys(
                self.search,
            )[w].subset_of(key_values(self.pois@))
        &&& forall|i: int|
            0 <= i < self.pois@.len() && i < KEYS_PER_KEYWORD ==> name_indexed(
                keyword_keys(self.search),
                #[trigger] self.pois@[i],
            )
    }

    /// The keyword table of the text index.
    pub closed spec fn keyword_table(&self) -> Map<Seq<char>, Set<u128>> {
        keyword_keys(self.search)
    }

    /// Identifiers of a well-formed repository are pairwise distinct.
    pub proof fn lemma_ids_distinct(&self)
        requires
            self.wf(),
        ensures
            all_distinct(poi_ids(self.records())),
    {
    }

    /// An empty repository.
    pub fn new() -> (r: PoIs)
        ensures
            r.wf(),
            r.records() == Seq::<PointOfInterest>::empty(),
    {
        let r = PoIs { pois: Vec::new(), search: new_search_index() };
        assert(key_values(r.pois@) =~= Set::<u128>::empty());
        r
    }

    /// The repository holding the given records in their order, with each record
    /// indexed; fails with `DuplicateIdentifier` exactly when two share an identifier.
    pub fn from_poi_collection(pois: Vec<PointOfInterest>) -> (r: Result<PoIs, TimelineError>)
        ensures
            r.is_ok() <==> all_distinct(poi_ids(pois@)),
            r.is_err() ==> r == Err::<PoIs, TimelineError>(TimelineError::DuplicateIdentifier),
            r.is_ok() ==> r->Ok_0.wf() && r->Ok_0.records() == pois@,
    {
        let ghost all = pois@;
        let mut rest = pois;
        let mut repo = PoIs::new();
        while rest.len() > 0
            invariant
                repo.wf(),
                all == pois@,
                all == repo.records() + rest@,
                all_distinct(poi_ids(repo.records())),
            decreases rest.len(),
        {
            let ghost before = repo.records();
            let p = rest.remove(0);
            match repo.insert(p) {
                Ok(()) => {
                    assert(all == repo.records() + rest@) by {
                        assert(all =~= repo.records() + rest@);
                    }
                },
                Err(e) => {
                    proof {
                        let k = before.len() as int;
                        assert(poi_ids(before).contains(p.id));
                        let j = choose|j: int| 0 <= j < before.len() && poi_ids(before)[j] == p.id;
                        assert(all[j] == before[j]);
                        assert(all[k] == p);
                        assert(poi_ids(all)[j] == poi_ids(all)[k]);
                        assert(0 <= j < k < all.len());
                        assert(!all_distinct(poi_ids(all)));
                    }
                    return Err(e);
                },
            }
        }
        assert(all =~= repo.records());
        Ok(repo)
    }

    /// Whether a record with the identifier is held.
    pub fn contains(&self, id: &Identifier) -> (r: bool)
        ensures
            r == poi_ids(self.records()).contains(*id),
    {
        let mut i: usize = 0;
        while i < self.pois.len()
            invariant
                i <= self.pois@.len(),
                forall|j: int| 0 <= j < i ==> self.pois@[j].id != *id,
            decreases self.pois@.len() - i,
        {
            if self.pois[i].id == *id {
                assert(poi_ids(self.pois@)[i as int] == *id);
                return true;
            }
            i = i + 1;
        }
        assert(!poi_ids(self.pois@).contains(*id)) by {
            if poi_ids(self.pois@).contains(*id) {
                let j = choose|j: int|
                    0 <= j < self.pois@.len() && poi_ids(self.pois@)[j] == *id;
                assert(self.pois@[j].id == *id);
            }
        }
        false
    }

    /// Adds the record and indexes its name and context; fails with
    /// `DuplicateIdentifier`, changing nothing, where its identifier is taken.
    pub fn insert(&mut self, poi: PointOfInterest) -> (r: Result<(), TimelineError>)
        requires
            old(self).wf(),
        ensures
            final(self).wf(),
            r.is_err() <==> poi_ids(old(self).records()).contains(poi.id),
            r.is_err() ==> r == Err::<(), TimelineError>(TimelineError::DuplicateIdentifier),
            r.is_err() ==> *final(self) == *old(self),
            r.is_ok() ==> final(self).records() == old(self).records().push(poi),
    {
        if self.contains(&poi.id) {
            return Err(TimelineError::DuplicateIdentifier);
        }
        let ghost before = self.pois@;
        let ghost keys_before = indexed_keys(self.search);
        let ghost m0 = keyword_keys(self.search);
        proof {
            lemma_key_values_finite(before);
        }
        index_text(&mut self.search, poi.id.value, &poi.name);
        let ghost m1 = keyword_keys(self.search);
        index_text(&mut self.search, poi.id.value, &poi.context);
        let ghost m2 = keyword_keys(self.search);
        self.pois.push(poi);
        proof {
            let after = self.pois@;
            let key = poi.id.value;
            assert(keys_before.insert(key).insert(key) =~= keys_before.insert(key));
            assert(!poi_ids(before).contains(poi.id));
            assert(poi_ids(after)[before.len() as int] == poi.id);
            assert(key_values(after) =~= key_values(before).insert(key)) by {
                assert forall|v: u128| key_values(before).insert(key).contains(v) implies
                    key_values(after).contains(v) by {
                    if v == key {
                        assert(after[before.len() as int].id.value == v);
                    } else {
                        let i = choose|i: int| 0 <= i < before.len() && before[i].id.value == v;
                        assert(after[i] == before[i]);
                    }
                }
                assert forall|v: u128| key_values(after).contains(v) implies key_values(
                    before,
                ).insert(key).contains(v) by {
                    let i = choose|i: int| 0 <= i < after.len() && after[i].id.value == v;
                    if i < before.len() {
                        assert(after[i] == before[i]);
                    }
                }
            }
            assert forall|i: int, j: int|
                0 <= i < after.len() && 0 <= j < after.len() && i != j implies poi_ids(after)[i]
                != poi_ids(after)[j] by {
                if i < before.len() && j < before.len() {
                    assert(poi_ids(before)[i] == poi_ids(after)[i]);
                    assert(poi_ids(before)[j] == poi_ids(after)[j]);
                } else if i < before.len() {
                    assert(poi_ids(before)[i] == poi_ids(after)[i]);
                } else if j < before.len() {
                    assert(poi_ids(before)[j] == poi_ids(after)[j]);
                }
            }
            assert forall|w: Seq<char>| #[trigger] m2.contains_key(w) implies m2[w].subset_of(
                key_values(after),
            ) by {
                if m1.contains_key(w) {
                    if m0.contains_key(w) {
                        assert(m0[w].subset_of(key_values(before)));
                    }
                }
            }
            assert forall|i: int|
                0 <= i < after.len() && i < KEYS_PER_KEYWORD implies name_indexed(
                m2,
                #[trigger] after[i],
            ) by {
                let p = after[i];
                assert forall|j: int| 0 <= j < search_words(p.name@).len() implies m2.contains_key(
                    keyword_of(#[trigger] search_words(p.name@)[j]),
                ) && m2[keyword_of(search_words(p.name@)[j])].contains(p.id.value) by {
                    let w = keyword_of(search_words(p.name@)[j]);
                    if i < before.len() {
                        assert(after[i] == before[i]);
                        assert(name_indexed(m0, before[i]));
                        assert(m0.contains_key(w));
                    } else {
                        assert(p == poi);
                        if m0.contains_key(w) {
                            assert(m0[w].subset_of(key_values(before)));
                            vstd::set_lib::lemma_len_subset(m0[w], key_values(before));
                        }
                        assert(m1.contains_key(w) && m1[w].contains(key));
                    }
                }
            }
        }
        Ok(())
    }
}

impl PoIs {
    /// The identifiers of all records.
    pub fn keys(&self) -> (r: Vec<Identifier>)
        ensures
            r@ == poi_ids(self.records()),
            self.wf() ==> all_distinct(r@),
    {
        let mut r: Vec<Identifier> = Vec::new();
        let mut i: usize = 0;
        while i < self.pois.len()
            invariant
                i <= self.pois@.len(),
                r@ == poi_ids(self.pois@.subrange(0, i as int)),
            decreases self.pois@.len() - i,
        {
            r.push(self.pois[i].id);
            i = i + 1;
            assert(r@ =~= poi_ids(self.pois@.subrange(0, i as int)));
        }
        assert(self.pois@.subrange(0, i as int) =~= self.pois@);
        r
    }

    /// The record with the identifier, if one is held.
    pub fn get(&self, id: &Identifier) -> (r: Option<&PointOfInterest>)
        ensures
            r.is_some() <==> poi_ids(self.records()).contains(*id),
            r.is_some() ==> exists|i: int|
                0 <= i < self.records().len() && self.records()[i] == *r->Some_0,
            r.is_some() ==> r->Some_0.id == *id,
    {
        let mut i: usize = 0;
        while i < self.pois.len()
            invariant
                i <= self.pois@.len(),
                forall|j: int| 0 <= j < i ==> self.pois@[j].id != *id,
            decreases self.pois@.len() - i,
        {
            if self.pois[i].id == *id {
                assert(poi_ids(self.pois@)[i as int] == *id);
                return Some(&self.pois[i]);
            }
            i = i + 1;
        }
        assert(!poi_ids(self.pois@).contains(*id)) by {
            if poi_ids(self.pois@).contains(*id) {
                let j = choose|j: int|
                    0 <= j < self.pois@.len() && poi_ids(self.pois@)[j] == *id;
                assert(self.pois@[j].id == *id);
            }
        }
        None
    }

    /// The identifiers whose indexed name or context matches the term under the
    /// text index's rule; each is the identifier of a held record. A record is
    /// found by its name where normalising the name's words once more leaves them
    /// as they are, and the record is among the first `KEYS_PER_KEYWORD` (the
    /// index's limit of keys per keyword). A name of several words is found where
    /// its last word is not among the others and the repository holds at most
    /// `MAX_SEARCH_RESULTS` records (the index's limit on such results).
    pub fn search(&self, term: &str) -> (r: Vec<Identifier>)
        requires
            self.wf(),
        ensures
            forall|i: int| 0 <= i < r@.len() ==> poi_ids(self.records()).contains(#[trigger] r@[i]),
            forall|i: int|
                0 <= i < self.records().len() && i < KEYS_PER_KEYWORD && search_words(term@)
                    == search_words((#[trigger] self.records()[i]).name@) && search_words(
                    term@,
                ).len() >= 1 && words_settled(search_words(term@)) && (search_words(term@).len()
                    == 1 || (!search_words(term@).drop_last().contains(search_words(term@).last())
                    && self.records().len() <= MAX_SEARCH_RESULTS)) ==> r@.contains(
                    self.records()[i].id,
                ),
    {
        let found = search_keys(&self.search, term);
        let mut r: Vec<Identifier> = Vec::new();
        let mut i: usize = 0;
        while i < found.len()
            invariant
                self.wf(),
                i <= found@.len(),
                r@.len() == i,
                forall|j: int| 0 <= j < found@.len() ==> indexed_keys(self.search).contains(#[trigger] found@[j]),
                forall|j: int| 0 <= j < i ==> poi_ids(self.pois@).contains(#[trigger] r@[j]),
                forall|j: int| 0 <= j < i ==> #[trigger] r@[j] == (Identifier { value: found@[j] }),
            decreases found@.len() - i,
        {
            let v = found[i];
            proof {
                assert(key_values(self.pois@).contains(v));
                let k = choose|k: int| 0 <= k < self.pois@.len() && self.pois@[k].id.value == v;
                assert(poi_ids(self.pois@)[k] == Identifier { value: v });
            }
            r.push(Identifier { value: v });
            i = i + 1;
        }
        proof {
            lemma_key_values_finite(self.pois@);
            assert forall|i: int|
                0 <= i < self.records().len() && i < KEYS_PER_KEYWORD && search_words(term@)
                    == search_words((#[trigger] self.records()[i]).name@) && search_words(
                    term@,
                ).len() >= 1 && words_settled(search_words(term@)) && (search_words(term@).len()
                    == 1 || (!search_words(term@).drop_last().contains(search_words(term@).last())
                    && self.records().len() <= MAX_SEARCH_RESULTS)) implies r@.contains(
                self.records()[i].id,
            ) by {
                let p = self.pois@[i];
                let ws = search_words(term@);
                let m = keyword_keys(self.search);
                assert(name_indexed(m, p));
                assert forall|j: int| 0 <= j < ws.len() implies m.contains_key(#[trigger] ws[j])
                    && m[ws[j]].contains(p.id.value) by {
                    assert(keyword_of(search_words(p.name@)[j]) == ws[j]);
                }
                if ws.len() == 1 {
                    assert(m.contains_key(ws[0]));
                    assert(m[ws[0]].contains(p.id.value));
                } else {
                    assert(m.contains_key(ws[0]));
                    vstd::set_lib::lemma_len_subset(m[ws[0]], key_values(self.pois@));
                    assert(keys_of_all(m, ws).subset_of(m[ws[0]]));
                    vstd::set_lib::lemma_len_subset(keys_of_all(m, ws), key_values(self.pois@));
                    assert(keys_of_all(m, ws).contains(p.id.value));
                }
                assert(found@.contains(p.id.value));
                let k = choose|k: int| 0 <= k < found@.len() && found@[k] == p.id.value;
                assert(r@[k] == p.id);
            }
        }
        r
    }

    /// Completions of the term drawn from the indexed text: what the text index
    /// offers over its keyword table. Where the term is one word that starts the
    /// normalised form of a word of the name of one of the first
    /// `KEYS_PER_KEYWORD` records, one to five completions come back, each a
    /// prefix of a keyword that the word starts.
    pub fn autocomplete(&self, term: &str) -> (r: Vec<String>)
        requires
            self.wf(),
        ensures
            r@.map_values(|s: String| s@) == completions_of(self.keyword_table(), term@),
            search_words(term@).len() == 1 && (exists|i: int, j: int|
                0 <= i < self.records().len() && i < KEYS_PER_KEYWORD && 0 <= j < search_words(
                    self.records()[i].name@,
                ).len() && search_words(term@)[0].is_prefix_of(
                    keyword_of(#[trigger] search_words(self.records()[i].name@)[j]),
                )) ==> 1 <= r@.len() <= 5 && forall|k: int|
                0 <= k < r@.len() ==> exists|w: Seq<char>|
                    #[trigger] self.keyword_table().contains_key(w) && search_words(
                        term@,
                    )[0].is_prefix_of(w) && (#[trigger] r@[k])@.is_prefix_of(w),
    {
        let r = complete_term(&self.search, term);
        proof {
            if search_words(term@).len() == 1 && (exists|i: int, j: int|
                0 <= i < self.records().len() && i < KEYS_PER_KEYWORD && 0 <= j < search_words(
                    self.records()[i].name@,
                ).len() && search_words(term@)[0].is_prefix_of(
                    keyword_of(#[trigger] search_words(self.records()[i].name@)[j]),
                )) {
                let (i, j) = choose|i: int, j: int|
                    0 <= i < self.records().len() && i < KEYS_PER_KEYWORD && 0 <= j < search_words(
                        self.records()[i].name@,
                    ).len() && search_words(term@)[0].is_prefix_of(
                        keyword_of(#[trigger] search_words(self.records()[i].name@)[j]),
                    );
                let p = self.pois@[i];
                assert(name_indexed(keyword_keys(self.search), p));
                let w0 = keyword_of(search_words(p.name@)[j]);
                assert(keyword_keys(self.search).contains_key(w0));
                assert(search_words(term@)[0].is_prefix_of(w0));
                assert forall|k: int| 0 <= k < r@.len() implies exists|w: Seq<char>|
                    #[trigger] self.keyword_table().contains_key(w) && search_words(
                        term@,
                    )[0].is_prefix_of(w) && (#[trigger] r@[k])@.is_prefix_of(w) by {
                    let w = choose|w: Seq<char>|
                        #[trigger] keyword_keys(self.search).contains_key(w) && search_words(
                            term@,
                        )[0].is_prefix_of(w) && r@[k]@.is_prefix_of(w);
                    assert(self.keyword_table().contains_key(w));
                }
            }
        }
        r
    }

    /// The earliest date that a record's start resolves to, over the records as
    /// they are now; none for an empty repository, or where no start resolves.
    pub fn try_begins(&self) -> (r: Option<CalendarDate>)
        ensures
            r == earliest(self.records()),
            r.is_some() ==> r->Some_0.wf(),
    {
        let mut best: Option<CalendarDate> = None;
        let mut i: usize = 0;
        while i < self.pois.len()
            invariant
                i <= self.pois@.len(),
                best == earliest(self.pois@.subrange(0, i as int)),
                best.is_some() ==> best->Some_0.wf(),
            decreases self.pois@.len() - i,
        {
            let ghost prefix = self.pois@.subrange(0, i as int + 1);
            assert(prefix.drop_last() =~= self.pois@.subrange(0, i as int));
            match self.pois[i].begins() {
                Ok(d) => {
                    best = match best {
                        Some(e) => if d.is_before(&e) {
                            Some(d)
                        } else {
                            Some(e)
                        },
                        None => Some(d),
                    };
                },
                Err(_) => {},
            }
            i = i + 1;
        }
        assert(self.pois@.subrange(0, i as int) =~= self.pois@);
        best
    }

    /// The earliest date that a record's start resolves to; fails with
    /// `EmptyRepository` where there is no record, and with `UnresolvedTime`
    /// where no start resolves.
    pub fn begins(&self) -> (r: Result<CalendarDate, TimelineError>)
        ensures
            self.records().len() == 0 ==> r == Err::<CalendarDate, TimelineError>(
                TimelineError::EmptyRepository,
            ),
            self.records().len() > 0 ==> r == match earliest(self.records()) {
                Some(d) => Ok(d),
                None => Err(TimelineError::UnresolvedTime),
            },
    {
        if self.pois.len() == 0 {
            return Err(TimelineError::EmptyRepository);
        }
        match self.try_begins() {
            Some(d) => Ok(d),
            None => Err(TimelineError::UnresolvedTime),
        }
    }
}

/// A category with the identifiers of its points of interest, in insertion order.
pub struct ByMainCategory {
    pub category: MainCategory,
    pub points_of_interest: Vec<Identifier>,
}

impl ByMainCategory {
    pub fn name(&self) -> (r: &String)
        ensures
            r@ == self.category.name@,
    {
        &self.category.name
    }

    /// The identifiers of the category's points of interest, in insertion order.
    pub fn pois(&self) -> (r: &Vec<Identifier>)
        ensures
            r@ == self.points_of_interest@,
    {
        &self.points_of_interest
    }
}

/// The identifiers of the categories, in their order.
pub open spec fn group_ids(groups: Seq<ByMainCategory>) -> Seq<Identifier> {
    groups.map_values(|g: ByMainCategory| g.category.id)
}

/// The identifiers of the points of interest whose parent is `category`.
pub fn members_in(pois: &Vec<PointOfInterest>, category: Identifier) -> (r: Vec<Identifier>)
    ensures
        r@ == members_of(pois@, category),
{
    let mut r: Vec<Identifier> = Vec::new();
    let mut i: usize = 0;
    while i < pois.len()
        invariant
            i <= pois@.len(),
            r@ == members_of(pois@.subrange(0, i as int), category),
        decreases pois@.len() - i,
    {
        let ghost prefix = pois@.subrange(0, i as int + 1);
        assert(prefix.drop_last() =~= pois@.subrange(0, i as int));
        if pois[i].parent == category {
            r.push(pois[i].id);
        }
        i = i + 1;
    }
    assert(pois@.subrange(0, i as int) =~= pois@);
    r
}

/// The categories in their order, with a lookup from identifier to place.
pub struct CategoryIndex {
    slots: IndexMap<u128, usize>,
    groups: Vec<ByMainCategory>,
}

impl CategoryIndex {
    pub closed spec fn groups(&self) -> Seq<ByMainCategory> {
        self.groups@
    }

    /// The lookup sends each category's identifier to its place, and no two
    /// categories share an identifier.
    pub closed spec fn wf(&self) -> bool {
        &&& slot_entries(self.slots).len() == self.groups@.len()
        &&& forall|i: int|
            0 <= i < self.groups@.len() ==> #[trigger] slot_entries(self.slots)[i] == (
                self.groups@[i].category.id.value,
                i as usize,
            )
        &&& all_distinct(group_ids(self.groups@))
    }

    /// The place of the category with the identifier, if there is one.
    pub fn slot(&self, id: &Identifier) -> (r: Option<usize>)
        requires
            self.wf(),
        ensures
            r.is_none() <==> !group_ids(self.groups()).contains(*id),
            r.is_some() ==> r->Some_0 < self.groups().len() && self.groups()[r->Some_0 as int].category.id
                == *id,
    {
        let r = slot_of(&self.slots, id.value);
        let n = self.groups.len();
        proof {
            if r.is_some() {
                let i = choose|i: int|
                    0 <= i < slot_entries(self.slots).len() && slot_entries(self.slots)[i] == (
                        id.value,
                        r->Some_0,
                    );
                assert(slot_entries(self.slots)[i] == (self.groups@[i].category.id.value, i as usize));
                assert(i < n);
                assert(r->Some_0 == i);
                assert(group_ids(self.groups@)[i] == *id);
            } else {
                if group_ids(self.groups@).contains(*id) {
                    let j = choose|j: int| 0 <= j < self.groups@.len() && group_ids(self.groups@)[j] == *id;
                    assert(slot_entries(self.slots)[j].0 == id.value);
                }
            }
        }
        r
    }

    /// The categories in their order, each with the identifiers of the given
    /// points of interest whose parent it is; fails with `DuplicateIdentifier`
    /// exactly when two categories share an identifier.
    pub fn arrange_by_category(starting_categories: Vec<MainCategory>, pois: &Vec<PointOfInterest>) -> (r: Result<
        CategoryIndex,
        TimelineError,
    >)
        ensures
            r.is_ok() <==> all_distinct(starting_categories@.map_values(|c: MainCategory| c.id)),
            r.is_err() ==> r == Err::<CategoryIndex, TimelineError>(TimelineError::DuplicateIdentifier),
            r.is_ok() ==> r->Ok_0.wf() && r->Ok_0.groups().len() == starting_categories@.len(),
            r.is_ok() ==> forall|i: int|
                0 <= i < starting_categories@.len() ==> (#[trigger] r->Ok_0.groups()[i]).category
                    == starting_categories@[i] && r->Ok_0.groups()[i].points_of_interest@ == members_of(
                    pois@,
                    starting_categories@[i].id,
                ),
    {
        let ghost all = starting_categories@;
        let ghost all_ids = all.map_values(|c: MainCategory| c.id);
        let mut rest = starting_categories;
        let mut index = CategoryIndex { slots: new_slot_map(), groups: Vec::new() };
        while rest.len() > 0
            invariant
                index.wf(),
                all == starting_categories@,
                all_ids == all.map_values(|c: MainCategory| c.id),
                all.len() == index.groups@.len() + rest@.len(),
                forall|i: int| 0 <= i < index.groups@.len() ==> (#[trigger] index.groups@[i]).category == all[i]
                    && index.groups@[i].points_of_interest@ == members_of(pois@, all[i].id),
                forall|i: int| 0 <= i < rest@.len() ==> #[trigger] rest@[i] == all[index.groups@.len() + i],
            decreases rest.len(),
        {
            let category = rest.remove(0);
            let ghost k = index.groups@.len() as int;
            assert(category == all[k]);
            let id = category.id;
            if index.slot(&id).is_some() {
                proof {
                    let j = choose|j: int| 0 <= j < index.groups@.len() && group_ids(index.groups@)[j] == id;
                    assert(all_ids[j] == all[j].id);
                    assert(all_ids[k] == id);
                    assert(!all_distinct(all_ids));
                }
                return Err(TimelineError::DuplicateIdentifier);
            }
            let members = members_in(pois, id);
            let ghost old_groups = index.groups@;
            let place = index.groups.len();
            assert forall|i: int| 0 <= i < slot_entries(index.slots).len() implies #[trigger] slot_entries(
                index.slots,
            )[i].0 != id.value by {
                assert(slot_entries(index.slots)[i] == (index.groups@[i].category.id.value, i as usize));
                assert(group_ids(index.groups@)[i] != id);
            }
            let _ = slot_map_insert(&mut index.slots, id.value, place);
            index.groups.push(ByMainCategory { category, points_of_interest: members });
            proof {
                assert forall|i: int, j: int|
                    0 <= i < index.groups@.len() && 0 <= j < index.groups@.len() && i != j implies group_ids(
                    index.groups@,
                )[i] != group_ids(index.groups@)[j] by {
                    if i < k && j < k {
                        assert(group_ids(old_groups)[i] == group_ids(index.groups@)[i]);
                        assert(group_ids(old_groups)[j] == group_ids(index.groups@)[j]);
                    } else if i < k {
                        assert(group_ids(old_groups)[i] == group_ids(index.groups@)[i]);
                    } else if j < k {
                        assert(group_ids(old_groups)[j] == group_ids(index.groups@)[j]);
                    }
                }
                assert forall|i: int| 0 <= i < index.groups@.len() implies #[trigger] slot_entries(
                    index.slots,
                )[i] == (index.groups@[i].category.id.value, i as usize) by {
                    if i < k {
                        assert(index.groups@[i] == old_groups[i]);
                    }
                }
            }
        }
        proof {
            assert forall|i: int, j: int|
                0 <= i < all_ids.len() && 0 <= j < all_ids.len() && i != j implies all_ids[i] != all_ids[j] by {
                assert(group_ids(index.groups@)[i] == all_ids[i]);
                assert(group_ids(index.groups@)[j] == all_ids[j]);
            }
        }
        Ok(index)
    }

    /// Appends the identifier to the members of the category at `slot`.
    fn add_member(&mut self, slot: usize, id: Identifier)
        requires
            old(self).wf(),
            slot < old(self).groups().len(),
        ensures
            final(self).wf(),
            final(self).groups().len() == old(self).groups().len(),
            forall|i: int|
                0 <= i < old(self).groups().len() ==> (#[trigger] final(self).groups()[i]).category == old(
                    self,
                ).groups()[i].category,
            forall|i: int|
                0 <= i < old(self).groups().len() && i != slot ==> (#[trigger] final(self).groups()[i]).points_of_interest@
                    == old(self).groups()[i].points_of_interest@,
            final(self).groups()[slot as int].points_of_interest@ == old(
                self,
            ).groups()[slot as int].points_of_interest@.push(id),
    {
        let ghost before = self.groups@;
        let mut group = self.groups.remove(slot);
        group.points_of_interest.push(id);
        self.groups.insert(slot, group);
        proof {
            assert forall|i: int| 0 <= i < before.len() implies #[trigger] self.groups@[i].category == before[i].category
                && (i != slot ==> self.groups@[i].points_of_interest@ == before[i].points_of_interest@) by {
                if i < slot {
                } else if i > slot {
                }
            }
            assert(group_ids(self.groups@) =~= group_ids(before));
        }
    }
}

/// The repository of points of interest with its category index; every
/// insertion reaches the records, the text index and the category index in one
/// step, or none of them.
pub struct TimelineContext {
    pois: PoIs,
    cats: CategoryIndex,
}

impl TimelineContext {
    pub closed spec fn records(&self) -> Seq<PointOfInterest> {
        self.pois.records()
    }

    pub closed spec fn groups(&self) -> Seq<ByMainCategory> {
        self.cats.groups()
    }

    /// Both indexes are consistent with the records: each record's parent is a
    /// category, and each category lists exactly the identifiers of the records
    /// whose parent it is, in insertion order.
    pub closed spec fn wf(&self) -> bool {
        &&& self.pois.wf()
        &&& self.cats.wf()
        &&& forall|i: int|
            0 <= i < self.records().len() ==> group_ids(self.groups()).contains(
                #[trigger] self.records()[i].parent,
            )
        &&& forall|i: int|
            0 <= i < self.groups().len() ==> (#[trigger] self.groups()[i]).points_of_interest@
                == members_of(self.records(), self.groups()[i].category.id)
    }

    /// The context holding the categories and the points of interest in their
    /// order. Fails with `DuplicateIdentifier` where two categories, or two
    /// points of interest, share an identifier, and otherwise with
    /// `UnknownCategory` where a point of interest's parent is not a category.
    pub fn new(categories: Vec<MainCategory>, pois: Vec<PointOfInterest>) -> (r: Result<
        TimelineContext,
        TimelineError,
    >)
        ensures
            !all_distinct(categories@.map_values(|c: MainCategory| c.id)) ==> r == Err::<
                TimelineContext,
                TimelineError,
            >(TimelineError::DuplicateIdentifier),
            all_distinct(categories@.map_values(|c: MainCategory| c.id)) && (exists|i: int|
                0 <= i < pois@.len() && !categories@.map_values(|c: MainCategory| c.id).contains(
                    #[trigger] pois@[i].parent,
                )) ==> r == Err::<TimelineContext, TimelineError>(TimelineError::UnknownCategory),
            all_distinct(categories@.map_values(|c: MainCategory| c.id)) && (forall|i: int|
                0 <= i < pois@.len() ==> categories@.map_values(|c: MainCategory| c.id).contains(
                    #[trigger] pois@[i].parent,
                )) ==> (r.is_ok() <==> all_distinct(poi_ids(pois@))),
            r.is_err() ==> r == Err::<TimelineContext, TimelineError>(
                TimelineError::DuplicateIdentifier,
            ) || r == Err::<TimelineContext, TimelineError>(TimelineError::UnknownCategory),
            r == Err::<TimelineContext, TimelineError>(TimelineError::UnknownCategory) ==> exists|i: int|
                0 <= i < pois@.len() && !categories@.map_values(|c: MainCategory| c.id).contains(
                    #[trigger] pois@[i].parent,
                ),
            r.is_ok() ==> r->Ok_0.wf() && r->Ok_0.records() == pois@ && r->Ok_0.groups().len()
                == categories@.len(),
            r.is_ok() ==> forall|i: int|
                0 <= i < categories@.len() ==> (#[trigger] r->Ok_0.groups()[i]).category
                    == categories@[i],
    {
        let ghost cat_ids = categories@.map_values(|c: MainCategory| c.id);
        let cats = match CategoryIndex::arrange_by_category(categories, &pois) {
            Ok(c) => c,
            Err(e) => {
                return Err(e);
            },
        };
        assert(group_ids(cats.groups()) =~= cat_ids);
        let mut i: usize = 0;
        while i < pois.len()
            invariant
                cats.wf(),
                group_ids(cats.groups()) == cat_ids,
                cat_ids == categories@.map_values(|c: MainCategory| c.id),
                all_distinct(cat_ids),
                i <= pois@.len(),
                forall|j: int| 0 <= j < i ==> cat_ids.contains(#[trigger] pois@[j].parent),
            decreases pois@.len() - i,
        {
            if cats.slot(&pois[i].parent).is_none() {
                return Err(TimelineError::UnknownCategory);
            }
            i = i + 1;
        }
        let ghost all = pois@;
        let repo = match PoIs::from_poi_collection(pois) {
            Ok(p) => p,
            Err(e) => {
                return Err(e);
            },
        };
        let r = TimelineContext { pois: repo, cats };
        assert forall|j: int| 0 <= j < r.records().len() implies group_ids(r.groups()).contains(
            #[trigger] r.records()[j].parent,
        ) by {
            assert(r.records()[j] == all[j]);
        }
        Ok(r)
    }

    /// Adds the point of interest to the records, the text index and the
    /// members of its category. Fails with `UnknownCategory` where its parent is
    /// not a category, and otherwise with `DuplicateIdentifier` where its
    /// identifier is taken; a failure changes nothing.
    pub fn insert(&mut self, poi: PointOfInterest) -> (r: Result<(), TimelineError>)
        requires
            old(self).wf(),
        ensures
            final(self).wf(),
            !group_ids(old(self).groups()).contains(poi.parent) ==> r == Err::<(), TimelineError>(
                TimelineError::UnknownCategory,
            ),
            group_ids(old(self).groups()).contains(poi.parent) && poi_ids(
                old(self).records(),
            ).contains(poi.id) ==> r == Err::<(), TimelineError>(TimelineError::DuplicateIdentifier),
            r.is_ok() <==> group_ids(old(self).groups()).contains(poi.parent) && !poi_ids(
                old(self).records(),
            ).contains(poi.id),
            r.is_err() ==> *final(self) == *old(self),
            r.is_ok() ==> final(self).records() == old(self).records().push(poi),
            r.is_ok() ==> final(self).groups().len() == old(self).groups().len(),
            r.is_ok() ==> forall|i: int|
                0 <= i < old(self).groups().len() ==> (#[trigger] final(self).groups()[i]).category
                    == old(self).groups()[i].category,
            r.is_ok() ==> forall|i: int|
                0 <= i < old(self).groups().len() ==> (#[trigger] final(self).groups()[i]).points_of_interest@
                    == if old(self).groups()[i].category.id == poi.parent {
                    old(self).groups()[i].points_of_interest@.push(poi.id)
                } else {
                    old(self).groups()[i].points_of_interest@
                },
    {
        let slot = match self.cats.slot(&poi.parent) {
            Some(s) => s,
            None => {
                return Err(TimelineError::UnknownCategory);
            },
        };
        let ghost before = self.records();
        let ghost groups_before = self.groups();
        let ghost p = poi;
        let id = poi.id;
        match self.pois.insert(poi) {
            Ok(()) => {},
            Err(e) => {
                return Err(e);
            },
        }
        self.cats.add_member(slot, id);
        proof {
            let after = self.records();
            assert(after.drop_last() =~= before);
            assert(after.last() == p);
            assert forall|i: int| 0 <= i < after.len() implies group_ids(self.groups()).contains(
                #[trigger] after[i].parent,
            ) by {
                assert(group_ids(self.groups()) =~= group_ids(groups_before));
                if i < before.len() {
                    assert(after[i] == before[i]);
                } else {
                    assert(group_ids(groups_before)[slot as int] == p.parent);
                }
            }
            assert forall|i: int| 0 <= i < self.groups().len() implies (#[trigger] self.groups()[i]).points_of_interest@
                == members_of(after, self.groups()[i].category.id) by {
                let c = groups_before[i].category.id;
                assert(self.groups()[i].category.id == c);
                if i == slot {
                } else {
                    assert(group_ids(groups_before)[i] == c);
                    assert(group_ids(groups_before)[slot as int] == p.parent);
                }
            }
            assert forall|i: int| 0 <= i < groups_before.len() && i != slot implies groups_before[i].category.id
                != p.parent by {
                assert(group_ids(groups_before)[i] == groups_before[i].category.id);
                assert(group_ids(groups_before)[slot as int] == p.parent);
            }
        }
        Ok(())
    }

    /// Adds the point of interest handed in by its author, as `insert` does.
    pub fn add_poi(&mut self, poi: NonSignalPointOfInterest) -> (r: Result<(), TimelineError>)
        requires
            old(self).wf(),
        ensures
            final(self).wf(),
            !group_ids(old(self).groups()).contains(poi.parent) ==> r == Err::<(), TimelineError>(
                TimelineError::UnknownCategory,
            ),
            group_ids(old(self).groups()).contains(poi.parent) && poi_ids(
                old(self).records(),
            ).contains(poi.id) ==> r == Err::<(), TimelineError>(TimelineError::DuplicateIdentifier),
            r.is_ok() <==> group_ids(old(self).groups()).contains(poi.parent) && !poi_ids(
                old(self).records(),
            ).contains(poi.id),
            r.is_err() ==> *final(self) == *old(self),
            r.is_ok() ==> final(self).records() == old(self).records().push(
                PointOfInterest {
                    id: poi.id,
                    parent: poi.parent,
                    timeline: poi.timeline,
                    starts: poi.starts,
                    ends: poi.ends,
                    name: poi.name,
                    context: poi.context,
                },
            ),
            r.is_ok() ==> final(self).groups().len() == old(self).groups().len(),
            r.is_ok() ==> forall|i: int|
                0 <= i < old(self).groups().len() ==> (#[trigger] final(self).groups()[i]).category
                    == old(self).groups()[i].category,
            r.is_ok() ==> forall|i: int|
                0 <= i < old(self).groups().len() ==> (#[trigger] final(self).groups()[i]).points_of_interest@
                    == if old(self).groups()[i].category.id == poi.parent {
                    old(self).groups()[i].points_of_interest@.push(poi.id)
                } else {
                    old(self).groups()[i].points_of_interest@
                },
    {
        let p = PointOfInterest::from(poi);
        self.insert(p)
    }

    /// What a well-formed context keeps: record identifiers are pairwise
    /// distinct, category identifiers are pairwise distinct, each record's
    /// parent is a category, and each category lists exactly the identifiers of
    /// its records in insertion order.
    pub proof fn lemma_wf_facts(&self)
        requires
            self.wf(),
        ensures
            all_distinct(poi_ids(self.records())),
            all_distinct(group_ids(self.groups())),
            forall|i: int|
                0 <= i < self.records().len() ==> group_ids(self.groups()).contains(
                    #[trigger] self.records()[i].parent,
                ),
            forall|i: int|
                0 <= i < self.groups().len() ==> (#[trigger] self.groups()[i]).points_of_interest@
                    == members_of(self.records(), self.groups()[i].category.id),
    {
    }

    /// The repository of points of interest.
    pub fn pois(&self) -> (r: &PoIs)
        requires
            self.wf(),
        ensures
            r.wf(),
            r.records() == self.records(),
    {
        &self.pois
    }

    /// The points of interest in insertion order.
    pub fn pois_in_order(&self) -> (r: &Vec<PointOfInterest>)
        ensures
            r@ == self.records(),
    {
        &self.pois.pois
    }

    /// The categories in their order, each with its members in insertion order.
    pub fn categories(&self) -> (r: &Vec<ByMainCategory>)
        ensures
            r@ == self.groups(),
    {
        &self.cats.groups
    }

    /// The earliest date that a start resolves to; none where no start resolves,
    /// an empty repository included.
    pub fn try_begins(&self) -> (r: Option<CalendarDate>)
        ensures
            r == earliest(self.records()),
            r.is_some() ==> r->Some_0.wf(),
    {
        self.pois.try_begins()
    }

    /// The days from the origin to `today`; zero where there is no origin.
    pub fn span_days_at(&self, today: &CalendarDate) -> (r: i64)
        requires
            today.wf(),
        ensures
            r == match earliest(self.records()) {
                Some(o) => today.day_number() - o.day_number(),
                None => 0,
            },
    {
        match self.pois.try_begins() {
            Some(origin) => today.days_since(&origin),
            None => 0,
        }
    }

    /// The days from the origin to the current local date; zero where there is
    /// no origin.
    pub fn span_days(&self) -> (r: i64)
        ensures
            earliest(self.records()).is_none() ==> r == 0,
            earliest(self.records()).is_some() ==> exists|t: CalendarDate|
                t.wf() && r == t.day_number() - earliest(self.records())->Some_0.day_number(),
    {
        let today = local_today();
        self.span_days_at(&today)
    }
}

/// Each category lists exactly the identifiers of the points of interest whose
/// parent it is, in the order they were inserted.
pub proof fn lemma_category_members_exact(ctx: TimelineContext, i: int)
    requires
        ctx.wf(),
        0 <= i < ctx.groups().len(),
    ensures
        ctx.groups()[i].points_of_interest@ == ctx.records().filter(
            |p: PointOfInterest| p.parent == ctx.groups()[i].category.id,
        ).map_values(|p: PointOfInterest| p.id),
{
    crate::laws::lemma_members_of_is_filter(ctx.records(), ctx.groups()[i].category.id);
}

} // verus!
