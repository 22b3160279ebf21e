//! The text index over points of interest, kept in indicium's `SearchIndex`.

use indicium::simple::{AutocompleteType, SearchIndex, SearchIndexBuilder};
use vstd::prelude::*;

verus! {

#[verifier::external_type_specification]
#[verifier::external_body]
#[verifier::reject_recursive_types(K)]
pub struct ExSearchIndex<K: Ord>(SearchIndex<K>);

// The index's keywords are kstring's strings; Verus meets the type through the
// index's `Deref`.
#[verifier::external_type_specification]
#[verifier::external_body]
#[verifier::reject_recursive_types(B)]
pub struct ExKStringBase<B>(kstring::KStringBase<B>);

/// The keys an index holds: every key attached to at least one of its keywords.
pub uninterp spec fn indexed_keys(index: SearchIndex<u128>) -> Set<u128>;

/// The index's keyword table: each keyword with the keys attached to it.
pub uninterp spec fn keyword_keys(index: SearchIndex<u128>) -> Map<Seq<char>, Set<u128>>;

/// The index was built by `new_search_index`: indicium's default settings (live
/// search, the split characters, case folding, keywords of 1 to 24 characters,
/// the dump keyword) with context autocompletion and no excluded keyword.
pub uninterp spec fn timeline_settings(index: SearchIndex<u128>) -> bool;

/// The words indicium splits a text into under those settings: the text is
/// normalised (NFKC, then lower case) and split at the split characters, and
/// words of 1 to 24 characters are kept, in their order.
pub uninterp spec fn search_words(text: Seq<char>) -> Seq<Seq<char>>;

/// indicium's normalisation of a keyword (NFKC, then lower case), which
/// `insert` applies once more to each word before attaching a key to it.
pub uninterp spec fn keyword_of(word: Seq<char>) -> Seq<char>;

/// What indicium's context autocompletion offers for a term over a keyword table.
pub uninterp spec fn completions_of(keywords: Map<Seq<char>, Set<u128>>, term: Seq<char>) -> Seq<
    Seq<char>,
>;

/// indicium's default limit of keys per keyword, past which `insert` attaches
/// no more keys to that keyword.
pub const KEYS_PER_KEYWORD: usize = 40_960;

/// indicium's default limit on the results of a search of several words.
pub const MAX_SEARCH_RESULTS: usize = 100;

/// The keys attached to every one of the words.
pub open spec fn keys_of_all(keywords: Map<Seq<char>, Set<u128>>, words: Seq<Seq<char>>) -> Set<
    u128,
> {
    Set::new(|k: u128| forall|i: int| 0 <= i < words.len() ==> #[trigger] keywords[words[i]].contains(k))
}

/// Relies on indicium's `SearchIndexBuilder::default`, `autocomplete_type`,
/// `exclude_keywords` and `build`: an index with an empty keyword table that
/// completes from context and excludes no keyword.
#[verifier::external_body]
pub(crate) fn new_search_index() -> (r: SearchIndex<u128>)
    ensures
        timeline_settings(r),
        indexed_keys(r) == Set::<u128>::empty(),
        keyword_keys(r).dom() =~= Set::<Seq<char>>::empty(),
{
    SearchIndexBuilder::default().autocomplete_type(AutocompleteType::Context).exclude_keywords(
        None,
    ).build()
}

/// Relies on indicium's `SearchIndex::insert`. It attaches the key to the
/// normalised form (`keyword_of`) of each word of `search_words`, and to the
/// whole text where it is short enough. A keyword already holding
/// `KEYS_PER_KEYWORD` keys gets no more. The key is always attached to the dump
/// keyword, which has no limit. No key is taken away and no other key is added.
#[verifier::external_body]
pub(crate) fn index_text(index: &mut SearchIndex<u128>, key: u128, text: &String)
    requires
        timeline_settings(*old(index)),
    ensures
        timeline_settings(*final(index)),
        indexed_keys(*final(index)) == indexed_keys(*old(index)).insert(key),
        forall|w: Seq<char>|
            #[trigger] keyword_keys(*old(index)).contains_key(w) ==> keyword_keys(
                *final(index),
            ).contains_key(w) && keyword_keys(*old(index))[w].subset_of(
                keyword_keys(*final(index))[w],
            ),
        forall|w: Seq<char>|
            #[trigger] keyword_keys(*final(index)).contains_key(w) ==> keyword_keys(
                *final(index),
            )[w].subset_of(
                if keyword_keys(*old(index)).contains_key(w) {
                    keyword_keys(*old(index))[w].insert(key)
                } else {
                    Set::<u128>::empty().insert(key)
                },
            ),
        forall|j: int|
            0 <= j < search_words(text@).len() && (!keyword_keys(*old(index)).contains_key(
                keyword_of(#[trigger] search_words(text@)[j]),
            ) || keyword_keys(*old(index))[keyword_of(search_words(text@)[j])].len()
                < KEYS_PER_KEYWORD) ==> keyword_keys(*final(index)).contains_key(
                keyword_of(search_words(text@)[j]),
            ) && keyword_keys(*final(index))[keyword_of(search_words(text@)[j])].contains(key),
{
    index.insert(&key, text)
}

/// Relies on indicium's `SearchIndex::search` (live search): every result is a
/// key attached to some keyword. A term of one word that is a keyword gets all of
/// that keyword's keys (the keywords it starts are read from it on, and no limit
/// cuts the keys of one keyword). A term of several words, each a keyword, the
/// last not among the others, gets the keys attached to all of them, where the
/// first word's keys are within `KEYS_PER_KEYWORD` and those keys number at most
/// `MAX_SEARCH_RESULTS` (the last word's own keyword is read first).
#[verifier::external_body]
pub(crate) fn search_keys(index: &SearchIndex<u128>, term: &str) -> (r: Vec<u128>)
    requires
        timeline_settings(*index),
    ensures
        forall|i: int| 0 <= i < r@.len() ==> indexed_keys(*index).contains(#[trigger] r@[i]),
        search_words(term@).len() == 1 && keyword_keys(*index).contains_key(search_words(term@)[0])
            ==> forall|k: u128|
            #[trigger] keyword_keys(*index)[search_words(term@)[0]].contains(k) ==> r@.contains(k),
        search_words(term@).len() >= 2 && (forall|i: int|
            0 <= i < search_words(term@).len() ==> keyword_keys(*index).contains_key(
                #[trigger] search_words(term@)[i],
            )) && !search_words(term@).drop_last().contains(search_words(term@).last())
            && keyword_keys(*index)[search_words(term@)[0]].len() <= KEYS_PER_KEYWORD && keys_of_all(
            keyword_keys(*index),
            search_words(term@),
        ).len() <= MAX_SEARCH_RESULTS ==> forall|k: u128|
            #[trigger] keys_of_all(keyword_keys(*index), search_words(term@)).contains(k)
                ==> r@.contains(k),
{
    index.search(term).into_iter().copied().collect()
}

/// Relies on indicium's `SearchIndex::autocomplete` (context autocompletion),
/// whose options depend on the keyword table and the term alone. Where the term
/// is one word that starts some keyword, the options are, up to five, those
/// keywords with trailing white space trimmed: one at least, each a prefix of a
/// keyword that the word starts.
#[verifier::external_body]
pub(crate) fn complete_term(index: &SearchIndex<u128>, term: &str) -> (r: Vec<String>)
    requires
        timeline_settings(*index),
    ensures
        r@.map_values(|s: String| s@) == completions_of(keyword_keys(*index), term@),
        search_words(term@).len() == 1 && (exists|w: Seq<char>|
            #[trigger] keyword_keys(*index).contains_key(w) && search_words(term@)[0].is_prefix_of(
                w,
            )) ==> 1 <= r@.len() <= 5 && forall|i: int|
            0 <= i < r@.len() ==> exists|w: Seq<char>|
                #[trigger] keyword_keys(*index).contains_key(w) && search_words(
                    term@,
                )[0].is_prefix_of(w) && (#[trigger] r@[i])@.is_prefix_of(w),
{
    index.autocomplete(term)
}

} // verus!
