//! Search queries: a typed form of what the backend is asked for each kind of
//! book search, and of the two aggregations over languages and authors.
use vstd::prelude::*;

use crate::request::{Author, Search, SearchModel};
use crate::text::{
    Delimiter, copy_strings, join, joined, lower_of, split_pieces, to_lower, views, words,
};

verus! {

/// The kinds of book search.
#[derive(Clone, Copy, PartialEq, Eq, Structural, Debug)]
pub enum SearchType {
    /// The books of one author, by a prefix of the author's name.
    AuthorsBooks,
    /// Books by words of their title and of their authors' names.
    TitlesSearch,
    /// Books by words of their series and of their authors' names.
    SeriesSearch,
}

/// The fields of a stored book that a filter can test.
#[derive(Clone, Copy, PartialEq, Eq, Structural, Debug)]
pub enum Field {
    Authors,
    Title,
    Series,
}

/// The keys by which search results are sorted.
#[derive(Clone, Copy, PartialEq, Eq, Structural, Debug)]
pub enum SortKey {
    Series,
    SeriesNumber,
    Title,
}

/// One condition that every result of a query meets.
pub enum Filter {
    /// The deleted flag is one of `flags`.
    DeletedIn { flags: Vec<u32> },
    /// The language is one of `langs`.
    LanguageIn { langs: Vec<String> },
    /// The field matches a pattern in which `*` stands for any text.
    Wildcard { field: Field, pattern: String },
    /// The field holds a phrase that starts with `text`.
    PhrasePrefix { field: Field, text: String },
}

pub enum FilterModel {
    DeletedIn(Seq<u32>),
    LanguageIn(Seq<Seq<char>>),
    Wildcard(Field, Seq<char>),
    PhrasePrefix(Field, Seq<char>),
}

impl View for Filter {
    type V = FilterModel;

    open spec fn view(&self) -> FilterModel {
        match self {
            Filter::DeletedIn { flags } => FilterModel::DeletedIn(flags@),
            Filter::LanguageIn { langs } => FilterModel::LanguageIn(views(langs@)),
            Filter::Wildcard { field, pattern } => FilterModel::Wildcard(*field, pattern@),
            Filter::PhrasePrefix { field, text } => FilterModel::PhrasePrefix(*field, text@),
        }
    }
}

/// A query for documents: at most `size` of them, meeting every filter,
/// sorted by the keys in order.
pub struct SearchQuery {
    pub size: u32,
    pub filters: Vec<Filter>,
    pub sort: Vec<SortKey>,
}

pub struct QueryModel {
    pub size: u32,
    pub filters: Seq<FilterModel>,
    pub sort: Seq<SortKey>,
}

pub open spec fn filter_views(v: Seq<Filter>) -> Seq<FilterModel> {
    v.map_values(|f: Filter| f@)
}

impl View for SearchQuery {
    type V = QueryModel;

    open spec fn view(&self) -> QueryModel {
        QueryModel { size: self.size, filters: filter_views(self.filters@), sort: self.sort@ }
    }
}

/// The pattern that finds `token`, in lower case, anywhere in a field.
pub open spec fn wildcard_pattern(token: Seq<char>) -> Seq<char> {
    seq!['*'] + lower_of(token) + seq!['*']
}

/// One wildcard filter on `field` for each whitespace-separated word of `text`.
pub open spec fn word_filters(field: Field, text: Seq<char>) -> Seq<FilterModel> {
    words(text).map_values(|w: Seq<char>| FilterModel::Wildcard(field, wildcard_pattern(w)))
}

/// The deleted flag that a search admits beside 0.
pub open spec fn deleted_flag(include_deleted: bool) -> u32 {
    if include_deleted {
        1
    } else {
        0
    }
}

/// The filters that depend on the kind of search.
pub open spec fn intent_filters(s: SearchModel, t: SearchType) -> Seq<FilterModel> {
    match t {
        SearchType::TitlesSearch => word_filters(Field::Authors, s.author) + word_filters(
            Field::Title,
            s.title,
        ),
        SearchType::SeriesSearch => word_filters(Field::Authors, s.author) + word_filters(
            Field::Series,
            s.series,
        ),
        SearchType::AuthorsBooks => seq![FilterModel::PhrasePrefix(Field::Authors, s.author)],
    }
}

/// The language filter, present only where the search names languages.
pub open spec fn language_filters(s: SearchModel) -> Seq<FilterModel> {
    if s.langs.len() > 0 {
        seq![FilterModel::LanguageIn(s.langs)]
    } else {
        Seq::empty()
    }
}

pub open spec fn query_filters(s: SearchModel, t: SearchType) -> Seq<FilterModel> {
    seq![FilterModel::DeletedIn(seq![0u32, deleted_flag(s.deleted)])] + intent_filters(s, t)
        + language_filters(s)
}

pub open spec fn sort_order(t: SearchType) -> Seq<SortKey> {
    match t {
        SearchType::TitlesSearch => seq![SortKey::Title],
        _ => seq![SortKey::Series, SortKey::SeriesNumber, SortKey::Title],
    }
}

/// The query that a search of kind `t` sends.
pub open spec fn composed(s: SearchModel, t: SearchType) -> QueryModel {
    QueryModel { size: s.limit, filters: query_filters(s, t), sort: sort_order(t) }
}

/// Appends one wildcard filter on `field` for each word of `text`.
fn push_word_filters(filters: &mut Vec<Filter>, field: Field, text: &str)
    ensures
        filter_views(final(filters)@) == filter_views(old(filters)@) + word_filters(field, text@),
{
    let ws = split_pieces(text, Delimiter::WhiteSpace);
    let ghost start = filter_views(filters@);
    let mut i: usize = 0;
    assert(words(text@).subrange(0, 0).map_values(
        |w: Seq<char>| FilterModel::Wildcard(field, wildcard_pattern(w)),
    ) =~= Seq::<FilterModel>::empty());
    assert(start + Seq::<FilterModel>::empty() =~= start);
    while i < ws.len()
        invariant
            i <= ws@.len(),
            views(ws@) == words(text@),
            filter_views(filters@) == start + words(text@).subrange(0, i as int).map_values(
                |w: Seq<char>| FilterModel::Wildcard(field, wildcard_pattern(w)),
            ),
        decreases ws@.len() - i,
    {
        let mut pattern = String::from_str("*");
        let low = to_lower(ws[i].as_str());
        let star = "*";
        proof {
            reveal_strlit("*");
        }
        pattern.append(low.as_str());
        pattern.append(star);
        assert(ws@[i as int]@ == words(text@)[i as int]);
        assert(pattern@ =~= wildcard_pattern(words(text@)[i as int]));
        let ghost before = filters@;
        let f = Filter::Wildcard { field, pattern };
        filters.push(f);
        assert(filter_views(filters@) =~= filter_views(before).push(f@));
        assert(words(text@).subrange(0, i as int + 1).map_values(
            |w: Seq<char>| FilterModel::Wildcard(field, wildcard_pattern(w)),
        ) =~= words(text@).subrange(0, i as int).map_values(
            |w: Seq<char>| FilterModel::Wildcard(field, wildcard_pattern(w)),
        ).push(FilterModel::Wildcard(field, wildcard_pattern(words(text@)[i as int]))));
        i = i + 1;
    }
    assert(words(text@).subrange(0, ws@.len() as int) =~= words(text@));
}

/// Builds the query for a search of kind `s_type`: the deleted-flag filter
/// first, then the filters of the kind, then the language filter where
/// languages are named; sorted by series, series number and title, or for a
/// title search by title alone.
pub fn compose_es_request(search: &Search, s_type: SearchType) -> (r: SearchQuery)
    ensures
        r@ == composed(search@, s_type),
{
    let del: u32 = if search.deleted {
        1
    } else {
        0
    };
    let mut filters: Vec<Filter> = Vec::new();
    let mut flags: Vec<u32> = Vec::new();
    flags.push(0);
    flags.push(del);
    assert(flags@ =~= seq![0u32, deleted_flag(search.deleted)]);
    let f = Filter::DeletedIn { flags };
    filters.push(f);
    let ghost head = filter_views(filters@);
    assert(head =~= seq![FilterModel::DeletedIn(seq![0u32, deleted_flag(search.deleted)])]);
    match s_type {
        SearchType::TitlesSearch => {
            push_word_filters(&mut filters, Field::Authors, search.author.as_str());
            push_word_filters(&mut filters, Field::Title, search.title.as_str());
        },
        SearchType::SeriesSearch => {
            push_word_filters(&mut filters, Field::Authors, search.author.as_str());
            push_word_filters(&mut filters, Field::Series, search.series.as_str());
        },
        SearchType::AuthorsBooks => {
            let ghost before = filters@;
            let f = Filter::PhrasePrefix {
                field: Field::Authors,
                text: String::from_str(search.author.as_str()),
            };
            filters.push(f);
            assert(filter_views(filters@) =~= filter_views(before).push(f@));
        },
    }
    assert(filter_views(filters@) =~= head + intent_filters(search@, s_type));
    if search.langs.len() > 0 {
        let ghost before = filters@;
        let f = Filter::LanguageIn { langs: copy_strings(&search.langs) };
        filters.push(f);
        assert(filter_views(filters@) =~= filter_views(before).push(f@));
    }
    assert(filter_views(filters@) =~= query_filters(search@, s_type));
    let mut sort: Vec<SortKey> = Vec::new();
    match s_type {
        SearchType::TitlesSearch => {
            sort.push(SortKey::Title);
        },
        _ => {
            sort.push(SortKey::Series);
            sort.push(SortKey::SeriesNumber);
            sort.push(SortKey::Title);
        },
    }
    assert(sort@ =~= sort_order(s_type));
    SearchQuery { size: search.limit, filters, sort }
}

/// A title search filters, after the deleted flag, by one wildcard per word
/// of the author text and then one per word of the title text; at most the
/// language filter follows.
pub proof fn lemma_title_search_filters(s: SearchModel)
    ensures
        ({
            let f = composed(s, SearchType::TitlesSearch).filters;
            let na = words(s.author).len();
            let nt = words(s.title).len();
            &&& f.len() == 1 + na + nt + language_filters(s).len()
            &&& forall|i: int|
                0 <= i < na ==> f[1 + i] == FilterModel::Wildcard(
                    Field::Authors,
                    wildcard_pattern(#[trigger] words(s.author)[i]),
                )
            &&& forall|i: int|
                0 <= i < nt ==> f[1 + na + i] == FilterModel::Wildcard(
                    Field::Title,
                    wildcard_pattern(#[trigger] words(s.title)[i]),
                )
        }),
{
    let f = composed(s, SearchType::TitlesSearch).filters;
    let na = words(s.author).len();
    assert forall|i: int| 0 <= i < na implies f[1 + i] == FilterModel::Wildcard(
        Field::Authors,
        wildcard_pattern(#[trigger] words(s.author)[i]),
    ) by {
        assert(f[1 + i] == word_filters(Field::Authors, s.author)[i]);
    }
    assert forall|i: int| 0 <= i < words(s.title).len() implies f[1 + na + i]
        == FilterModel::Wildcard(Field::Title, wildcard_pattern(#[trigger] words(s.title)[i])) by {
        assert(f[1 + na + i] == word_filters(Field::Title, s.title)[i]);
    }
}

/// A series search filters, after the deleted flag, by one wildcard per word
/// of the author text and then one per word of the series text; at most the
/// language filter follows.
pub proof fn lemma_series_search_filters(s: SearchModel)
    ensures
        ({
            let f = composed(s, SearchType::SeriesSearch).filters;
            let na = words(s.author).len();
            let ns = words(s.series).len();
            &&& f.len() == 1 + na + ns + language_filters(s).len()
            &&& forall|i: int|
                0 <= i < na ==> f[1 + i] == FilterModel::Wildcard(
                    Field::Authors,
                    wildcard_pattern(#[trigger] words(s.author)[i]),
                )
            &&& forall|i: int|
                0 <= i < ns ==> f[1 + na + i] == FilterModel::Wildcard(
                    Field::Series,
                    wildcard_pattern(#[trigger] words(s.series)[i]),
                )
        }),
{
    let f = composed(s, SearchType::SeriesSearch).filters;
    let na = words(s.author).len();
    assert forall|i: int| 0 <= i < na implies f[1 + i] == FilterModel::Wildcard(
        Field::Authors,
        wildcard_pattern(#[trigger] words(s.author)[i]),
    ) by {
        assert(f[1 + i] == word_filters(Field::Authors, s.author)[i]);
    }
    assert forall|i: int| 0 <= i < words(s.series).len() implies f[1 + na + i]
        == FilterModel::Wildcard(Field::Series, wildcard_pattern(#[trigger] words(s.series)[i])) by {
        assert(f[1 + na + i] == word_filters(Field::Series, s.series)[i]);
    }
}

/// A search for an author's books has exactly one phrase-prefix filter: on
/// the authors, with the author text as it was given.
pub proof fn lemma_author_books_filter(s: SearchModel)
    ensures
        ({
            let f = composed(s, SearchType::AuthorsBooks).filters;
            &&& f.len() == 2 + language_filters(s).len()
            &&& f[1] == FilterModel::PhrasePrefix(Field::Authors, s.author)
            &&& forall|i: int|
                0 <= i < f.len() && i != 1 ==> !(#[trigger] f[i] is PhrasePrefix)
        }),
{
}

/// Every book search admits deleted flags 0 and, only where deleted books are
/// asked for, 1: its first filter, and no other filter tests the flag.
pub proof fn lemma_deleted_filter(s: SearchModel, t: SearchType)
    ensures
        ({
            let f = composed(s, t).filters;
            &&& f[0] == FilterModel::DeletedIn(seq![0u32, if s.deleted { 1u32 } else { 0u32 }])
            &&& forall|i: int| 1 <= i < f.len() ==> !(#[trigger] f[i] is DeletedIn)
        }),
{
    let f = composed(s, t).filters;
    assert forall|i: int| 1 <= i < f.len() implies !(#[trigger] f[i] is DeletedIn) by {
        let k = i - 1;
        if k < intent_filters(s, t).len() {
            assert(f[i] == intent_filters(s, t)[k]);
            match t {
                SearchType::TitlesSearch => {
                    let na = word_filters(Field::Authors, s.author).len();
                    if k < na {
                        assert(f[i] == word_filters(Field::Authors, s.author)[k]);
                    } else {
                        assert(f[i] == word_filters(Field::Title, s.title)[k - na]);
                    }
                },
                SearchType::SeriesSearch => {
                    let na = word_filters(Field::Authors, s.author).len();
                    if k < na {
                        assert(f[i] == word_filters(Field::Authors, s.author)[k]);
                    } else {
                        assert(f[i] == word_filters(Field::Series, s.series)[k - na]);
                    }
                },
                SearchType::AuthorsBooks => {},
            }
        } else {
            assert(f[i] == language_filters(s)[k - intent_filters(s, t).len()]);
        }
    }
}

/// The aggregations over stored books.
#[derive(Clone, Copy, PartialEq, Eq, Structural, Debug)]
pub enum Aggregation {
    /// The languages of books, with their counts.
    Languages,
    /// Author names, with their counts.
    Authors,
}

/// A query that returns no documents, only the `size` most frequent values
/// of one aggregation that match `pattern`; where `live_only`
/// holds, over books that are not deleted.
pub struct AggregationQuery {
    pub aggregation: Aggregation,
    pub live_only: bool,
    pub pattern: String,
    pub size: u32,
}

/// The pattern that admits any value.
pub open spec fn any_pattern() -> Seq<char> {
    seq!['.', '*']
}

/// The number of languages that the language aggregation returns.
pub const LANGUAGES_SIZE: u32 = 100;

/// The languages present among books that are not deleted.
pub fn langs_query() -> (r: AggregationQuery)
    ensures
        r.aggregation == Aggregation::Languages,
        r.live_only,
        r.pattern@ == any_pattern(),
        r.size == LANGUAGES_SIZE,
{
    let any = ".*";
    proof {
        reveal_strlit(".*");
    }
    assert(any@ =~= any_pattern());
    AggregationQuery {
        aggregation: Aggregation::Languages,
        live_only: true,
        pattern: String::from_str(any),
        size: LANGUAGES_SIZE,
    }
}

/// The title-case form of `s`, as `inflections::case::to_title_case` gives it.
pub uninterp spec fn title_case_of(s: Seq<char>) -> Seq<char>;

/// Relies on inflections::case::to_title_case, whose result depends on the
/// characters alone.
#[verifier::external_body]
fn title_case(s: &str) -> (r: String)
    ensures
        r@ == title_case_of(s@),
{
    inflections::case::to_title_case(s)
}

/// The pattern that an author search matches names with: each word of the
/// search in title case, with any text before, between and after them.
pub open spec fn author_pattern(author: Seq<char>) -> Seq<char> {
    any_pattern() + joined(words(author).map_values(|w: Seq<char>| title_case_of(w)), any_pattern())
        + any_pattern()
}

/// Builds the pattern that an author search matches names with.
pub fn author_pattern_of(author: &str) -> (r: String)
    ensures
        r@ == author_pattern(author@),
{
    let ws = split_pieces(author, Delimiter::WhiteSpace);
    let mut cased: Vec<String> = Vec::new();
    let mut i: usize = 0;
    while i < ws.len()
        invariant
            i <= ws@.len(),
            views(ws@) == words(author@),
            views(cased@) == words(author@).subrange(0, i as int).map_values(
                |w: Seq<char>| title_case_of(w),
            ),
        decreases ws@.len() - i,
    {
        let t = title_case(ws[i].as_str());
        let ghost before = cased@;
        cased.push(t);
        assert(ws@[i as int]@ == words(author@)[i as int]);
        assert(views(cased@) =~= views(before).push(t@));
        assert(words(author@).subrange(0, i as int + 1).map_values(|w: Seq<char>| title_case_of(w))
            =~= words(author@).subrange(0, i as int).map_values(|w: Seq<char>| title_case_of(w)).push(
            title_case_of(words(author@)[i as int]),
        ));
        i = i + 1;
    }
    assert(words(author@).subrange(0, ws@.len() as int) =~= words(author@));
    let any = ".*";
    proof {
        reveal_strlit(".*");
    }
    assert(any@ =~= any_pattern());
    let mut r = String::from_str(any);
    let inner = join(&cased, any);
    r.append(inner.as_str());
    r.append(any);
    assert(r@ =~= author_pattern(author@));
    r
}

/// The author names that match an author search, at most `limit` of them.
pub fn authors_query(req: &Author) -> (r: AggregationQuery)
    ensures
        r.aggregation == Aggregation::Authors,
        !r.live_only,
        r.pattern@ == author_pattern(req.author@),
        r.size == req.limit,
{
    AggregationQuery {
        aggregation: Aggregation::Authors,
        live_only: false,
        pattern: author_pattern_of(req.author.as_str()),
        size: req.limit,
    }
}

} // verus!
