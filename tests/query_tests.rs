use flibooks::query::{
    author_pattern_of, authors_query, compose_es_request, langs_query, Aggregation, Field,
    Filter, SearchType, SortKey, LANGUAGES_SIZE,
};
use flibooks::request::{
    default_deleted, default_empty_string, default_limit, default_vec, Author, Search,
};

fn search(title: &str, author: &str, series: &str, deleted: bool, langs: &[&str]) -> Search {
    Search {
        title: title.to_string(),
        author: author.to_string(),
        series: series.to_string(),
        limit: 7,
        deleted,
        langs: langs.iter().map(|s| s.to_string()).collect(),
    }
}

fn wildcards(filters: &[Filter]) -> Vec<(Field, String)> {
    filters
        .iter()
        .filter_map(|f| match f {
            Filter::Wildcard { field, pattern } => Some((*field, pattern.clone())),
            _ => None,
        })
        .collect()
}

fn deleted_flags(filters: &[Filter]) -> Vec<Vec<u32>> {
    filters
        .iter()
        .filter_map(|f| match f {
            Filter::DeletedIn { flags } => Some(flags.clone()),
            _ => None,
        })
        .collect()
}

#[test]
fn title_search_one_wildcard_per_word() {
    let q = compose_es_request(&search("Dune  MESSIAH", "Frank Herbert", "x", false, &[]), SearchType::TitlesSearch);
    assert_eq!(q.size, 7);
    assert_eq!(q.filters.len(), 5);
    assert_eq!(
        wildcards(&q.filters),
        vec![
            (Field::Authors, "*frank*".to_string()),
            (Field::Authors, "*herbert*".to_string()),
            (Field::Title, "*dune*".to_string()),
            (Field::Title, "*messiah*".to_string()),
        ]
    );
    assert_eq!(q.sort, vec![SortKey::Title]);
}

#[test]
fn series_search_one_wildcard_per_word() {
    let q = compose_es_request(&search("ignored", "Herbert", "Dune Chronicles", false, &["en", "ru"]), SearchType::SeriesSearch);
    assert_eq!(
        wildcards(&q.filters),
        vec![
            (Field::Authors, "*herbert*".to_string()),
            (Field::Series, "*dune*".to_string()),
            (Field::Series, "*chronicles*".to_string()),
        ]
    );
    match q.filters.last().unwrap() {
        Filter::LanguageIn { langs } => assert_eq!(langs, &vec!["en", "ru"]),
        _ => panic!("language filter expected last"),
    }
    assert_eq!(q.sort, vec![SortKey::Series, SortKey::SeriesNumber, SortKey::Title]);
}

#[test]
fn author_books_one_phrase_prefix() {
    let q = compose_es_request(&search("t", "Herbert F", "s", false, &[]), SearchType::AuthorsBooks);
    assert_eq!(q.filters.len(), 2);
    let prefixes: Vec<_> = q
        .filters
        .iter()
        .filter_map(|f| match f {
            Filter::PhrasePrefix { field, text } => Some((*field, text.clone())),
            _ => None,
        })
        .collect();
    assert_eq!(prefixes, vec![(Field::Authors, "Herbert F".to_string())]);
    assert!(wildcards(&q.filters).is_empty());
    assert_eq!(q.sort, vec![SortKey::Series, SortKey::SeriesNumber, SortKey::Title]);
}

#[test]
fn deleted_filter_is_zero_and_requested_flag() {
    for t in [SearchType::AuthorsBooks, SearchType::TitlesSearch, SearchType::SeriesSearch] {
        let q = compose_es_request(&search("a b", "c", "d", false, &["en"]), t);
        assert_eq!(deleted_flags(&q.filters), vec![vec![0, 0]]);
        let q = compose_es_request(&search("a b", "c", "d", true, &[]), t);
        assert_eq!(deleted_flags(&q.filters), vec![vec![0, 1]]);
    }
}

#[test]
fn empty_texts_give_no_wildcards() {
    let q = compose_es_request(&search("", "  ", "", false, &[]), SearchType::TitlesSearch);
    assert_eq!(q.filters.len(), 1);
}

#[test]
fn dune_title_search_scenario() {
    let mut s = search("Dune", "", "", default_deleted(), &[]);
    s.limit = 5;
    let q = compose_es_request(&s, SearchType::TitlesSearch);
    assert_eq!(q.size, 5);
    assert_eq!(wildcards(&q.filters), vec![(Field::Title, "*dune*".to_string())]);
}

#[test]
fn languages_aggregation() {
    let q = langs_query();
    assert_eq!(q.aggregation, Aggregation::Languages);
    assert!(q.live_only);
    assert_eq!(q.pattern, ".*");
    assert_eq!(q.size, LANGUAGES_SIZE);
    assert_eq!(LANGUAGES_SIZE, 100);
}

#[test]
fn authors_aggregation_pattern() {
    assert_eq!(author_pattern_of("herbert frank"), ".*Herbert.*Frank.*");
    assert_eq!(author_pattern_of(""), ".*.*");
    let q = authors_query(&Author { author: "tolstoy".to_string(), limit: 3 });
    assert_eq!(q.aggregation, Aggregation::Authors);
    assert!(!q.live_only);
    assert_eq!(q.pattern, ".*Tolstoy.*");
    assert_eq!(q.size, 3);
}

#[test]
fn request_defaults() {
    assert_eq!(default_limit(), 10);
    assert!(!default_deleted());
    assert_eq!(default_empty_string(), "");
    assert!(default_vec().is_empty());
}
