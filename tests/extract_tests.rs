use flibooks::extract::{extract, search_result, ExtractError, ResultPath};
use flibooks::query::Aggregation;

const HITS: &str = r#"{"hits":{"total":1,"hits":[{"_source":{"title":"Dune Messiah"}}]}}"#;

#[test]
fn extracts_hits() {
    let r = extract(HITS, ResultPath::Hits).unwrap();
    assert_eq!(r, r#"[{"_source":{"title":"Dune Messiah"}}]"#);
    assert_eq!(search_result(HITS, ResultPath::Hits).unwrap(), r);
}

#[test]
fn extracts_buckets() {
    let resp = r#"{"aggregations":{"lang":{"buckets":[{"key":"en","doc_count":3}]}}}"#;
    let r = extract(resp, ResultPath::Buckets(Aggregation::Languages)).unwrap();
    assert!(r.contains("\"en\""));
    assert_eq!(
        extract(resp, ResultPath::Buckets(Aggregation::Authors)),
        Err(ExtractError::NotFound)
    );
}

#[test]
fn missing_path_is_not_found() {
    assert_eq!(extract(r#"{"took":1}"#, ResultPath::Hits), Err(ExtractError::NotFound));
    assert_eq!(extract("{}", ResultPath::Hits), Err(ExtractError::NotFound));
}

#[test]
fn malformed_response() {
    assert_eq!(extract("{not json", ResultPath::Hits), Err(ExtractError::InvalidResponse));
    assert_eq!(search_result("", ResultPath::Hits), Err(ExtractError::InvalidResponse));
}

#[test]
fn empty_hit_list_is_not_found_for_a_search() {
    let resp = r#"{"hits":{"hits":[]}}"#;
    assert_eq!(extract(resp, ResultPath::Hits).unwrap(), "[]");
    assert_eq!(search_result(resp, ResultPath::Hits), Err(ExtractError::NotFound));
}

#[test]
fn path_texts() {
    assert_eq!(ResultPath::Hits.text(), "$.hits.hits");
    assert_eq!(ResultPath::Buckets(Aggregation::Languages).text(), "$.aggregations.lang.buckets");
    assert_eq!(ResultPath::Buckets(Aggregation::Authors).text(), "$.aggregations.author.buckets");
}
