//! Picking the part of a backend response that a search returns: the hit
//! list, or the buckets of an aggregation.
use vstd::prelude::*;

use crate::query::Aggregation;
use crate::text::same_text;

verus! {

/// Where in a backend response the result of a search stands.
#[derive(Clone, Copy, PartialEq, Eq, Structural, Debug)]
pub enum ResultPath {
    /// The list of matching documents.
    Hits,
    /// The buckets of an aggregation.
    Buckets(Aggregation),
}

/// The JSONPath expression of a result path.
pub open spec fn path_text(p: ResultPath) -> Seq<char> {
    match p {
        ResultPath::Hits => "$.hits.hits"@,
        ResultPath::Buckets(Aggregation::Languages) => "$.aggregations.lang.buckets"@,
        ResultPath::Buckets(Aggregation::Authors) => "$.aggregations.author.buckets"@,
    }
}

/// The path expressions that this library selects with.
pub open spec fn is_result_path(path: Seq<char>) -> bool {
    exists|p: ResultPath| path == path_text(p)
}

impl ResultPath {
    /// The JSONPath expression of this path.
    pub fn text(self) -> (r: &'static str)
        ensures
            r@ == path_text(self),
    {
        match self {
            ResultPath::Hits => "$.hits.hits",
            ResultPath::Buckets(Aggregation::Languages) => "$.aggregations.lang.buckets",
            ResultPath::Buckets(Aggregation::Authors) => "$.aggregations.author.buckets",
        }
    }
}

/// Why a response yields no result.
#[derive(Clone, Copy, PartialEq, Eq, Structural, Debug)]
pub enum ExtractError {
    /// The response is not JSON.
    InvalidResponse,
    /// The path expression does not compile.
    InvalidPath,
    /// The path selects nothing in the response.
    NotFound,
}

/// Whether `serde_json::from_str` reads `doc` as a JSON value.
pub uninterp spec fn is_json(doc: Seq<char>) -> bool;

/// Whether `jsonpath::Selector::new` compiles `path`.
pub uninterp spec fn compiles_as_path(path: Seq<char>) -> bool;

/// The first node that `jsonpath::Selector::find` yields for `path` in the
/// JSON text `doc`, written back out as compact JSON; `None` where the path
/// selects nothing.
pub uninterp spec fn first_selected(path: Seq<char>, doc: Seq<char>) -> Option<Seq<char>>;

pub open spec fn option_view(o: Option<String>) -> Option<Seq<char>> {
    match o {
        Some(s) => Some(s@),
        None => None,
    }
}

/// What stopped a selection.
enum SelectFault {
    Document,
    Path,
}

/// Relies on serde_json::from_str to read `doc`, on jsonpath::Selector::new
/// to compile `path` and Selector::find for the first node it selects, and on
/// the Display of serde_json::Value to write that node back out.
#[verifier::external_body]
fn select_first(path: &str, doc: &str) -> (r: Result<Option<String>, SelectFault>)
    requires
        is_result_path(path@),
    ensures
        r is Err ==> (r->Err_0 is Document <==> !is_json(doc@)),
        r is Err ==> (r->Err_0 is Path <==> is_json(doc@) && !compiles_as_path(path@)),
        r is Ok ==> is_json(doc@) && compiles_as_path(path@),
        r is Ok ==> option_view(r->Ok_0) == first_selected(path@, doc@),
{
    let json: serde_json::Value = match serde_json::from_str(doc) {
        Ok(v) => v,
        Err(_) => return Err(SelectFault::Document),
    };
    let selector = match jsonpath::Selector::new(path) {
        Ok(s) => s,
        Err(_) => return Err(SelectFault::Path),
    };
    Ok(selector.find(&json).next().map(|v| v.to_string()))
}

/// What `extract` gives for a response and a path.
pub open spec fn extracted(response: Seq<char>, path: ResultPath) -> Result<Seq<char>, ExtractError> {
    if !is_json(response) {
        Err(ExtractError::InvalidResponse)
    } else if !compiles_as_path(path_text(path)) {
        Err(ExtractError::InvalidPath)
    } else {
        match first_selected(path_text(path), response) {
            Some(s) => Ok(s),
            None => Err(ExtractError::NotFound),
        }
    }
}

/// The first node that `path` selects in the JSON text `response`, as JSON
/// text; `NotFound` exactly where the path selects nothing.
pub fn extract(response: &str, path: ResultPath) -> (r: Result<String, ExtractError>)
    ensures
        r matches Ok(s) ==> extracted(response@, path) == Ok::<Seq<char>, ExtractError>(s@),
        r matches Err(e) ==> extracted(response@, path) == Err::<Seq<char>, ExtractError>(e),
{
    let text = path.text();
    assert(is_result_path(text@));
    match select_first(text, response) {
        Ok(Some(s)) => Ok(s),
        Ok(None) => Err(ExtractError::NotFound),
        Err(SelectFault::Document) => Err(ExtractError::InvalidResponse),
        Err(SelectFault::Path) => Err(ExtractError::InvalidPath),
    }
}

/// The result of a search reaches its caller exactly where the path selects
/// a node; otherwise the caller is told why.
pub proof fn lemma_not_found_iff_no_match(response: Seq<char>, path: ResultPath)
    requires
        is_json(response),
        compiles_as_path(path_text(path)),
    ensures
        extracted(response, path) == Err::<Seq<char>, ExtractError>(ExtractError::NotFound)
            <==> first_selected(path_text(path), response) is None,
        extracted(response, path) is Ok <==> first_selected(path_text(path), response) is Some,
{
}

/// The text of an empty JSON list.
pub open spec fn empty_list() -> Seq<char> {
    seq!['[', ']']
}

/// What a search returns for a response: the selected node, except that an
/// empty list of hits or buckets counts as nothing found.
pub open spec fn search_outcome(response: Seq<char>, path: ResultPath) -> Result<
    Seq<char>,
    ExtractError,
> {
    match extracted(response, path) {
        Ok(s) => if s == empty_list() {
            Err(ExtractError::NotFound)
        } else {
            Ok(s)
        },
        Err(e) => Err(e),
    }
}

/// The result of a search in a backend response; `NotFound` where the path
/// selects nothing or an empty list.
pub fn search_result(response: &str, path: ResultPath) -> (r: Result<String, ExtractError>)
    ensures
        r matches Ok(s) ==> search_outcome(response@, path) == Ok::<Seq<char>, ExtractError>(s@),
        r matches Err(e) ==> search_outcome(response@, path) == Err::<Seq<char>, ExtractError>(e),
{
    let empty = "[]";
    proof {
        reveal_strlit("[]");
    }
    assert(empty@ =~= empty_list());
    match extract(response, path) {
        Ok(s) => if same_text(s.as_str(), empty) {
            Err(ExtractError::NotFound)
        } else {
            Ok(s)
        },
        Err(e) => Err(e),
    }
}

} // verus!
