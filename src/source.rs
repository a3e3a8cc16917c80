//! The data source capability: fetching the repositories of an account.
use crate::repository::{record_view, views_of, RecordView, RepoRecord, Repository, RepositoryView};
use vstd::prelude::*;

verus! {

/// Why a fetch failed.
#[derive(Clone, Debug)]
pub enum FetchError {
    /// The remote API answered with a status outside the success range.
    RemoteApi { status: u16, body: String },
    /// The request or the reading of its answer failed.
    Transport { message: String },
}

/// A source of repositories: a remote API, a cache in front of one, or a
/// stand-in for tests.
pub trait GitHubClient {
    /// The repositories of the account `username`, in the order that the
    /// source lists them.
    fn fetch_repos(&mut self, username: &str) -> Result<Vec<Repository>, FetchError>;
}

/// The outcome of reading `text` as a JSON array of repository records:
/// the fields of each record, in order, or the parser's error message.
pub uninterp spec fn listing_records(text: Seq<char>) -> Result<Seq<RecordView>, Seq<char>>;

/// The record views of a parse outcome, or its error message.
pub open spec fn parsed_view(r: Result<Vec<RepoRecord>, String>) -> Result<
    Seq<RecordView>,
    Seq<char>,
> {
    match r {
        Ok(v) => Ok(v@.map_values(|rec: RepoRecord| rec@)),
        Err(e) => Err(e@),
    }
}

/// Relies on `serde_json::from_str` into a `Vec<serde_json::Value>`, then,
/// for each value, indexing by key with `Value::as_str` or `Value::as_u64`
/// (a missing key or another kind of value gives `None`). The outcome
/// depends on the text alone; an error is kept as its message.
#[verifier::external_body]
fn parse_listing(text: &str) -> (r: Result<Vec<RepoRecord>, String>)
    ensures
        parsed_view(r) == listing_records(text@),
{
    serde_json::from_str::<Vec<serde_json::Value>>(text).map_err(|e| e.to_string()).map(
        |values| values.iter().map(|v| RepoRecord {
            name: v["name"].as_str().map(str::to_owned),
            html_url: v["html_url"].as_str().map(str::to_owned),
            description: v["description"].as_str().map(str::to_owned),
            stargazers_count: v["stargazers_count"].as_u64(),
        }).collect(),
    )
}

/// Whether an HTTP status reports success (the 2xx range).
pub open spec fn is_success(status: u16) -> bool {
    200 <= status < 300
}

/// The repositories that `records` describe for the account `username`, in
/// the same order.
pub fn repositories_from_records(records: &Vec<RepoRecord>, username: &str) -> (r: Vec<
    Repository,
>)
    ensures
        r@.len() == records@.len(),
        forall|i: int|
            0 <= i < r@.len() ==> (#[trigger] r@[i])@ == record_view(records@[i]@, username@),
{
    let mut r: Vec<Repository> = Vec::new();
    let mut i: usize = 0;
    while i < records.len()
        invariant
            i <= records.len(),
            r@.len() == i,
            forall|j: int| 0 <= j < i ==> #[trigger] r@[j]@ == record_view(records@[j]@, username@),
        decreases records.len() - i,
    {
        r.push(Repository::from_record(&records[i], username));
        i += 1;
    }
    r
}

/// The repositories of a listing: each record stamped with `username`, in
/// the same order.
pub open spec fn listing_view(recs: Seq<RecordView>, username: Seq<char>) -> Seq<RepositoryView> {
    recs.map_values(|rec: RecordView| record_view(rec, username))
}

/// The outcome of a listing request that was answered with `status` and
/// `body`: a `RemoteApi` error with both where the status is not a success;
/// otherwise the repositories that the body lists, with defaults in place
/// of missing fields, or a `Transport` error with the parser's message where
/// the body is no JSON array.
pub fn listing_from_response(status: u16, body: String, username: &str) -> (r: Result<
    Vec<Repository>,
    FetchError,
>)
    ensures
        !is_success(status) ==> r == Err::<Vec<Repository>, FetchError>(
            (FetchError::RemoteApi { status, body }),
        ),
        is_success(status) ==> match listing_records(body@) {
            Ok(recs) => r is Ok && views_of(r->Ok_0@) == listing_view(recs, username@),
            Err(msg) => r matches Err(FetchError::Transport { message }) && message@ == msg,
        },
{
    if status < 200 || status >= 300 {
        return Err(FetchError::RemoteApi { status, body });
    }
    match parse_listing(&body) {
        Ok(records) => {
            let r = repositories_from_records(&records, username);
            proof {
                assert(views_of(r@) =~= listing_view(records@.map_values(|rec: RepoRecord| rec@), username@));
            }
            Ok(r)
        },
        Err(message) => Err(FetchError::Transport { message }),
    }
}

} // verus!
