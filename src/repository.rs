//! The repository value type, its mathematical view, and how a loosely
//! typed listing record becomes a repository.
use vstd::prelude::*;

verus! {

/// One repository of an account, as the ranking and the cache see it.
#[derive(Clone, Debug)]
pub struct Repository {
    pub name: String,
    pub url: String,
    pub description: String,
    pub stars: u32,
    pub username: String,
}

/// The mathematical value of a [`Repository`].
pub struct RepositoryView {
    pub name: Seq<char>,
    pub url: Seq<char>,
    pub description: Seq<char>,
    pub stars: u32,
    pub username: Seq<char>,
}

impl View for Repository {
    type V = RepositoryView;

    open spec fn view(&self) -> RepositoryView {
        RepositoryView {
            name: self.name@,
            url: self.url@,
            description: self.description@,
            stars: self.stars,
            username: self.username@,
        }
    }
}

/// The views of a list of repositories, in order.
pub open spec fn views_of(v: Seq<Repository>) -> Seq<RepositoryView> {
    v.map_values(|r: Repository| r@)
}

/// The description given to a repository whose record has none.
pub open spec fn placeholder_description() -> Seq<char> {
    "No description"@
}

/// What a listing record says of one repository; each field may be missing.
pub struct RepoRecord {
    pub name: Option<String>,
    pub html_url: Option<String>,
    pub description: Option<String>,
    pub stargazers_count: Option<u64>,
}

/// The mathematical value of a [`RepoRecord`].
pub struct RecordView {
    pub name: Option<Seq<char>>,
    pub html_url: Option<Seq<char>>,
    pub description: Option<Seq<char>>,
    pub stargazers_count: Option<u64>,
}

/// The text of an optional string, if there is one.
pub open spec fn text_view(field: Option<String>) -> Option<Seq<char>> {
    match field {
        Some(s) => Some(s@),
        None => None,
    }
}

impl View for RepoRecord {
    type V = RecordView;

    open spec fn view(&self) -> RecordView {
        RecordView {
            name: text_view(self.name),
            html_url: text_view(self.html_url),
            description: text_view(self.description),
            stargazers_count: self.stargazers_count,
        }
    }
}

/// The text of an optional field, or `default` where it is missing.
pub open spec fn text_or(field: Option<Seq<char>>, default: Seq<char>) -> Seq<char> {
    match field {
        Some(s) => s,
        None => default,
    }
}

/// The star count that a record gives: zero where it is missing, and the
/// largest `u32` where the count does not fit in 32 bits.
pub open spec fn stars_of(count: Option<u64>) -> u32 {
    match count {
        Some(n) => if n > u32::MAX {
            u32::MAX
        } else {
            n as u32
        },
        None => 0,
    }
}

/// The repository that a record describes for the account `username`.
pub open spec fn record_view(record: RecordView, username: Seq<char>) -> RepositoryView {
    RepositoryView {
        name: text_or(record.name, Seq::empty()),
        url: text_or(record.html_url, Seq::empty()),
        description: text_or(record.description, placeholder_description()),
        stars: stars_of(record.stargazers_count),
        username,
    }
}

fn text_or_empty(field: &Option<String>) -> (r: String)
    ensures
        r@ == text_or(text_view(*field), Seq::empty()),
{
    match field {
        Some(s) => s.clone(),
        None => String::new(),
    }
}

impl Repository {
    /// A copy of this repository with the same fields.
    pub fn duplicate(&self) -> (r: Repository)
        ensures
            r@ == self@,
    {
        Repository {
            name: self.name.clone(),
            url: self.url.clone(),
            description: self.description.clone(),
            stars: self.stars,
            username: self.username.clone(),
        }
    }

    /// Builds the repository that `record` describes for the account
    /// `username`; missing fields take their defaults instead of failing.
    pub fn from_record(record: &RepoRecord, username: &str) -> (r: Repository)
        ensures
            r@ == record_view(record@, username@),
    {
        let description = match &record.description {
            Some(d) => d.clone(),
            None => {
                proof {
                    reveal_strlit("No description");
                }
                "No description".to_owned()
            },
        };
        let stars: u32 = match record.stargazers_count {
            Some(n) => if n > u32::MAX as u64 {
                u32::MAX
            } else {
                n as u32
            },
            None => 0,
        };
        Repository {
            name: text_or_empty(&record.name),
            url: text_or_empty(&record.html_url),
            description,
            stars,
            username: username.to_owned(),
        }
    }
}

/// A copy of a list of repositories, element by element.
pub fn duplicate_all(v: &Vec<Repository>) -> (r: Vec<Repository>)
    ensures
        views_of(r@) == views_of(v@),
{
    let mut r: Vec<Repository> = Vec::new();
    let mut i: usize = 0;
    while i < v.len()
        invariant
            i <= v.len(),
            r@.len() == i,
            forall|j: int| 0 <= j < i ==> #[trigger] r@[j]@ == v@[j]@,
        decreases v.len() - i,
    {
        r.push(v[i].duplicate());
        i += 1;
    }
    assert(views_of(r@) =~= views_of(v@));
    r
}

} // verus!
