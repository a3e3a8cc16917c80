//! A read-through cache in front of any repository source, keyed by account.
use crate::repository::{duplicate_all, views_of, Repository, RepositoryView};
use crate::source::{FetchError, GitHubClient};
use dashmap::DashMap;
use vstd::prelude::*;

verus! {

#[verifier::external_type_specification]
#[verifier::external_body]
#[verifier::reject_recursive_types(K)]
#[verifier::reject_recursive_types(V)]
#[verifier::reject_recursive_types(S)]
pub struct ExDashMap<K, V, S>(DashMap<K, V, S>);

/// The lists that a cache map holds, by account.
pub uninterp spec fn cached_lists(m: DashMap<String, Vec<Repository>>) -> Map<
    Seq<char>,
    Seq<RepositoryView>,
>;

/// Relies on `DashMap::new`: a new map holds no entry.
#[verifier::external_body]
fn empty_cache() -> (r: DashMap<String, Vec<Repository>>)
    ensures
        cached_lists(r).dom() == Set::<Seq<char>>::empty(),
{
    DashMap::new()
}

/// Relies on `DashMap::get`: the entry stored under `key`, if there is one,
/// handed out as a copy.
#[verifier::external_body]
fn cache_get(m: &DashMap<String, Vec<Repository>>, key: &str) -> (r: Option<Vec<Repository>>)
    ensures
        r is Some <==> cached_lists(*m).contains_key(key@),
        r matches Some(v) ==> views_of(v@) == cached_lists(*m)[key@],
{
    m.get(key).map(|entry| duplicate_all(entry.value()))
}

/// Relies on `DashMap::insert`: the entry under `key` becomes `value`, and
/// the other entries stay as they were.
#[verifier::external_body]
fn cache_put(m: &mut DashMap<String, Vec<Repository>>, key: String, value: Vec<Repository>)
    ensures
        cached_lists(*final(m)) == cached_lists(*old(m)).insert(key@, views_of(value@)),
{
    m.insert(key, value);
}

/// The list that a call may serve from the cache `cached`: the entry of
/// `username` unless `bypass` is set; `None` where the call must fetch.
pub open spec fn served_from_cache(
    cached: Map<Seq<char>, Seq<RepositoryView>>,
    username: Seq<char>,
    bypass: bool,
) -> Option<Seq<RepositoryView>> {
    if !bypass && cached.contains_key(username) {
        Some(cached[username])
    } else {
        None
    }
}

/// The cache after a fetch for `username` from the source: the fetched list
/// replaces the entry where the fetch succeeded (`Some`), and nothing changes
/// where it failed (`None`).
pub open spec fn cache_after_fetch(
    cached: Map<Seq<char>, Seq<RepositoryView>>,
    username: Seq<char>,
    fetched: Option<Seq<RepositoryView>>,
) -> Map<Seq<char>, Seq<RepositoryView>> {
    match fetched {
        Some(list) => cached.insert(username, list),
        None => cached,
    }
}

/// The list that a fetch outcome carries, if it succeeded.
pub open spec fn outcome_views(r: Result<Vec<Repository>, FetchError>) -> Option<
    Seq<RepositoryView>,
> {
    match r {
        Ok(v) => Some(views_of(v@)),
        Err(_) => None,
    }
}

/// After a successful fetch of `first` for an account, a call for it
/// without `bypass` is served from the cache, with that same list. Where the
/// cache did not hold the account before, the first call was not served
/// from it.
pub proof fn law_repeated_call_served_from_cache(
    cached: Map<Seq<char>, Seq<RepositoryView>>,
    username: Seq<char>,
    first: Seq<RepositoryView>,
)
    ensures
        !cached.contains_key(username) ==> served_from_cache(cached, username, false) is None,
        served_from_cache(cache_after_fetch(cached, username, Some(first)), username, false)
            == Some(first),
{
}

/// A fetch for another account, successful or not, leaves what the cache
/// serves for `username` as it was; so does a call served from the cache,
/// which leaves the whole cache as it was.
pub proof fn law_other_account_keeps_entry(
    cached: Map<Seq<char>, Seq<RepositoryView>>,
    username: Seq<char>,
    other: Seq<char>,
    fetched: Option<Seq<RepositoryView>>,
    bypass: bool,
)
    requires
        other != username,
    ensures
        served_from_cache(cache_after_fetch(cached, other, fetched), username, bypass)
            == served_from_cache(cached, username, bypass),
{
}

/// A call with `bypass` is never served from the cache, whatever it holds,
/// and a successful fetch replaces the entry of the account.
pub proof fn law_bypass_always_fetches(
    cached: Map<Seq<char>, Seq<RepositoryView>>,
    username: Seq<char>,
    fetched: Seq<RepositoryView>,
)
    ensures
        served_from_cache(cached, username, true) is None,
        cache_after_fetch(cached, username, Some(fetched)).contains_key(username),
        cache_after_fetch(cached, username, Some(fetched))[username] == fetched,
{
}

/// A failed fetch leaves the cache exactly as it was.
pub proof fn law_failed_fetch_leaves_cache(
    cached: Map<Seq<char>, Seq<RepositoryView>>,
    username: Seq<char>,
)
    ensures
        cache_after_fetch(cached, username, None) == cached,
{
}

/// A source in front of which the last list fetched for each account is kept.
pub struct CachedGitHubClient<T: GitHubClient> {
    client: T,
    cache: DashMap<String, Vec<Repository>>,
}

impl<T: GitHubClient> CachedGitHubClient<T> {
    /// The lists held, by account.
    pub closed spec fn cached(&self) -> Map<Seq<char>, Seq<RepositoryView>> {
        cached_lists(self.cache)
    }

    /// The source behind the cache.
    pub closed spec fn inner(&self) -> T {
        self.client
    }

    /// A cache in front of `client` that holds nothing yet.
    pub fn new(client: T) -> (r: Self)
        ensures
            r.cached() == Map::<Seq<char>, Seq<RepositoryView>>::empty(),
            r.inner() == client,
    {
        let cache = empty_cache();
        assert(cached_lists(cache) =~= Map::<Seq<char>, Seq<RepositoryView>>::empty());
        Self { client, cache }
    }

    /// The cached list of `username` where the cache may serve it: `None`
    /// where `bypass` is set or nothing is held for the account.
    pub fn cached_entry(&self, username: &str, bypass: bool) -> (r: Option<Vec<Repository>>)
        ensures
            match r {
                Some(v) => served_from_cache(self.cached(), username@, bypass) == Some(views_of(v@)),
                None => served_from_cache(self.cached(), username@, bypass) is None,
            },
    {
        if bypass {
            None
        } else {
            cache_get(&self.cache, username)
        }
    }

    /// Records the outcome of a fetch for `username`: a fetched list replaces
    /// the entry of the account, a failure leaves the cache as it was. The
    /// outcome is handed back unchanged.
    fn store_outcome(
        &mut self,
        username: &str,
        fetched: Result<Vec<Repository>, FetchError>,
    ) -> (r: Result<Vec<Repository>, FetchError>)
        ensures
            r == fetched,
            final(self).cached() == cache_after_fetch(
                old(self).cached(),
                username@,
                outcome_views(fetched),
            ),
            final(self).inner() == old(self).inner(),
    {
        match fetched {
            Ok(list) => {
                let copy = duplicate_all(&list);
                cache_put(&mut self.cache, username.to_owned(), copy);
                Ok(list)
            },
            Err(e) => Err(e),
        }
    }

    /// The repositories of `username`: from the cache where it holds them and
    /// `bypass` is not set, without asking the source; otherwise from the
    /// source, whose list then replaces the cached one. A failed fetch is
    /// passed on and leaves the cache as it was.
    pub fn fetch_repos_with_cache(&mut self, username: &str, bypass: bool) -> (r: Result<
        Vec<Repository>,
        FetchError,
    >)
        ensures
            match served_from_cache(old(self).cached(), username@, bypass) {
                Some(list) => {
                    &&& r is Ok
                    &&& views_of(r->Ok_0@) == list
                    &&& final(self).cached() == old(self).cached()
                    &&& final(self).inner() == old(self).inner()
                },
                None => final(self).cached() == cache_after_fetch(
                    old(self).cached(),
                    username@,
                    outcome_views(r),
                ),
            },
    {
        match self.cached_entry(username, bypass) {
            Some(list) => Ok(list),
            None => {
                let fetched = self.client.fetch_repos(username);
                self.store_outcome(username, fetched)
            },
        }
    }
}

impl<T: GitHubClient> GitHubClient for CachedGitHubClient<T> {
    /// Fetches through the cache without `bypass`: a cached list where one
    /// is held, else the source's outcome, which the cache then records.
    fn fetch_repos(&mut self, username: &str) -> (r: Result<Vec<Repository>, FetchError>)
        ensures
            match served_from_cache(old(self).cached(), username@, false) {
                Some(list) => {
                    &&& r is Ok
                    &&& views_of(r->Ok_0@) == list
                    &&& final(self).cached() == old(self).cached()
                    &&& final(self).inner() == old(self).inner()
                },
                None => final(self).cached() == cache_after_fetch(
                    old(self).cached(),
                    username@,
                    outcome_views(r),
                ),
            },
    {
        self.fetch_repos_with_cache(username, false)
    }
}

} // verus!
