use std::cell::Cell;
use std::rc::Rc;

use favourite_repos::cache::CachedGitHubClient;
use favourite_repos::ranking::FavouriteRepositories;
use favourite_repos::repository::Repository;
use favourite_repos::source::{FetchError, GitHubClient};

/// Answers each call with a list whose single repository has as many stars as
/// there have been calls so far; fails where `fail` is set.
struct CountingClient {
    calls: Rc<Cell<u32>>,
    fail: Rc<Cell<bool>>,
}

impl GitHubClient for CountingClient {
    fn fetch_repos(&mut self, username: &str) -> Result<Vec<Repository>, FetchError> {
        self.calls.set(self.calls.get() + 1);
        if self.fail.get() {
            return Err(FetchError::Transport {
                message: "timed out".to_string(),
            });
        }
        Ok(vec![Repository {
            name: format!("{}-repo", username),
            url: format!("https://github.com/{}/repo", username),
            description: "No description".to_string(),
            stars: self.calls.get(),
            username: username.to_string(),
        }])
    }
}

fn counting() -> (CachedGitHubClient<CountingClient>, Rc<Cell<u32>>, Rc<Cell<bool>>) {
    let calls = Rc::new(Cell::new(0));
    let fail = Rc::new(Cell::new(false));
    let client = CountingClient {
        calls: calls.clone(),
        fail: fail.clone(),
    };
    (CachedGitHubClient::new(client), calls, fail)
}

#[test]
fn second_call_is_served_from_cache() {
    let (mut cache, calls, _) = counting();
    let first = cache.fetch_repos_with_cache("octo", false).unwrap();
    let second = cache.fetch_repos_with_cache("octo", false).unwrap();
    assert_eq!(calls.get(), 1);
    assert_eq!(first.len(), 1);
    assert_eq!(second.len(), 1);
    assert_eq!(first[0].name, second[0].name);
    assert_eq!(first[0].stars, second[0].stars);
}

#[test]
fn bypass_fetches_and_overwrites_entry() {
    let (mut cache, calls, _) = counting();
    cache.fetch_repos_with_cache("octo", false).unwrap();
    let fresh = cache.fetch_repos_with_cache("octo", true).unwrap();
    assert_eq!(calls.get(), 2);
    assert_eq!(fresh[0].stars, 2);
    let cached = cache.fetch_repos_with_cache("octo", false).unwrap();
    assert_eq!(calls.get(), 2);
    assert_eq!(cached[0].stars, 2);
}

#[test]
fn bypass_on_empty_cache_fetches() {
    let (mut cache, calls, _) = counting();
    cache.fetch_repos_with_cache("octo", true).unwrap();
    assert_eq!(calls.get(), 1);
}

#[test]
fn accounts_are_cached_separately() {
    let (mut cache, calls, _) = counting();
    cache.fetch_repos_with_cache("a", false).unwrap();
    let b = cache.fetch_repos_with_cache("b", false).unwrap();
    assert_eq!(calls.get(), 2);
    assert_eq!(b[0].username, "b");
    let a = cache.fetch_repos_with_cache("a", false).unwrap();
    assert_eq!(calls.get(), 2);
    assert_eq!(a[0].stars, 1);
}

#[test]
fn failed_fetch_leaves_cache_untouched() {
    let (mut cache, calls, fail) = counting();
    let first = cache.fetch_repos_with_cache("octo", false).unwrap();
    fail.set(true);
    match cache.fetch_repos_with_cache("octo", true) {
        Err(FetchError::Transport { message }) => assert_eq!(message, "timed out"),
        other => panic!("unexpected outcome: {:?}", other),
    }
    assert_eq!(calls.get(), 2);
    let after = cache.fetch_repos_with_cache("octo", false).unwrap();
    assert_eq!(calls.get(), 2);
    assert_eq!(after[0].stars, first[0].stars);
}

#[test]
fn failed_first_fetch_stores_nothing() {
    let (mut cache, calls, fail) = counting();
    fail.set(true);
    assert!(cache.fetch_repos_with_cache("octo", false).is_err());
    fail.set(false);
    assert!(cache.cached_entry("octo", false).is_none());
    cache.fetch_repos_with_cache("octo", false).unwrap();
    assert_eq!(calls.get(), 2);
}

#[test]
fn cached_entry_respects_bypass() {
    let (mut cache, _, _) = counting();
    assert!(cache.cached_entry("octo", false).is_none());
    cache.fetch_repos_with_cache("octo", false).unwrap();
    assert_eq!(cache.cached_entry("octo", false).unwrap()[0].stars, 1);
    assert!(cache.cached_entry("octo", true).is_none());
}

#[test]
fn cache_as_source_for_ranking() {
    let (cache, calls, _) = counting();
    let mut service = FavouriteRepositories::new(cache);
    let first = service.get_top_repos("octo", 10).unwrap();
    let second = service.get_top_repos("octo", 10).unwrap();
    assert_eq!(calls.get(), 1);
    assert_eq!(first[0].stars, second[0].stars);
}

#[test]
fn cache_through_trait_uses_no_bypass() {
    let (mut cache, calls, _) = counting();
    cache.fetch_repos("octo").unwrap();
    cache.fetch_repos("octo").unwrap();
    assert_eq!(calls.get(), 1);
}
