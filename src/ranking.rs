//! Ranking: a stable sort by descending star count, then truncation.
use crate::repository::{views_of, Repository, RepositoryView};
use crate::source::{FetchError, GitHubClient};
use vstd::prelude::*;

verus! {

/// `t` with `x` placed after the leading elements that have at least as many
/// stars as `x`.
pub open spec fn insert_ranked(t: Seq<RepositoryView>, x: RepositoryView) -> Seq<RepositoryView>
    decreases t.len(),
{
    if t.len() == 0 {
        seq![x]
    } else if t[0].stars < x.stars {
        seq![x] + t
    } else {
        seq![t[0]] + insert_ranked(t.drop_first(), x)
    }
}

/// `s` sorted by descending star count; repositories with equal counts keep
/// their order in `s`.
pub open spec fn ranked(s: Seq<RepositoryView>) -> Seq<RepositoryView>
    decreases s.len(),
{
    if s.len() == 0 {
        s
    } else {
        insert_ranked(ranked(s.drop_last()), s.last())
    }
}

/// The first `min(n, |s|)` elements of `ranked(s)`.
pub open spec fn top_of(s: Seq<RepositoryView>, n: nat) -> Seq<RepositoryView> {
    if n < s.len() {
        ranked(s).take(n as int)
    } else {
        ranked(s)
    }
}

/// No repository of `s` has fewer stars than one after it.
pub open spec fn descending(s: Seq<RepositoryView>) -> bool {
    forall|i: int, j: int| 0 <= i < j < s.len() ==> s[i].stars >= s[j].stars
}

/// Every repository of `s` has more stars than each one after it.
pub open spec fn strictly_descending(s: Seq<RepositoryView>) -> bool {
    forall|i: int, j: int| 0 <= i < j < s.len() ==> s[i].stars > s[j].stars
}

/// No two repositories of `s` have the same star count.
pub open spec fn distinct_stars(s: Seq<RepositoryView>) -> bool {
    forall|i: int, j: int| 0 <= i < s.len() && 0 <= j < s.len() && i != j ==> s[i].stars != s[j].stars
}

proof fn lemma_insert_ranked_at(t: Seq<RepositoryView>, x: RepositoryView, j: int)
    requires
        0 <= j <= t.len(),
        forall|k: int| 0 <= k < j ==> t[k].stars >= x.stars,
        j < t.len() ==> t[j].stars < x.stars,
    ensures
        insert_ranked(t, x) == t.insert(j, x),
    decreases t.len(),
{
    if t.len() == 0 {
        assert(t.insert(j, x) =~= seq![x]);
    } else if t[0].stars < x.stars {
        assert(t.insert(j, x) =~= seq![x] + t);
    } else {
        let rest = t.drop_first();
        assert forall|k: int| 0 <= k < j - 1 implies rest[k].stars >= x.stars by {
            assert(rest[k] == t[k + 1]);
        }
        lemma_insert_ranked_at(rest, x, j - 1);
        assert(t.insert(j, x) =~= seq![t[0]] + rest.insert(j - 1, x));
    }
}

/// Sorts `repos` by descending star count, keeping the order of repositories
/// with equal counts.
pub fn rank_all(repos: Vec<Repository>) -> (r: Vec<Repository>)
    ensures
        views_of(r@) == ranked(views_of(repos@)),
{
    let ghost s = views_of(repos@);
    let mut out: Vec<Repository> = Vec::new();
    let mut i: usize = 0;
    proof {
        assert(s.take(0) =~= Seq::<RepositoryView>::empty());
        assert(views_of(out@) =~= Seq::<RepositoryView>::empty());
    }
    while i < repos.len()
        invariant
            i <= repos.len(),
            s == views_of(repos@),
            views_of(out@) == ranked(s.take(i as int)),
        decreases repos.len() - i,
    {
        let x = repos[i].duplicate();
        let ghost before = views_of(out@);
        let mut j: usize = 0;
        while j < out.len() && out[j].stars >= x.stars
            invariant
                j <= out.len(),
                before == views_of(out@),
                forall|k: int| 0 <= k < j ==> before[k].stars >= x.stars,
            decreases out.len() - j,
        {
            j += 1;
        }
        proof {
            lemma_insert_ranked_at(before, x@, j as int);
            let p = s.take(i + 1);
            assert(p.drop_last() =~= s.take(i as int));
            assert(p.last() == x@);
        }
        out.insert(j, x);
        proof {
            assert(views_of(out@) =~= before.insert(j as int, x@));
        }
        i += 1;
    }
    proof {
        assert(s.take(repos.len() as int) =~= s);
    }
    out
}

/// The `n` repositories of `repos` with the most stars, in descending order
/// of stars; all of them, ranked, where `n` is at least their number.
pub fn rank_top(repos: Vec<Repository>, n: usize) -> (r: Vec<Repository>)
    ensures
        views_of(r@) == top_of(views_of(repos@), n as nat),
{
    let mut sorted = rank_all(repos);
    proof {
        lemma_ranked_multiset(views_of(repos@));
    }
    let ghost full = sorted@;
    sorted.truncate(n);
    proof {
        if n < full.len() {
            assert(views_of(sorted@) =~= views_of(full).take(n as int));
        }
    }
    sorted
}

/// Passes a failed fetch on unchanged, and ranks and truncates a successful
/// one.
pub fn rank_outcome(fetched: Result<Vec<Repository>, FetchError>, n: usize) -> (r: Result<
    Vec<Repository>,
    FetchError,
>)
    ensures
        match fetched {
            Ok(v) => r is Ok && views_of(r->Ok_0@) == top_of(views_of(v@), n as nat),
            Err(e) => r == Err::<Vec<Repository>, FetchError>(e),
        },
{
    match fetched {
        Ok(v) => Ok(rank_top(v, n)),
        Err(e) => Err(e),
    }
}

/// Ranks the repositories of an account, as fetched from a client.
pub struct FavouriteRepositories<T: GitHubClient> {
    pub client: T,
}

impl<T: GitHubClient> FavouriteRepositories<T> {
    /// A ranking service that fetches through `client`.
    pub fn new(client: T) -> (r: Self)
        ensures
            r.client == client,
    {
        Self { client }
    }

    /// Fetches the repositories of `username` once and returns the `top_n`
    /// with the most stars, in descending order of stars. A failed fetch is
    /// passed on unchanged.
    pub fn get_top_repos(&mut self, username: &str, top_n: usize) -> (r: Result<
        Vec<Repository>,
        FetchError,
    >)
        ensures
            match r {
                Ok(v) => exists|s: Seq<RepositoryView>| views_of(v@) == top_of(s, top_n as nat),
                Err(_) => true,
            },
            r matches Ok(v) ==> v@.len() <= top_n && descending(views_of(v@)),
    {
        let fetched = self.client.fetch_repos(username);
        let ghost fetched_views = if fetched is Ok {
            views_of(fetched->Ok_0@)
        } else {
            Seq::empty()
        };
        let r = rank_outcome(fetched, top_n);
        proof {
            lemma_top_of_descending(fetched_views, top_n as nat);
        }
        r
    }
}

proof fn lemma_insert_ranked_multiset(t: Seq<RepositoryView>, x: RepositoryView)
    ensures
        insert_ranked(t, x).len() == t.len() + 1,
        insert_ranked(t, x).to_multiset() == t.to_multiset().insert(x),
    decreases t.len(),
{
    broadcast use vstd::seq_lib::group_to_multiset_ensures;

    if t.len() == 0 {
        assert(seq![x] =~= t.insert(0, x));
    } else if t[0].stars < x.stars {
        assert(seq![x] + t =~= t.insert(0, x));
    } else {
        let rest = t.drop_first();
        lemma_insert_ranked_multiset(rest, x);
        assert(seq![t[0]] + insert_ranked(rest, x) =~= insert_ranked(rest, x).insert(0, t[0]));
        assert(t =~= rest.insert(0, t[0]));
        assert(insert_ranked(t, x).to_multiset() =~= t.to_multiset().insert(x));
    }
}

proof fn lemma_insert_ranked_members(t: Seq<RepositoryView>, x: RepositoryView, y: RepositoryView)
    requires
        insert_ranked(t, x).contains(y),
    ensures
        y == x || t.contains(y),
{
    broadcast use vstd::seq_lib::group_to_multiset_ensures;
    broadcast use vstd::multiset::group_multiset_axioms;

    lemma_insert_ranked_multiset(t, x);
    assert(insert_ranked(t, x).to_multiset().count(y) > 0);
}

proof fn lemma_insert_ranked_descending(t: Seq<RepositoryView>, x: RepositoryView)
    requires
        descending(t),
    ensures
        descending(insert_ranked(t, x)),
    decreases t.len(),
{
    if t.len() > 0 && t[0].stars >= x.stars {
        let rest = t.drop_first();
        lemma_insert_ranked_descending(rest, x);
        let r = insert_ranked(rest, x);
        assert forall|j: int| 0 <= j < r.len() implies t[0].stars >= #[trigger] r[j].stars by {
            assert(r.contains(r[j]));
            lemma_insert_ranked_members(rest, x, r[j]);
        }
        assert(insert_ranked(t, x) == seq![t[0]] + r);
    }
}

proof fn lemma_insert_ranked_strict(t: Seq<RepositoryView>, x: RepositoryView)
    requires
        strictly_descending(t),
        forall|k: int| 0 <= k < t.len() ==> t[k].stars != x.stars,
    ensures
        strictly_descending(insert_ranked(t, x)),
    decreases t.len(),
{
    if t.len() > 0 && t[0].stars >= x.stars {
        let rest = t.drop_first();
        assert forall|k: int| 0 <= k < rest.len() implies rest[k].stars != x.stars by {
            assert(rest[k] == t[k + 1]);
        }
        lemma_insert_ranked_strict(rest, x);
        let r = insert_ranked(rest, x);
        assert forall|j: int| 0 <= j < r.len() implies t[0].stars > #[trigger] r[j].stars by {
            assert(r.contains(r[j]));
            lemma_insert_ranked_members(rest, x, r[j]);
        }
        assert(insert_ranked(t, x) == seq![t[0]] + r);
    }
}

proof fn lemma_ranked_multiset(s: Seq<RepositoryView>)
    ensures
        ranked(s).len() == s.len(),
        ranked(s).to_multiset() == s.to_multiset(),
    decreases s.len(),
{
    broadcast use vstd::seq_lib::group_to_multiset_ensures;

    if s.len() > 0 {
        lemma_ranked_multiset(s.drop_last());
        lemma_insert_ranked_multiset(ranked(s.drop_last()), s.last());
        assert(s =~= s.drop_last().push(s.last()));
    }
}

proof fn lemma_ranked_descending(s: Seq<RepositoryView>)
    ensures
        descending(ranked(s)),
    decreases s.len(),
{
    if s.len() > 0 {
        lemma_ranked_descending(s.drop_last());
        lemma_insert_ranked_descending(ranked(s.drop_last()), s.last());
    }
}

proof fn lemma_top_of_descending(s: Seq<RepositoryView>, n: nat)
    ensures
        descending(top_of(s, n)),
        top_of(s, n).len() == if n < s.len() { n } else { s.len() },
{
    lemma_ranked_descending(s);
    lemma_ranked_multiset(s);
}

/// Where no two repositories share a star count, the ranked list holds the
/// same repositories and is (as is every prefix of it that `top_of` returns)
/// in strictly descending order of stars.
pub proof fn law_distinct_counts_strictly_descending(s: Seq<RepositoryView>, n: nat)
    requires
        distinct_stars(s),
    ensures
        ranked(s).to_multiset() == s.to_multiset(),
        strictly_descending(ranked(s)),
        strictly_descending(top_of(s, n)),
    decreases s.len(),
{
    broadcast use vstd::seq_lib::group_to_multiset_ensures;

    if s.len() > 0 {
        let p = s.drop_last();
        let x = s.last();
        assert(distinct_stars(p)) by {
            assert forall|i: int, j: int|
                0 <= i < p.len() && 0 <= j < p.len() && i != j implies p[i].stars
                != p[j].stars by {
                assert(p[i] == s[i] && p[j] == s[j]);
            }
        }
        law_distinct_counts_strictly_descending(p, n);
        lemma_ranked_multiset(p);
        let t = ranked(p);
        assert forall|k: int| 0 <= k < t.len() implies t[k].stars != x.stars by {
            assert(t.contains(t[k]));
            assert(p.to_multiset().count(t[k]) > 0);
            assert(p.contains(t[k]));
            let m = choose|m: int| 0 <= m < p.len() && p[m] == t[k];
            assert(s[m] == p[m]);
            assert(s[s.len() - 1] == x);
        }
        lemma_insert_ranked_strict(t, x);
    }
    lemma_ranked_multiset(s);
    let r = ranked(s);
    let top = top_of(s, n);
    assert forall|i: int, j: int| 0 <= i < j < top.len() implies top[i].stars > top[j].stars by {
        assert(top[i] == r[i] && top[j] == r[j]);
    }
}

/// A count at least as large as the list returns the whole list, ranked:
/// the same repositories, none dropped.
pub proof fn law_oversized_count_returns_all(s: Seq<RepositoryView>, n: nat)
    requires
        n >= s.len(),
    ensures
        top_of(s, n) == ranked(s),
        top_of(s, n).len() == s.len(),
        top_of(s, n).to_multiset() == s.to_multiset(),
{
    lemma_ranked_multiset(s);
}

/// A list that is already in descending order of stars is ranked as it
/// stands, so a count at least as large as it returns it unmodified.
pub proof fn law_ranked_list_unchanged(s: Seq<RepositoryView>, n: nat)
    requires
        descending(s),
        n >= s.len(),
    ensures
        ranked(s) == s,
        top_of(s, n) == s,
    decreases s.len(),
{
    if s.len() > 0 {
        let p = s.drop_last();
        law_ranked_list_unchanged(p, n);
        lemma_insert_ranked_at(p, s.last(), p.len() as int);
        assert(p.insert(p.len() as int, s.last()) =~= s);
    }
}

/// A count of zero returns no repository.
pub proof fn law_zero_count_returns_nothing(s: Seq<RepositoryView>)
    ensures
        top_of(s, 0) == Seq::<RepositoryView>::empty(),
{
    lemma_ranked_multiset(s);
    assert(ranked(s).take(0) =~= Seq::<RepositoryView>::empty());
    if s.len() == 0 {
        assert(ranked(s) =~= Seq::<RepositoryView>::empty());
    }
}

} // verus!
