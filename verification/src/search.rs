//! The search stage's bookkeeping: fold paginated search results into a
//! duplicate-free, ascending collection of (repository key, path) pairs,
//! decide when pagination ends, and turn the collected pairs into
//! per-repository targets, enumerated in sorted order.

use vstd::prelude::*;
use crate::text::{
    has_slash, lemma_lex_irreflexive, lemma_lex_total, lemma_lex_transitive,
    lemma_split_implies_slash, lex_lt, split_repo_full, splits_at_first_slash, str_lt,
};

verus! {

/// The fixed number of items requested per search page. Pagination never
/// counts pages against an expected total: only an empty page ends the scan.
pub const PAGE_SIZE: usize = 100;

/// One item of a search page, as the caller hands it over: the owning
/// repository's full `owner/name` key and the matched file path, each absent
/// when the response item lacked the field.
pub struct SearchHit {
    pub repo_full: Option<String>,
    pub path: Option<String>,
}

/// One deduplicated search result: a file occurrence in one repository,
/// with the repository key already split into owner and name.
#[derive(Clone, Debug)]
pub struct RepoTarget {
    pub owner: String,
    pub repo: String,
    pub path: String,
}

/// A collected repository key held no `/` separator; splitting it into
/// owner and name is impossible. This is a fatal logic error for the run.
#[derive(Clone, Debug)]
pub struct MalformedKey {
    pub key: String,
}

/// The (repository key, path) view of one collected pair.
pub open spec fn pair_key(p: (String, String)) -> (Seq<char>, Seq<char>) {
    (p.0@, p.1@)
}

/// Strict order on (repository key, path) views: by key, then by path —
/// the ascending order in which the targets are enumerated.
pub open spec fn pair_lt(a: (Seq<char>, Seq<char>), b: (Seq<char>, Seq<char>)) -> bool {
    lex_lt(a.0, b.0) || (a.0 == b.0 && lex_lt(a.1, b.1))
}

/// `pair_lt` never relates a view to itself.
pub proof fn lemma_pair_lt_irreflexive(a: (Seq<char>, Seq<char>))
    ensures
        !pair_lt(a, a),
{
    lemma_lex_irreflexive(a.0);
    lemma_lex_irreflexive(a.1);
}

/// Any two views are ordered one way or the other, or are equal.
pub proof fn lemma_pair_lt_total(a: (Seq<char>, Seq<char>), b: (Seq<char>, Seq<char>))
    ensures
        pair_lt(a, b) || pair_lt(b, a) || a == b,
{
    lemma_lex_total(a.0, b.0);
    if !lex_lt(a.0, b.0) && !lex_lt(b.0, a.0) {
        lemma_lex_total(a.1, b.1);
        if !lex_lt(a.1, b.1) && !lex_lt(b.1, a.1) {
            assert(a == b);
        }
    }
}

/// `pair_lt` is transitive.
pub proof fn lemma_pair_lt_transitive(
    a: (Seq<char>, Seq<char>),
    b: (Seq<char>, Seq<char>),
    c: (Seq<char>, Seq<char>),
)
    requires
        pair_lt(a, b),
        pair_lt(b, c),
    ensures
        pair_lt(a, c),
{
    if lex_lt(a.0, b.0) && lex_lt(b.0, c.0) {
        lemma_lex_transitive(a.0, b.0, c.0);
    }
    if a.0 == b.0 && b.0 == c.0 && lex_lt(a.1, b.1) && lex_lt(b.1, c.1) {
        lemma_lex_transitive(a.1, b.1, c.1);
    }
}

/// The set of (repository key, path) views collected in `ps`.
pub open spec fn key_set(ps: Seq<(String, String)>) -> Set<(Seq<char>, Seq<char>)>
    decreases ps.len(),
{
    if ps.len() == 0 {
        Set::empty()
    } else {
        key_set(ps.drop_last()).insert(pair_key(ps.last()))
    }
}

/// The set of (repository key, path) views of the items of one page that
/// carry both fields; items missing either field contribute nothing.
pub open spec fn hit_key_set(items: Seq<SearchHit>) -> Set<(Seq<char>, Seq<char>)>
    decreases items.len(),
{
    if items.len() == 0 {
        Set::empty()
    } else {
        let rest = hit_key_set(items.drop_last());
        let last = items.last();
        if last.repo_full is Some && last.path is Some {
            rest.insert((last.repo_full->0@, last.path->0@))
        } else {
            rest
        }
    }
}

/// Membership in `key_set` is presence at some index.
pub proof fn lemma_key_set_contains(ps: Seq<(String, String)>, k: (Seq<char>, Seq<char>))
    ensures
        key_set(ps).contains(k) <==> exists|i: int| 0 <= i < ps.len() && pair_key(ps[i]) == k,
    decreases ps.len(),
{
    if ps.len() > 0 {
        lemma_key_set_contains(ps.drop_last(), k);
        assert(forall|i: int| 0 <= i < ps.len() - 1 ==> ps.drop_last()[i] == ps[i]);
        if key_set(ps).contains(k) && pair_key(ps.last()) != k {
            let i = choose|i: int| 0 <= i < ps.len() - 1 && pair_key(ps.drop_last()[i]) == k;
            assert(pair_key(ps[i]) == k);
        }
        if exists|i: int| 0 <= i < ps.len() && pair_key(ps[i]) == k {
            let i = choose|i: int| 0 <= i < ps.len() && pair_key(ps[i]) == k;
            if i < ps.len() - 1 {
                assert(pair_key(ps.drop_last()[i]) == k);
            }
        }
    }
}

/// Inserting a pair at any position adds exactly its key to the key set.
pub proof fn lemma_key_set_insert_mid(ps: Seq<(String, String)>, pos: int, x: (String, String))
    requires
        0 <= pos <= ps.len(),
    ensures
        key_set(ps.insert(pos, x)) == key_set(ps).insert(pair_key(x)),
{
    let qs = ps.insert(pos, x);
    ps.insert_ensures(pos, x);
    assert forall|k: (Seq<char>, Seq<char>)| #[trigger] key_set(qs).contains(k) implies key_set(
        ps,
    ).insert(pair_key(x)).contains(k) by {
        lemma_key_set_contains(qs, k);
        let i = choose|i: int| 0 <= i < qs.len() && pair_key(qs[i]) == k;
        if i < pos {
            assert(pair_key(ps[i]) == k);
            lemma_key_set_contains(ps, k);
        } else if i > pos {
            assert(qs[(i - 1) + 1] == ps[i - 1]);
            assert(pair_key(ps[i - 1]) == k);
            lemma_key_set_contains(ps, k);
        }
    }
    assert forall|k: (Seq<char>, Seq<char>)|
        key_set(ps).insert(pair_key(x)).contains(k) implies #[trigger] key_set(qs).contains(
        k,
    ) by {
        if k == pair_key(x) {
            assert(pair_key(qs[pos]) == k);
        } else {
            lemma_key_set_contains(ps, k);
            let i = choose|i: int| 0 <= i < ps.len() && pair_key(ps[i]) == k;
            if i < pos {
                assert(pair_key(qs[i]) == k);
            } else {
                assert(qs[i + 1] == ps[i]);
                assert(pair_key(qs[i + 1]) == k);
            }
        }
        lemma_key_set_contains(qs, k);
    }
    assert(key_set(qs) =~= key_set(ps).insert(pair_key(x)));
}

/// Whether `a` enumerates strictly before `b`.
fn pair_before(a: &(String, String), b: &(String, String)) -> (r: bool)
    ensures
        r == pair_lt(pair_key(*a), pair_key(*b)),
{
    if str_lt(a.0.as_str(), b.0.as_str()) {
        true
    } else if a.0 == b.0 {
        str_lt(a.1.as_str(), b.1.as_str())
    } else {
        false
    }
}

/// The running state of the search stage: the pairs collected so far and the
/// number of the page to request next.
pub struct SearchState {
    pub pairs: Vec<(String, String)>,
    pub page: usize,
}

impl SearchState {
    /// No two collected pairs agree on both repository key and path.
    pub open spec fn wf(self) -> bool {
        forall|i: int, j: int|
            0 <= i < j < self.pairs@.len() ==> pair_key(self.pairs@[i]) != pair_key(
                self.pairs@[j],
            )
    }

    /// The collected pairs stand in strictly ascending (repository key,
    /// path) order — the enumeration order of the later per-target stage.
    pub open spec fn sorted(self) -> bool {
        forall|i: int, j: int|
            0 <= i < j < self.pairs@.len() ==> pair_lt(
                pair_key(self.pairs@[i]),
                pair_key(self.pairs@[j]),
            )
    }

    /// A fresh scan: nothing collected, the first page up next.
    pub fn new() -> (r: SearchState)
        ensures
            r.wf(),
            r.sorted(),
            r.pairs@.len() == 0,
            r.page == 1,
    {
        SearchState { pairs: Vec::new(), page: 1 }
    }

    /// The page number the next search request should ask for.
    pub fn next_page(&self) -> (p: usize)
        ensures
            p == self.page,
    {
        self.page
    }

    /// Whether the pair is already collected.
    fn contains_pair(&self, repo_full: &String, path: &String) -> (b: bool)
        ensures
            b == key_set(self.pairs@).contains((repo_full@, path@)),
    {
        let mut i: usize = 0;
        while i < self.pairs.len()
            invariant
                i <= self.pairs@.len(),
                forall|j: int| 0 <= j < i ==> pair_key(self.pairs@[j]) != (repo_full@, path@),
            decreases self.pairs@.len() - i,
        {
            if self.pairs[i].0 == *repo_full && self.pairs[i].1 == *path {
                proof {
                    lemma_key_set_contains(self.pairs@, (repo_full@, path@));
                }
                return true;
            }
            i = i + 1;
        }
        proof {
            lemma_key_set_contains(self.pairs@, (repo_full@, path@));
        }
        false
    }

    /// The position the pair belongs at: the index of the first collected
    /// pair that does not order strictly before it.
    fn insert_pos(&self, repo_full: &String, path: &String) -> (pos: usize)
        ensures
            pos <= self.pairs@.len(),
            forall|j: int|
                0 <= j < pos ==> pair_lt(pair_key(self.pairs@[j]), (repo_full@, path@)),
            pos < self.pairs@.len() ==> !pair_lt(
                pair_key(self.pairs@[pos as int]),
                (repo_full@, path@),
            ),
    {
        let probe = (repo_full.clone(), path.clone());
        let mut i: usize = 0;
        while i < self.pairs.len() && pair_before(&self.pairs[i], &probe)
            invariant
                i <= self.pairs@.len(),
                pair_key(probe) == (repo_full@, path@),
                forall|j: int|
                    0 <= j < i ==> pair_lt(pair_key(self.pairs@[j]), (repo_full@, path@)),
            decreases self.pairs@.len() - i,
        {
            i = i + 1;
        }
        i
    }

    /// Fold one search page into the state. Returns `true` exactly when the
    /// page carried no items, which is the scan's only terminal condition; a
    /// non-empty page of any size continues the scan. Every item of the page
    /// that carries both fields joins the collected set at its sorted
    /// position, duplicates collapsed, and the page counter moves on by one.
    /// The strictly ascending order and the exact key set together determine
    /// the collected sequence completely.
    pub fn process_page(&mut self, items: Vec<SearchHit>) -> (done: bool)
        requires
            old(self).wf(),
            old(self).sorted(),
            old(self).page < usize::MAX,
        ensures
            final(self).wf(),
            final(self).sorted(),
            done <==> items@.len() == 0,
            done ==> final(self).pairs@ == old(self).pairs@ && final(self).page == old(
                self,
            ).page,
            !done ==> final(self).page == old(self).page + 1,
            key_set(final(self).pairs@) == key_set(old(self).pairs@).union(hit_key_set(items@)),
    {
        if items.len() == 0 {
            proof {
                assert(key_set(self.pairs@).union(hit_key_set(items@)) =~= key_set(self.pairs@));
            }
            return true;
        }
        let ghost old_pairs = self.pairs@;
        let ghost old_page = self.page;
        let mut k: usize = 0;
        while k < items.len()
            invariant
                k <= items@.len(),
                self.wf(),
                self.sorted(),
                self.page == old_page,
                key_set(self.pairs@) == key_set(old_pairs).union(
                    hit_key_set(items@.take(k as int)),
                ),
            decreases items@.len() - k,
        {
            proof {
                assert(items@.take(k + 1).drop_last() =~= items@.take(k as int));
                assert(items@.take(k + 1).last() == items@[k as int]);
            }
            let item = &items[k];
            match (&item.repo_full, &item.path) {
                (Some(r), Some(p)) => {
                    let dup = self.contains_pair(r, p);
                    if !dup {
                        let ghost prev = self.pairs@;
                        proof {
                            lemma_key_set_contains(prev, (r@, p@));
                        }
                        let pos = self.insert_pos(r, p);
                        let elem = (r.clone(), p.clone());
                        let ghost gelem = elem;
                        self.pairs.insert(pos, elem);
                        proof {
                            assert(pair_key(gelem) == (r@, p@));
                            assert(self.pairs@ == prev.insert(pos as int, gelem));
                            prev.insert_ensures(pos as int, gelem);
                            lemma_key_set_insert_mid(prev, pos as int, gelem);
                            assert(key_set(old_pairs).union(hit_key_set(items@.take(k + 1)))
                                =~= key_set(prev).insert((r@, p@)));
                            assert forall|j: int|
                                pos <= j < prev.len() implies pair_lt(
                                (r@, p@),
                                pair_key(prev[j]),
                            ) by {
                                lemma_pair_lt_total(pair_key(prev[pos as int]), (r@, p@));
                                if j > pos {
                                    lemma_pair_lt_transitive(
                                        (r@, p@),
                                        pair_key(prev[pos as int]),
                                        pair_key(prev[j]),
                                    );
                                }
                            }
                            assert forall|m: int, n: int|
                                0 <= m < n < self.pairs@.len() implies pair_lt(
                                pair_key(self.pairs@[m]),
                                pair_key(self.pairs@[n]),
                            ) by {
                                if n < pos {
                                    assert(pair_lt(pair_key(prev[m]), pair_key(prev[n])));
                                } else if m < pos && n == pos {
                                    assert(pair_lt(pair_key(prev[m]), (r@, p@)));
                                } else if m < pos && n > pos {
                                    assert(self.pairs@[n] == prev[n - 1]);
                                    assert(pair_lt(pair_key(prev[m]), pair_key(prev[n - 1])));
                                } else if m == pos {
                                    assert(self.pairs@[n] == prev[n - 1]);
                                    assert(pair_lt((r@, p@), pair_key(prev[n - 1])));
                                } else {
                                    assert(self.pairs@[m] == prev[m - 1]);
                                    assert(self.pairs@[n] == prev[n - 1]);
                                    assert(pair_lt(pair_key(prev[m - 1]), pair_key(prev[n - 1])));
                                }
                            }
                            assert forall|m: int, n: int|
                                0 <= m < n < self.pairs@.len() implies pair_key(self.pairs@[m])
                                != pair_key(self.pairs@[n]) by {
                                lemma_pair_lt_irreflexive(pair_key(self.pairs@[m]));
                            }
                        }
                    } else {
                        proof {
                            assert(key_set(old_pairs).union(hit_key_set(items@.take(k + 1)))
                                =~= key_set(self.pairs@));
                        }
                    }
                },
                _ => {
                    proof {
                        assert(hit_key_set(items@.take(k + 1)) == hit_key_set(
                            items@.take(k as int),
                        ));
                    }
                },
            }
            k = k + 1;
        }
        proof {
            assert(items@.take(items@.len() as int) =~= items@);
        }
        self.page = self.page + 1;
        false
    }

    /// Turn every collected pair, in its ascending enumeration order, into a
    /// `RepoTarget`, splitting the repository key at its first slash; the
    /// path carries over unchanged. Fails on the first key without a
    /// separator. The produced list is duplicate-free under (owner,
    /// repository name, path) and strictly ascending under (repository full
    /// name, path).
    pub fn targets(&self) -> (r: Result<Vec<RepoTarget>, MalformedKey>)
        requires
            self.wf(),
            self.sorted(),
        ensures
            r is Ok <==> (forall|i: int|
                0 <= i < self.pairs@.len() ==> has_slash(self.pairs@[i].0@)),
            r matches Ok(ts) ==> {
                &&& ts@.len() == self.pairs@.len()
                &&& forall|i: int|
                    0 <= i < ts@.len() ==> splits_at_first_slash(
                        self.pairs@[i].0@,
                        ts@[i].owner@,
                        ts@[i].repo@,
                    ) && ts@[i].path@ == self.pairs@[i].1@
                &&& forall|i: int, j: int|
                    0 <= i < j < ts@.len() ==> !(ts@[i].owner@ == ts@[j].owner@ && ts@[i].repo@
                        == ts@[j].repo@ && ts@[i].path@ == ts@[j].path@)
                &&& forall|i: int, j: int|
                    0 <= i < j < ts@.len() ==> pair_lt(
                        (ts@[i].owner@ + "/"@ + ts@[i].repo@, ts@[i].path@),
                        (ts@[j].owner@ + "/"@ + ts@[j].repo@, ts@[j].path@),
                    )
            },
            r matches Err(e) ==> !has_slash(e.key@) && (exists|i: int|
                #![auto]
                0 <= i < self.pairs@.len() && self.pairs@[i].0@ == e.key@ && (forall|j: int|
                    0 <= j < i ==> has_slash(self.pairs@[j].0@))),
    {
        let mut ts: Vec<RepoTarget> = Vec::new();
        let mut i: usize = 0;
        while i < self.pairs.len()
            invariant
                i <= self.pairs@.len(),
                ts@.len() == i,
                forall|j: int|
                    0 <= j < i ==> splits_at_first_slash(
                        self.pairs@[j].0@,
                        ts@[j].owner@,
                        ts@[j].repo@,
                    ) && ts@[j].path@ == self.pairs@[j].1@,
            decreases self.pairs@.len() - i,
        {
            match split_repo_full(self.pairs[i].0.as_str()) {
                Some(parts) => {
                    let path = self.pairs[i].1.clone();
                    ts.push(RepoTarget { owner: parts.0, repo: parts.1, path });
                },
                None => {
                    proof {
                        assert forall|j: int| 0 <= j < i implies has_slash(
                            self.pairs@[j].0@,
                        ) by {
                            lemma_split_implies_slash(
                                self.pairs@[j].0@,
                                ts@[j].owner@,
                                ts@[j].repo@,
                            );
                        }
                    }
                    return Err(MalformedKey { key: self.pairs[i].0.clone() });
                },
            }
            i = i + 1;
        }
        proof {
            assert forall|j: int| 0 <= j < self.pairs@.len() implies has_slash(
                self.pairs@[j].0@,
            ) by {
                lemma_split_implies_slash(self.pairs@[j].0@, ts@[j].owner@, ts@[j].repo@);
            }
            assert forall|a: int, b: int|
                0 <= a < b < ts@.len() implies !(ts@[a].owner@ == ts@[b].owner@ && ts@[a].repo@
                == ts@[b].repo@ && ts@[a].path@ == ts@[b].path@) by {
                assert(pair_key(self.pairs@[a]) != pair_key(self.pairs@[b]));
            }
            assert forall|a: int, b: int|
                0 <= a < b < ts@.len() implies pair_lt(
                (ts@[a].owner@ + "/"@ + ts@[a].repo@, ts@[a].path@),
                (ts@[b].owner@ + "/"@ + ts@[b].repo@, ts@[b].path@),
            ) by {
                assert(pair_lt(pair_key(self.pairs@[a]), pair_key(self.pairs@[b])));
            }
        }
        Ok(ts)
    }
}

impl MalformedKey {
    /// A descriptive message naming the malformed key.
    pub fn message(&self) -> (r: String)
        ensures
            r@ == "repository key without separator: "@ + self.key@,
    {
        let mut m = "repository key without separator: ".to_owned();
        m.append(self.key.as_str());
        m
    }
}

} // verus!
