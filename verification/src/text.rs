//! Small verified string helpers shared by the configuration loader and the
//! commit-lookup stage: trimming trailing slashes from a host URL and
//! splitting a `owner/name` repository key at its first slash.

use vstd::prelude::*;

verus! {

/// The view of `s` with every trailing `'/'` removed.
pub open spec fn trim_trailing_slashes(s: Seq<char>) -> Seq<char>
    decreases s.len(),
{
    if s.len() > 0 && s[s.len() - 1] == '/' {
        trim_trailing_slashes(s.drop_last())
    } else {
        s
    }
}

/// `s` holds at least one `'/'`.
pub open spec fn has_slash(s: Seq<char>) -> bool {
    exists|i: int| 0 <= i < s.len() && s[i] == '/'
}

/// `owner` and `repo` are exactly the parts of `full` before and after its
/// first `'/'`.
pub open spec fn splits_at_first_slash(full: Seq<char>, owner: Seq<char>, repo: Seq<char>) -> bool {
    &&& full == owner + "/"@ + repo
    &&& forall|i: int| 0 <= i < owner.len() ==> owner[i] != '/'
}

/// Strict lexicographic order on character sequences by code point: the
/// order in which `String` values compare, since UTF-8 byte order follows
/// code-point order.
pub open spec fn lex_lt(a: Seq<char>, b: Seq<char>) -> bool
    decreases a.len(),
{
    if b.len() == 0 {
        false
    } else if a.len() == 0 {
        true
    } else if a[0] != b[0] {
        (a[0] as int) < (b[0] as int)
    } else {
        lex_lt(a.drop_first(), b.drop_first())
    }
}

/// `lex_lt` never relates a sequence to itself.
pub proof fn lemma_lex_irreflexive(a: Seq<char>)
    ensures
        !lex_lt(a, a),
    decreases a.len(),
{
    if a.len() > 0 {
        lemma_lex_irreflexive(a.drop_first());
    }
}

/// Any two sequences are ordered one way or the other, or are equal.
pub proof fn lemma_lex_total(a: Seq<char>, b: Seq<char>)
    ensures
        lex_lt(a, b) || lex_lt(b, a) || a == b,
    decreases a.len(),
{
    if a.len() == 0 && b.len() == 0 {
        assert(a =~= b);
    } else if a.len() > 0 && b.len() > 0 && a[0] == b[0] {
        lemma_lex_total(a.drop_first(), b.drop_first());
        if a.drop_first() == b.drop_first() {
            assert(a.drop_first().len() == a.len() - 1);
            assert(b.drop_first().len() == b.len() - 1);
            assert(a.len() == b.len());
            assert forall|i: int| 0 <= i < a.len() implies a[i] == b[i] by {
                if i > 0 {
                    assert(a[i] == a.drop_first()[i - 1]);
                    assert(b[i] == b.drop_first()[i - 1]);
                }
            }
            assert(a =~= b);
        }
    }
}

/// `lex_lt` is transitive.
pub proof fn lemma_lex_transitive(a: Seq<char>, b: Seq<char>, c: Seq<char>)
    requires
        lex_lt(a, b),
        lex_lt(b, c),
    ensures
        lex_lt(a, c),
    decreases a.len(),
{
    if a.len() > 0 && b.len() > 0 && c.len() > 0 && a[0] == b[0] && b[0] == c[0] {
        lemma_lex_transitive(a.drop_first(), b.drop_first(), c.drop_first());
    }
}

/// Whether `a` orders strictly before `b`.
pub fn str_lt(a: &str, b: &str) -> (r: bool)
    ensures
        r == lex_lt(a@, b@),
{
    let alen = a.unicode_len();
    let blen = b.unicode_len();
    proof {
        assert(a@.subrange(0, alen as int) =~= a@);
        assert(b@.subrange(0, blen as int) =~= b@);
    }
    let mut i: usize = 0;
    while i < alen && i < blen
        invariant
            i <= alen,
            i <= blen,
            alen == a@.len(),
            blen == b@.len(),
            lex_lt(a@, b@) == lex_lt(
                a@.subrange(i as int, alen as int),
                b@.subrange(i as int, blen as int),
            ),
        decreases alen - i,
    {
        let ca = a.get_char(i);
        let cb = b.get_char(i);
        if ca != cb {
            return ca < cb;
        }
        proof {
            assert(a@.subrange(i as int, alen as int).drop_first() =~= a@.subrange(
                i + 1,
                alen as int,
            ));
            assert(b@.subrange(i as int, blen as int).drop_first() =~= b@.subrange(
                i + 1,
                blen as int,
            ));
        }
        i = i + 1;
    }
    alen < blen
}

/// A key that splits at a first slash holds a slash.
pub proof fn lemma_split_implies_slash(full: Seq<char>, owner: Seq<char>, repo: Seq<char>)
    requires
        splits_at_first_slash(full, owner, repo),
    ensures
        has_slash(full),
{
    reveal_strlit("/");
    assert(full[owner.len() as int] == '/');
}

/// Strip every trailing `'/'` from `s`.
pub fn trim_trailing(s: &str) -> (r: &str)
    ensures
        r@ == trim_trailing_slashes(s@),
{
    let len = s.unicode_len();
    proof {
        assert(s@.subrange(0, len as int) =~= s@);
    }
    let mut end = len;
    while end > 0 && s.get_char(end - 1) == '/'
        invariant
            end <= len,
            len == s@.len(),
            trim_trailing_slashes(s@) == trim_trailing_slashes(s@.subrange(0, end as int)),
        decreases end,
    {
        proof {
            assert(s@.subrange(0, end as int).drop_last() =~= s@.subrange(0, end - 1));
        }
        end = end - 1;
    }
    let r = s.substring_char(0, end);
    proof {
        assert(trim_trailing_slashes(s@.subrange(0, end as int)) == s@.subrange(0, end as int));
    }
    r
}

/// Split `full` at its first `'/'` into the owner part and the repository
/// part; `None` when `full` holds no `'/'` at all.
pub fn split_repo_full(full: &str) -> (r: Option<(String, String)>)
    ensures
        match r {
            Some(parts) => splits_at_first_slash(full@, parts.0@, parts.1@),
            None => !has_slash(full@),
        },
        r is Some <==> has_slash(full@),
{
    let len = full.unicode_len();
    let mut i: usize = 0;
    while i < len && full.get_char(i) != '/'
        invariant
            i <= len,
            len == full@.len(),
            forall|j: int| 0 <= j < i ==> full@[j] != '/',
        decreases len - i,
    {
        i = i + 1;
    }
    if i == len {
        return None;
    }
    let owner = full.substring_char(0, i).to_owned();
    let repo = full.substring_char(i + 1, len).to_owned();
    proof {
        reveal_strlit("/");
        assert(full@ =~= owner@ + "/"@ + repo@);
    }
    Some((owner, repo))
}

} // verus!
