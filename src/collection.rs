//! The post collection: newest first by date, equal dates in the order the
//! files were found.
use vstd::prelude::*;
use crate::post::Post;
use vstd::multiset::Multiset;
use crate::text::{
    lemma_lex_asymmetric, lemma_lex_not_lt_transitive, lemma_lex_total, lex_lt, less_than,
};

verus! {

/// The date of a post, as characters.
pub open spec fn date_of(p: Post) -> Seq<char> {
    p.metadata.date@
}

/// `s` with `p` placed after every post dated no earlier than `p`, and before
/// the earlier-dated posts that end the sequence.
pub open spec fn insert_by_date(s: Seq<Post>, p: Post) -> Seq<Post>
    decreases s.len(),
{
    if s.len() == 0 {
        seq![p]
    } else if lex_lt(date_of(s.last()), date_of(p)) {
        insert_by_date(s.drop_last(), p).push(s.last())
    } else {
        s.push(p)
    }
}

/// The stable sort of `s` by date, newest first.
pub open spec fn sort_by_date(s: Seq<Post>) -> Seq<Post>
    decreases s.len(),
{
    if s.len() == 0 {
        s
    } else {
        insert_by_date(sort_by_date(s.drop_last()), s.last())
    }
}

/// No post comes before a post with a later date.
pub open spec fn newest_first(s: Seq<Post>) -> bool {
    forall|i: int, j: int| 0 <= i < j < s.len() ==> !lex_lt(date_of(s[i]), date_of(s[j]))
}

proof fn lemma_insert_at(s: Seq<Post>, p: Post, k: int)
    requires
        0 <= k <= s.len(),
        forall|i: int| k <= i < s.len() ==> lex_lt(date_of(s[i]), date_of(p)),
        k == 0 || !lex_lt(date_of(s[k - 1]), date_of(p)),
    ensures
        insert_by_date(s, p) == s.insert(k, p),
    decreases s.len(),
{
    if s.len() == 0 {
        assert(s.insert(k, p) =~= seq![p]);
    } else if lex_lt(date_of(s.last()), date_of(p)) {
        lemma_insert_at(s.drop_last(), p, k);
        assert(s.drop_last().insert(k, p).push(s.last()) =~= s.insert(k, p));
    } else {
        assert(s.push(p) =~= s.insert(k, p));
    }
}

/// Orders a collection newest first; posts with equal dates keep their order.
pub fn sort_posts(posts: Vec<Post>) -> (r: Vec<Post>)
    ensures
        r@ == sort_by_date(posts@),
{
    let ghost orig = posts@;
    let mut rest = posts;
    let mut done: Vec<Post> = Vec::new();
    let ghost mut m: int = 0;
    while rest.len() > 0
        invariant
            0 <= m <= orig.len(),
            rest@ == orig.subrange(m, orig.len() as int),
            done@ == sort_by_date(orig.subrange(0, m)),
        decreases rest.len(),
    {
        let p = rest.remove(0);
        let mut k = done.len();
        while k > 0 && less_than(&done[k - 1].metadata.date, &p.metadata.date)
            invariant
                k <= done.len(),
                forall|i: int| k <= i < done.len() ==> lex_lt(date_of(done[i]), date_of(p)),
            decreases k,
        {
            k = k - 1;
        }
        proof {
            lemma_insert_at(done@, p, k as int);
            assert(orig.subrange(0, m + 1).drop_last() =~= orig.subrange(0, m));
            assert(rest@ =~= orig.subrange(m + 1, orig.len() as int));
        }
        done.insert(k, p);
        proof {
            m = m + 1;
        }
    }
    assert(orig.subrange(0, m) =~= orig);
    done
}

proof fn lemma_insert_by_date(s: Seq<Post>, p: Post)
    requires
        newest_first(s),
    ensures
        newest_first(insert_by_date(s, p)),
        insert_by_date(s, p).to_multiset() == s.to_multiset().insert(p),
    decreases s.len(),
{
    broadcast use vstd::seq_lib::group_to_multiset_ensures;

    if s.len() == 0 {
        assert(seq![p] =~= Seq::<Post>::empty().push(p));
    } else {
        let dl = s.drop_last();
        let last = s.last();
        assert(s =~= dl.push(last));
        if lex_lt(date_of(last), date_of(p)) {
            lemma_insert_by_date(dl, p);
            let r = insert_by_date(dl, p);
            assert forall|i: int| 0 <= i < r.len() implies !lex_lt(date_of(r[i]), date_of(last)) by {
                assert(r.to_multiset().count(r[i]) > 0);
                if r[i] == p {
                    lemma_lex_asymmetric(date_of(last), date_of(p));
                } else {
                    assert(dl.to_multiset().count(r[i]) > 0);
                    assert(dl.contains(r[i]));
                    let j = choose|j: int| 0 <= j < dl.len() && dl[j] == r[i];
                    assert(s[j] == dl[j]);
                }
            }
            assert(r.push(last).to_multiset() =~= s.to_multiset().insert(p));
        } else {
            assert forall|i: int| 0 <= i < s.len() implies !lex_lt(date_of(s[i]), date_of(p)) by {
                if i < s.len() - 1 {
                    lemma_lex_not_lt_transitive(date_of(s[i]), date_of(last), date_of(p));
                }
            }
        }
    }
}

/// Sorting yields the same posts, newest first.
pub proof fn lemma_sort_by_date(s: Seq<Post>)
    ensures
        newest_first(sort_by_date(s)),
        sort_by_date(s).to_multiset() == s.to_multiset(),
    decreases s.len(),
{
    broadcast use vstd::seq_lib::group_to_multiset_ensures;

    if s.len() > 0 {
        lemma_sort_by_date(s.drop_last());
        lemma_insert_by_date(sort_by_date(s.drop_last()), s.last());
        assert(s =~= s.drop_last().push(s.last()));
    }
}

/// No two different posts of the multiset share a date.
pub open spec fn dates_identify(m: Multiset<Post>) -> bool {
    forall|p: Post, q: Post|
        m.contains(p) && m.contains(q) && date_of(p) == date_of(q) ==> p == q
}

proof fn lemma_later_in_order(t: Seq<Post>, x: Post)
    requires
        newest_first(t),
        t.len() > 0,
        t.contains(x),
    ensures
        !lex_lt(date_of(x), date_of(t.last())),
{
    let j = choose|j: int| 0 <= j < t.len() && t[j] == x;
    if j == t.len() - 1 {
        if lex_lt(date_of(x), date_of(x)) {
            lemma_lex_asymmetric(date_of(x), date_of(x));
        }
    }
}

proof fn lemma_newest_first_unique(s: Seq<Post>, t: Seq<Post>)
    requires
        newest_first(s),
        newest_first(t),
        s.to_multiset() == t.to_multiset(),
        dates_identify(s.to_multiset()),
    ensures
        s == t,
    decreases s.len(),
{
    broadcast use vstd::seq_lib::group_to_multiset_ensures;
    broadcast use vstd::multiset::group_multiset_axioms;

    assert(s.to_multiset().len() == s.len());
    assert(t.to_multiset().len() == t.len());
    if s.len() == 0 {
        assert(s =~= t);
    } else {
        let x = s.last();
        let y = t.last();
        assert(s.to_multiset().count(x) > 0);
        assert(t.to_multiset().count(y) > 0);
        lemma_later_in_order(t, x);
        lemma_later_in_order(s, y);
        lemma_lex_total(date_of(x), date_of(y));
        assert(x == y);
        let ds = s.drop_last();
        let dt = t.drop_last();
        assert(s =~= ds.push(x));
        assert(t =~= dt.push(y));
        assert(ds.to_multiset() =~= s.to_multiset().remove(x));
        assert(dt.to_multiset() =~= t.to_multiset().remove(y));
        assert(dates_identify(ds.to_multiset())) by {
            assert forall|p: Post| ds.to_multiset().contains(p) implies s.to_multiset().contains(
                p,
            ) by {}
        }
        lemma_newest_first_unique(ds, dt);
    }
}

/// Law: loading the same posts, found in any order, gives the same collection,
/// as long as no two different posts share a date.
pub proof fn lemma_sort_unique(a: Seq<Post>, b: Seq<Post>)
    requires
        a.to_multiset() == b.to_multiset(),
        dates_identify(a.to_multiset()),
    ensures
        sort_by_date(a) == sort_by_date(b),
{
    lemma_sort_by_date(a);
    lemma_sort_by_date(b);
    lemma_newest_first_unique(sort_by_date(a), sort_by_date(b));
}

} // verus!
