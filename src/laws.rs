use vstd::prelude::*;
use crate::friends::{
    edges_with, edges_without, mutual_ids, mutual_pred, one_side_ids, one_side_pred, pair_outcome,
    search_ids, search_pred, senders,
};
use crate::store::{same_people, Store};
use crate::types::SomeError;

verus! {

broadcast use vstd::seq_lib::group_filter_ensures;

proof fn lemma_filter_keeps_all<A>(s: Seq<A>, pred: spec_fn(A) -> bool)
    requires
        forall|k: int| 0 <= k < s.len() ==> pred(#[trigger] s[k]),
    ensures
        s.filter(pred) == s,
    decreases s.len(),
{
    reveal(Seq::filter);
    if s.len() > 0 {
        lemma_filter_keeps_all(s.drop_last(), pred);
        assert(s.drop_last().push(s.last()) =~= s);
    }
}

/// The sender of an edge that passes `pred` is among the senders kept by `pred`.
proof fn lemma_sender_kept(es: Seq<(int, int)>, pred: spec_fn((int, int)) -> bool, k: int)
    requires
        0 <= k < es.len(),
        pred(es[k]),
    ensures
        senders(es.filter(pred)).contains(es[k].0),
{
    let f = es.filter(pred);
    assert(f.contains(es[k]));
    let j = choose|j: int| 0 <= j < f.len() && f[j] == es[k];
    assert(senders(f)[j] == es[k].0);
}

/// A sender kept by `pred` sent an edge that passes `pred`.
proof fn lemma_kept_sender(es: Seq<(int, int)>, pred: spec_fn((int, int)) -> bool, x: int) -> (p: (int, int))
    requires
        senders(es.filter(pred)).contains(x),
    ensures
        pred(p),
        p.0 == x,
{
    let f = es.filter(pred);
    let j = choose|j: int| 0 <= j < senders(f).len() && senders(f)[j] == x;
    f[j]
}

/// Between two distinct existing users a request is always accepted; afterwards
/// it stands, and the request the other way stands exactly when it did before.
pub proof fn law_add_records_request(s: Store, a: int, b: int)
    requires
        s.wf(),
        a != b,
        s.user_exists(a),
        s.user_exists(b),
    ensures
        pair_outcome(&s, a, b) == Ok::<(), SomeError>(()),
        edges_with(&s, a, b).contains((a, b)),
        edges_with(&s, a, b).contains((b, a)) == s.edge_exists(b, a),
{
    let e = s.edges();
    if !s.edge_exists(a, b) {
        assert(e.push((a, b))[e.len() as int] == (a, b));
        if e.push((a, b)).contains((b, a)) {
            let k = choose|k: int| 0 <= k < e.len() + 1 && e.push((a, b))[k] == (b, a);
            assert(e[k] == (b, a));
        }
        if s.edge_exists(b, a) {
            let k = choose|k: int| 0 <= k < e.len() && e[k] == (b, a);
            assert(e.push((a, b))[k] == (b, a));
        }
    }
}

/// A request from a user to themself is refused as such.
pub proof fn law_self_request_refused(s: Store, a: int)
    ensures
        pair_outcome(&s, a, a) == Err::<(), SomeError>(SomeError::SameIdError),
{
}

/// A request between two different ids of which one is not a user is refused as
/// naming a missing user.
pub proof fn law_missing_user_refused(s: Store, a: int, b: int)
    requires
        a != b,
        !s.user_exists(a) || !s.user_exists(b),
    ensures
        pair_outcome(&s, a, b) == Err::<(), SomeError>(SomeError::NotExistError),
{
}

/// Withdrawing a request twice: the second time reports what the first did and
/// changes nothing, and afterwards the request does not stand.
pub proof fn law_reject_idempotent(s0: Store, s1: Store, a: int, b: int)
    requires
        s1.edges() == edges_without(&s0, a, b),
        same_people(&s0, &s1),
    ensures
        pair_outcome(&s1, a, b) == pair_outcome(&s0, a, b),
        edges_without(&s1, a, b) == s1.edges(),
        !s1.edge_exists(a, b),
{
    let pred = |p: (int, int)| p != (a, b);
    let f = s0.edges().filter(pred);
    assert forall|k: int| 0 <= k < f.len() implies pred(#[trigger] f[k]) by {}
    lemma_filter_keeps_all(f, pred);
    if s1.edge_exists(a, b) {
        let k = choose|k: int| 0 <= k < f.len() && f[k] == (a, b);
        assert(pred(f[k]));
    }
}

/// When two users have requested each other, each lists the other among the
/// mutual friends and not among the one-sided ones.
pub proof fn law_mutual_classified(s: Store, a: int, b: int)
    requires
        s.edge_exists(a, b),
        s.edge_exists(b, a),
    ensures
        mutual_ids(&s, a).contains(b),
        !one_side_ids(&s, a).contains(b),
        mutual_ids(&s, b).contains(a),
        !one_side_ids(&s, b).contains(a),
{
    let e = s.edges();
    let kb = choose|k: int| 0 <= k < e.len() && e[k] == (b, a);
    lemma_sender_kept(e, mutual_pred(&s, a), kb);
    let ka = choose|k: int| 0 <= k < e.len() && e[k] == (a, b);
    lemma_sender_kept(e, mutual_pred(&s, b), ka);
    if one_side_ids(&s, a).contains(b) {
        let p = lemma_kept_sender(e, one_side_pred(&s, a), b);
    }
    if one_side_ids(&s, b).contains(a) {
        let p = lemma_kept_sender(e, one_side_pred(&s, b), a);
    }
}

/// When `c` has requested `a` and `a` has not requested `c`, `a` lists `c` among
/// the one-sided friends and not among the mutual ones.
pub proof fn law_one_side_classified(s: Store, a: int, c: int)
    requires
        s.edge_exists(c, a),
        !s.edge_exists(a, c),
    ensures
        one_side_ids(&s, a).contains(c),
        !mutual_ids(&s, a).contains(c),
{
    let e = s.edges();
    let k = choose|k: int| 0 <= k < e.len() && e[k] == (c, a);
    lemma_sender_kept(e, one_side_pred(&s, a), k);
    if mutual_ids(&s, a).contains(c) {
        let p = lemma_kept_sender(e, mutual_pred(&s, a), c);
    }
}

/// A search never shows the searcher, nor a user the searcher is mutual friends
/// with.
pub proof fn law_search_excludes(s: Store, r: int, m: int, sub: Seq<char>)
    requires
        s.edge_exists(r, m),
        s.edge_exists(m, r),
    ensures
        !search_ids(&s, r, sub).contains(r),
        !search_ids(&s, r, sub).contains(m),
{
    let f = search_ids(&s, r, sub);
    if f.contains(r) {
        let j = choose|j: int| 0 <= j < f.len() && f[j] == r;
        assert(search_pred(&s, r, sub)(f[j]));
    }
    if f.contains(m) {
        let j = choose|j: int| 0 <= j < f.len() && f[j] == m;
        assert(search_pred(&s, r, sub)(f[j]));
    }
}

} // verus!
