use vstd::prelude::*;
use crate::store::{lemma_filter_step, same_people, Store};
use crate::types::{AddFriend, CodePair, FriendList, IdAndName, IdPair, SearchUser, SomeError, UserView};
use crate::user_code::{digits_value, is_code, parse_user_code};

verus! {

/// What adding or withdrawing the request from `a` to `b` reports.
pub open spec fn pair_outcome(s: &Store, a: int, b: int) -> Result<(), SomeError> {
    if a == b {
        Err(SomeError::SameIdError)
    } else if !s.user_exists(a) || !s.user_exists(b) {
        Err(SomeError::NotExistError)
    } else {
        Ok(())
    }
}

/// The edges after recording a request from `a` to `b`: a new edge goes last,
/// an existing one stays where it is.
pub open spec fn edges_with(s: &Store, a: int, b: int) -> Seq<(int, int)> {
    if s.edge_exists(a, b) {
        s.edges()
    } else {
        s.edges().push((a, b))
    }
}

/// The edges after withdrawing the request from `a` to `b`.
pub open spec fn edges_without(s: &Store, a: int, b: int) -> Seq<(int, int)> {
    s.edges().filter(|p: (int, int)| p != (a, b))
}

/// Sends a friend request from `my_id` to `target_id`.
///
/// Fails with `SameIdError` when the two are equal and with `NotExistError`
/// when either is not a user; then nothing changes. Sending a request that
/// already stands succeeds and changes nothing.
pub fn add_friend(store: &mut Store, id_pair: IdPair) -> (r: Result<(), SomeError>)
    requires
        old(store).wf(),
    ensures
        final(store).wf(),
        r == pair_outcome(old(store), id_pair.my_id as int, id_pair.target_id as int),
        r is Err ==> *final(store) == *old(store),
        r is Ok ==> final(store).edges() == edges_with(
            old(store),
            id_pair.my_id as int,
            id_pair.target_id as int,
        ),
        same_people(old(store), final(store)),
{
    let my_id = id_pair.my_id;
    let friend_id = id_pair.target_id;
    if my_id == friend_id {
        return Err(SomeError::SameIdError);
    }
    if !store.is_exist_id(my_id) || !store.is_exist_id(friend_id) {
        return Err(SomeError::NotExistError);
    }
    store.insert_friend(AddFriend { active: my_id, passive: friend_id });
    Ok(())
}

/// Sends a friend request between two users named by their codes.
///
/// Fails with `ValidationError` when either is not six decimal digits; otherwise
/// behaves as `add_friend` on the numbers the codes spell.
pub fn add_friend_by_code(store: &mut Store, pair: &CodePair) -> (r: Result<(), SomeError>)
    requires
        old(store).wf(),
    ensures
        final(store).wf(),
        !is_code(pair.my_id@) || !is_code(pair.target_id@) ==> r == Err::<(), SomeError>(
            SomeError::ValidationError,
        ),
        is_code(pair.my_id@) && is_code(pair.target_id@) ==> r == pair_outcome(
            old(store),
            digits_value(pair.my_id@),
            digits_value(pair.target_id@),
        ),
        r is Err ==> *final(store) == *old(store),
        r is Ok ==> final(store).edges() == edges_with(
            old(store),
            digits_value(pair.my_id@),
            digits_value(pair.target_id@),
        ),
        same_people(old(store), final(store)),
{
    let my_id = match parse_user_code(pair.my_id.as_str()) {
        Ok(v) => v,
        Err(e) => return Err(e),
    };
    let target_id = match parse_user_code(pair.target_id.as_str()) {
        Ok(v) => v,
        Err(e) => return Err(e),
    };
    add_friend(store, IdPair { my_id, target_id })
}

/// Withdraws the friend request from `my_id` to `target_id`; the request the
/// other way is kept.
///
/// Fails as `add_friend` does. Withdrawing a request that does not stand
/// succeeds and changes nothing.
pub fn reject_friend(store: &mut Store, id_pair: IdPair) -> (r: Result<(), SomeError>)
    requires
        old(store).wf(),
    ensures
        final(store).wf(),
        r == pair_outcome(old(store), id_pair.my_id as int, id_pair.target_id as int),
        r is Err ==> *final(store) == *old(store),
        r is Ok ==> final(store).edges() == edges_without(
            old(store),
            id_pair.my_id as int,
            id_pair.target_id as int,
        ),
        same_people(old(store), final(store)),
{
    let my_id = id_pair.my_id;
    let friend_id = id_pair.target_id;
    if my_id == friend_id {
        return Err(SomeError::SameIdError);
    }
    if !store.is_exist_id(my_id) || !store.is_exist_id(friend_id) {
        return Err(SomeError::NotExistError);
    }
    store.delete_friend(my_id, friend_id);
    Ok(())
}

/// The senders of a sequence of edges.
pub open spec fn senders(es: Seq<(int, int)>) -> Seq<int> {
    es.map_values(|p: (int, int)| p.0)
}

/// The ids of a sequence of user views.
pub open spec fn view_ids(vs: Seq<UserView>) -> Seq<int> {
    vs.map_values(|v: UserView| v.id as int)
}

/// An edge into `owner` whose sender `owner` has requested in turn.
pub open spec fn mutual_pred(s: &Store, owner: int) -> spec_fn((int, int)) -> bool {
    |p: (int, int)| p.1 == owner && s.edge_exists(owner, p.0)
}

/// An edge into `owner` whose sender `owner` has not requested.
pub open spec fn one_side_pred(s: &Store, owner: int) -> spec_fn((int, int)) -> bool {
    |p: (int, int)| p.1 == owner && !s.edge_exists(owner, p.0)
}

/// The users who requested `owner` and whom `owner` requested too, in the
/// order their requests were recorded.
pub open spec fn mutual_ids(s: &Store, owner: int) -> Seq<int> {
    senders(s.edges().filter(mutual_pred(s, owner)))
}

/// The users who requested `owner` and whom `owner` has not requested, in the
/// order their requests were recorded.
pub open spec fn one_side_ids(s: &Store, owner: int) -> Seq<int> {
    senders(s.edges().filter(one_side_pred(s, owner)))
}

/// Each view shows the user whose id it carries.
pub open spec fn shows_users(s: &Store, vs: Seq<UserView>) -> bool {
    forall|k: int|
        0 <= k < vs.len() ==> {
            let v = #[trigger] vs[k];
            &&& s.user_exists(v.id as int)
            &&& v.name == s.user(v.id as int).user_name
            &&& v.icon_path == s.user(v.id as int).icon_path
        }
}

proof fn lemma_senders_push(es: Seq<(int, int)>, p: (int, int))
    ensures
        senders(es.push(p)) == senders(es).push(p.0),
{
    assert(senders(es.push(p)) =~= senders(es).push(p.0));
}

proof fn lemma_view_ids_push(vs: Seq<UserView>, v: UserView)
    ensures
        view_ids(vs.push(v)) == view_ids(vs).push(v.id as int),
{
    assert(view_ids(vs.push(v)) =~= view_ids(vs).push(v.id as int));
}

/// Splits the users who requested `my_id` into mutual friends (requested back)
/// and one-sided ones, each in the order the requests were recorded.
pub fn get_friend_list(store: &Store, my_id: i32) -> (r: FriendList)
    requires
        store.wf(),
    ensures
        view_ids(r.mutual@) == mutual_ids(store, my_id as int),
        view_ids(r.one_side@) == one_side_ids(store, my_id as int),
        shows_users(store, r.mutual@),
        shows_users(store, r.one_side@),
{
    broadcast use vstd::std_specs::hash::group_hash_axioms;

    let ghost es = store.edges();
    let requested = store.get_requested_record(my_id);
    let applied = store.get_applied_record(my_id);
    let mut mutual: Vec<UserView> = Vec::new();
    let mut one_side: Vec<UserView> = Vec::new();
    let mut i: usize = 0;
    while i < requested.len()
        invariant
            store.wf(),
            es == store.edges(),
            forall|x: i32| applied@.contains(x) <==> store.edge_exists(my_id as int, x as int),
            requested@.len() == es.len(),
            forall|k: int| 0 <= k < es.len() ==> ((#[trigger] requested@[k]) is Some <==> es[k].1 == my_id as int),
            forall|k: int| 0 <= k < es.len() && (#[trigger] requested@[k]) is Some ==> requested@[k]->Some_0 as int == es[k].0,
            forall|k: int| 0 <= k < es.len() ==> es[k].1 == my_id ==> store.user_exists(#[trigger] es[k].0) && es[k].0 != my_id,
            i <= es.len(),
            view_ids(mutual@) == senders(es.take(i as int).filter(mutual_pred(store, my_id as int))),
            view_ids(one_side@) == senders(es.take(i as int).filter(one_side_pred(store, my_id as int))),
            shows_users(store, mutual@),
            shows_users(store, one_side@),
        decreases es.len() - i,
    {
        proof {
            lemma_filter_step(es, i as int, mutual_pred(store, my_id as int));
            lemma_filter_step(es, i as int, one_side_pred(store, my_id as int));
        }
        if let Some(x) = requested[i] {
            let v = store.user_view(x);
            let ghost mb = mutual@;
            let ghost ob = one_side@;
            if applied.contains(&x) {
                mutual.push(v);
                proof {
                    lemma_view_ids_push(mb, v);
                    lemma_senders_push(es.take(i as int).filter(mutual_pred(store, my_id as int)), es[i as int]);
                }
            } else {
                one_side.push(v);
                proof {
                    lemma_view_ids_push(ob, v);
                    lemma_senders_push(es.take(i as int).filter(one_side_pred(store, my_id as int)), es[i as int]);
                }
            }
        }
        i = i + 1;
    }
    proof {
        assert(es.take(es.len() as int) =~= es);
    }
    FriendList { one_side, mutual }
}

/// `sub` occurs in `s` as a contiguous run.
pub open spec fn contains_seq(s: Seq<char>, sub: Seq<char>) -> bool {
    exists|i: int| 0 <= i && i + sub.len() <= s.len() && #[trigger] s.subrange(i, i + sub.len()) == sub
}

/// Relies on str::contains with a `&str` pattern: whether `sub` occurs in `s`.
#[verifier::external_body]
fn name_contains(s: &str, sub: &str) -> (r: bool)
    ensures
        r == contains_seq(s@, sub@),
{
    s.contains(sub)
}

/// A user shown when `me` searches for `sub`: the name contains `sub`, the
/// user is not `me`, and the two have not requested each other.
pub open spec fn search_pred(s: &Store, me: int, sub: Seq<char>) -> spec_fn(int) -> bool {
    |i: int|
        contains_seq(s.user(i).user_name@, sub) && i != me && !(s.edge_exists(me, i) && s.edge_exists(
            i,
            me,
        ))
}

/// The ids of the users shown when `me` searches for `sub`, in id order.
pub open spec fn search_ids(s: &Store, me: int, sub: Seq<char>) -> Seq<int> {
    Seq::new(s.num_users(), |i: int| i).filter(search_pred(s, me, sub))
}

/// The ids of a sequence of search hits.
pub open spec fn hit_ids(hs: Seq<SearchUser>) -> Seq<int> {
    hs.map_values(|h: SearchUser| h.id as int)
}

/// Each hit shows its user and the requests between that user and `me`.
pub open spec fn describes_hits(s: &Store, me: int, hs: Seq<SearchUser>) -> bool {
    forall|k: int|
        0 <= k < hs.len() ==> {
            let h = #[trigger] hs[k];
            &&& s.user_exists(h.id as int)
            &&& h.name == s.user(h.id as int).user_name
            &&& h.icon_path == s.user(h.id as int).icon_path
            &&& h.applied == s.edge_exists(me, h.id as int)
            &&& h.requested == s.edge_exists(h.id as int, me)
        }
}

proof fn lemma_int_filter_step(n: int, pred: spec_fn(int) -> bool)
    requires
        0 <= n,
    ensures
        Seq::new((n + 1) as nat, |i: int| i).filter(pred) == if pred(n) {
            Seq::new(n as nat, |i: int| i).filter(pred).push(n)
        } else {
            Seq::new(n as nat, |i: int| i).filter(pred)
        },
{
    let t = Seq::new((n + 1) as nat, |i: int| i);
    assert(t.drop_last() =~= Seq::new(n as nat, |i: int| i));
    reveal(Seq::filter);
}

proof fn lemma_hit_ids_push(hs: Seq<SearchUser>, h: SearchUser)
    ensures
        hit_ids(hs.push(h)) == hit_ids(hs).push(h.id as int),
{
    assert(hit_ids(hs.push(h)) =~= hit_ids(hs).push(h.id as int));
}

/// Searches the users whose name contains `target_name`, leaving out the
/// searcher and everyone the searcher is mutual friends with, and marks each hit
/// with the requests between it and the searcher.
///
/// Fails with `NotExistError` when the searcher is not a user.
pub fn search_user(store: &Store, id_and_name: IdAndName) -> (r: Result<Vec<SearchUser>, SomeError>)
    requires
        store.wf(),
    ensures
        !store.user_exists(id_and_name.my_id as int) ==> r == Err::<Vec<SearchUser>, SomeError>(
            SomeError::NotExistError,
        ),
        store.user_exists(id_and_name.my_id as int) ==> r is Ok,
        r is Ok ==> hit_ids(r->Ok_0@) == search_ids(store, id_and_name.my_id as int, id_and_name.target_name@),
        r is Ok ==> describes_hits(store, id_and_name.my_id as int, r->Ok_0@),
{
    let my_id = id_and_name.my_id;
    if !store.is_exist_id(my_id) {
        return Err(SomeError::NotExistError);
    }
    let ghost me = my_id as int;
    let ghost sub = id_and_name.target_name@;
    let n = store.user_count();
    let mut hits: Vec<SearchUser> = Vec::new();
    let mut i: usize = 0;
    while i < n
        invariant
            store.wf(),
            n == store.num_users(),
            n <= i32::MAX,
            me == my_id as int,
            sub == id_and_name.target_name@,
            i <= n,
            hit_ids(hits@) == Seq::new(i as nat, |j: int| j).filter(search_pred(store, me, sub)),
            describes_hits(store, me, hits@),
        decreases n - i,
    {
        proof {
            lemma_int_filter_step(i as int, search_pred(store, me, sub));
        }
        let x = i as i32;
        let v = store.user_view(x);
        if name_contains(v.name.as_str(), id_and_name.target_name.as_str()) && x != my_id {
            let (applied, requested) = store.get_friends_relation(my_id, x);
            if !(applied && requested) {
                let h = SearchUser { id: x, name: v.name, icon_path: v.icon_path, applied, requested };
                let ghost before = hits@;
                hits.push(h);
                proof {
                    lemma_hit_ids_push(before, h);
                }
            }
        }
        i = i + 1;
    }
    Ok(hits)
}

} // verus!
