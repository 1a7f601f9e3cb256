use vstd::prelude::*;
use std::collections::HashSet;
use crate::types::{AddFriend, Spot, User, UserView};

verus! {

/// A directed edge as a pair of integers: (sender, receiver).
pub open spec fn edge_of(e: AddFriend) -> (int, int) {
    (e.active as int, e.passive as int)
}

/// A sequence of edges as pairs of integers.
pub open spec fn edge_views(v: Seq<AddFriend>) -> Seq<(int, int)> {
    v.map_values(|e: AddFriend| edge_of(e))
}

/// Extending a prefix by one element extends its filtered part by that element
/// exactly when the element passes.
pub proof fn lemma_filter_step(es: Seq<(int, int)>, i: int, pred: spec_fn((int, int)) -> bool)
    requires
        0 <= i < es.len(),
    ensures
        es.take(i + 1).filter(pred) == if pred(es[i]) {
            es.take(i).filter(pred).push(es[i])
        } else {
            es.take(i).filter(pred)
        },
{
    let t = es.take(i + 1);
    assert(t.drop_last() =~= es.take(i));
    reveal(Seq::filter);
}

/// `b` holds the same users, beacons and spots as `a`.
pub open spec fn same_people(a: &Store, b: &Store) -> bool {
    &&& b.num_users() == a.num_users()
    &&& forall|i: int| #[trigger] b.user(i) == a.user(i)
    &&& forall|i: int| #[trigger] b.beacon(i) == a.beacon(i)
    &&& b.spots() == a.spots()
}

/// Users, friend-request edges and registered beacon spots.
///
/// User ids are positions: the user with id `i` is the `i`-th one registered.
/// Every edge joins two distinct existing users.
pub struct Store {
    users: Vec<User>,
    beacons: Vec<Option<Spot>>,
    edges: Vec<AddFriend>,
    spots: Vec<Spot>,
}

impl Store {
    /// The number of registered users.
    pub closed spec fn num_users(&self) -> nat {
        self.users@.len()
    }

    /// The user with id `id`.
    pub closed spec fn user(&self, id: int) -> User {
        self.users@[id]
    }

    /// The spot where the user with id `id` was last seen, if any.
    pub closed spec fn beacon(&self, id: int) -> Option<Spot> {
        self.beacons@[id]
    }

    /// The registered spots, in order of registration.
    pub closed spec fn spots(&self) -> Seq<Spot> {
        self.spots@
    }

    /// The edges, in order of insertion.
    pub closed spec fn edges(&self) -> Seq<(int, int)> {
        edge_views(self.edges@)
    }

    pub open spec fn user_exists(&self, id: int) -> bool {
        0 <= id < self.num_users()
    }

    /// `a` has sent a friend request to `b`.
    pub open spec fn edge_exists(&self, a: int, b: int) -> bool {
        self.edges().contains((a, b))
    }

    pub closed spec fn wf(&self) -> bool {
        &&& self.users@.len() == self.beacons@.len()
        &&& self.users@.len() <= i32::MAX
        &&& forall|i: int| 0 <= i < self.users@.len() ==> (#[trigger] self.users@[i]).id == i
        &&& forall|k: int|
            0 <= k < self.edges@.len() ==> {
                let e = #[trigger] self.edges@[k];
                &&& e.active != e.passive
                &&& 0 <= e.active < self.users@.len()
                &&& 0 <= e.passive < self.users@.len()
            }
    }

    /// An empty store.
    pub fn new() -> (s: Store)
        ensures
            s.wf(),
            s.num_users() == 0,
            s.edges() == Seq::<(int, int)>::empty(),
            s.spots() == Seq::<Spot>::empty(),
    {
        let s = Store { users: Vec::new(), beacons: Vec::new(), edges: Vec::new(), spots: Vec::new() };
        proof {
            assert(s.edges() =~= Seq::<(int, int)>::empty());
        }
        s
    }

    /// The number of registered users.
    pub fn user_count(&self) -> (n: usize)
        requires
            self.wf(),
        ensures
            n == self.num_users(),
            n <= i32::MAX,
    {
        self.users.len()
    }

    /// Identity gate: whether `id` names a registered user.
    pub fn is_exist_id(&self, id: i32) -> (r: bool)
        requires
            self.wf(),
        ensures
            r == self.user_exists(id as int),
    {
        0 <= id && (id as usize) < self.users.len()
    }

    /// Whether `active` has sent a friend request to `passive`.
    pub fn has_edge(&self, active: i32, passive: i32) -> (r: bool)
        ensures
            r == self.edge_exists(active as int, passive as int),
    {
        let mut i: usize = 0;
        while i < self.edges.len()
            invariant
                i <= self.edges@.len(),
                forall|k: int| 0 <= k < i ==> self.edges()[k] != (active as int, passive as int),
            decreases self.edges@.len() - i,
        {
            let e = self.edges[i];
            if e.active == active && e.passive == passive {
                proof {
                    assert(self.edges()[i as int] == (active as int, passive as int));
                }
                return true;
            }
            i = i + 1;
        }
        false
    }

    /// The relation between `a` and `b`: whether `a` has requested `b`, and
    /// whether `b` has requested `a`.
    pub fn get_friends_relation(&self, a: i32, b: i32) -> (r: (bool, bool))
        ensures
            r.0 == self.edge_exists(a as int, b as int),
            r.1 == self.edge_exists(b as int, a as int),
    {
        (self.has_edge(a, b), self.has_edge(b, a))
    }

    /// For each edge in order, its sender when it points at `id`.
    pub fn get_requested_record(&self, id: i32) -> (r: Vec<Option<i32>>)
        requires
            self.wf(),
        ensures
            r@.len() == self.edges().len(),
            forall|k: int|
                0 <= k < r@.len() ==> ((#[trigger] r@[k]) is Some <==> self.edges()[k].1 == id as int),
            forall|k: int|
                0 <= k < r@.len() && (#[trigger] r@[k]) is Some ==> r@[k]->Some_0 as int == self.edges()[k].0,
            forall|k: int|
                0 <= k < self.edges().len() ==> self.edges()[k].1 == id ==> self.user_exists(
                    #[trigger] self.edges()[k].0,
                ) && self.edges()[k].0 != id,
    {
        let mut r: Vec<Option<i32>> = Vec::new();
        let mut i: usize = 0;
        while i < self.edges.len()
            invariant
                self.wf(),
                i <= self.edges@.len(),
                r@.len() == i,
                forall|k: int|
                    0 <= k < i ==> ((#[trigger] r@[k]) is Some <==> self.edges()[k].1 == id as int),
                forall|k: int|
                    0 <= k < i && (#[trigger] r@[k]) is Some ==> r@[k]->Some_0 as int == self.edges()[k].0,
            decreases self.edges@.len() - i,
        {
            let e = self.edges[i];
            if e.passive == id {
                r.push(Some(e.active));
            } else {
                r.push(None);
            }
            i = i + 1;
        }
        proof {
            assert forall|k: int|
                0 <= k < self.edges().len() && self.edges()[k].1 == id implies self.user_exists(
                    #[trigger] self.edges()[k].0,
                ) && self.edges()[k].0 != id by {
                let e = self.edges@[k];
            }
        }
        r
    }

    /// The users whom `id` has sent a request to, as a set for quick lookup.
    pub fn get_applied_record(&self, id: i32) -> (r: HashSet<i32>)
        requires
            self.wf(),
        ensures
            forall|x: i32| r@.contains(x) <==> self.edge_exists(id as int, x as int),
    {
        broadcast use vstd::std_specs::hash::group_hash_axioms;

        let mut r: HashSet<i32> = HashSet::new();
        let mut i: usize = 0;
        while i < self.edges.len()
            invariant
                self.wf(),
                i <= self.edges@.len(),
                forall|x: i32| r@.contains(x) <==> self.edges().take(i as int).contains((id as int, x as int)),
            decreases self.edges@.len() - i,
        {
            let e = self.edges[i];
            proof {
                let es = self.edges();
                let a = es.take(i as int);
                let b = es.take(i as int + 1);
                assert forall|p: (int, int)| b.contains(p) <==> a.contains(p) || p == edge_of(e) by {
                    if a.contains(p) {
                        let k = choose|k: int| 0 <= k < a.len() && a[k] == p;
                        assert(b[k] == p);
                    }
                    if p == edge_of(e) {
                        assert(b[i as int] == p);
                    }
                    if b.contains(p) && p != edge_of(e) {
                        let k = choose|k: int| 0 <= k < b.len() && b[k] == p;
                        assert(a[k] == p);
                    }
                }
            }
            if e.active == id {
                r.insert(e.passive);
            }
            i = i + 1;
        }
        proof {
            assert(self.edges().take(self.edges@.len() as int) =~= self.edges());
        }
        r
    }

    /// Registers a user under the next free id and returns that id.
    pub fn insert_user(&mut self, user_name: String, icon_path: String, hashed_password: String) -> (id: i32)
        requires
            old(self).wf(),
            old(self).num_users() < i32::MAX,
        ensures
            final(self).wf(),
            id == old(self).num_users(),
            final(self).num_users() == old(self).num_users() + 1,
            final(self).user(id as int) == (User { id, user_name, icon_path, hashed_password }),
            final(self).beacon(id as int) == None::<Spot>,
            forall|i: int| 0 <= i < old(self).num_users() ==> #[trigger] final(self).user(i) == old(self).user(i),
            forall|i: int| 0 <= i < old(self).num_users() ==> #[trigger] final(self).beacon(i) == old(self).beacon(i),
            final(self).edges() == old(self).edges(),
            final(self).spots() == old(self).spots(),
    {
        let id = self.users.len() as i32;
        self.users.push(User { id, user_name, icon_path, hashed_password });
        self.beacons.push(None);
        id
    }

    /// What others may see of the user with id `id`.
    pub fn user_view(&self, id: i32) -> (v: UserView)
        requires
            self.wf(),
            self.user_exists(id as int),
        ensures
            v.id == id,
            v.name == self.user(id as int).user_name,
            v.icon_path == self.user(id as int).icon_path,
    {
        let u = &self.users[id as usize];
        UserView { id, name: u.user_name.clone(), icon_path: u.icon_path.clone() }
    }

    /// Registers a beacon spot; a spot already registered is left as it is.
    pub fn add_spot(&mut self, spot: Spot)
        requires
            old(self).wf(),
        ensures
            final(self).wf(),
            final(self).spots().contains(spot),
            forall|x: Spot| #[trigger] final(self).spots().contains(x) <==> (old(self).spots().contains(x) || x == spot),
            final(self).num_users() == old(self).num_users(),
            forall|i: int| #[trigger] final(self).user(i) == old(self).user(i),
            forall|i: int| #[trigger] final(self).beacon(i) == old(self).beacon(i),
            final(self).edges() == old(self).edges(),
    {
        if !self.is_spot(spot) {
            self.spots.push(spot);
            proof {
                assert(self.spots@.last() == spot);
                assert forall|x: Spot| #[trigger] self.spots().contains(x) <==> (old(self).spots().contains(x) || x == spot) by {
                    if old(self).spots().contains(x) {
                        let k = choose|k: int| 0 <= k < old(self).spots@.len() && old(self).spots@[k] == x;
                        assert(self.spots@[k] == x);
                    }
                    if self.spots().contains(x) && x != spot {
                        let k = choose|k: int| 0 <= k < self.spots@.len() && self.spots@[k] == x;
                        assert(old(self).spots@[k] == x);
                    }
                }
            }
        }
    }

    /// Whether `spot` is registered.
    pub fn is_spot(&self, spot: Spot) -> (r: bool)
        ensures
            r == self.spots().contains(spot),
    {
        let mut i: usize = 0;
        while i < self.spots.len()
            invariant
                i <= self.spots@.len(),
                forall|k: int| 0 <= k < i ==> self.spots@[k] != spot,
            decreases self.spots@.len() - i,
        {
            if self.spots[i] == spot {
                proof {
                    assert(self.spots@[i as int] == spot);
                }
                return true;
            }
            i = i + 1;
        }
        false
    }

    /// Records where the user with id `id` was last seen.
    pub fn set_beacon(&mut self, id: i32, beacon: Option<Spot>)
        requires
            old(self).wf(),
            old(self).user_exists(id as int),
        ensures
            final(self).wf(),
            final(self).beacon(id as int) == beacon,
            forall|i: int| 0 <= i < old(self).num_users() && i != id ==> #[trigger] final(self).beacon(i) == old(self).beacon(i),
            final(self).num_users() == old(self).num_users(),
            forall|i: int| #[trigger] final(self).user(i) == old(self).user(i),
            final(self).edges() == old(self).edges(),
            final(self).spots() == old(self).spots(),
    {
        self.beacons.set(id as usize, beacon);
    }

    /// Records the edge `e`; an edge already present is left as it is.
    pub fn insert_friend(&mut self, e: AddFriend)
        requires
            old(self).wf(),
            e.active != e.passive,
            old(self).user_exists(e.active as int),
            old(self).user_exists(e.passive as int),
        ensures
            final(self).wf(),
            final(self).edges() == if old(self).edge_exists(e.active as int, e.passive as int) {
                old(self).edges()
            } else {
                old(self).edges().push(edge_of(e))
            },
            same_people(old(self), final(self)),
    {
        if self.has_edge(e.active, e.passive) {
            return;
        }
        self.edges.push(e);
        proof {
            assert(edge_views(self.edges@)
                =~= old(self).edges@.map_values(|e: AddFriend| edge_of(e)).push(edge_of(e)));
        }
    }

    /// Removes the edge from `active` to `passive`; removing an absent edge changes nothing.
    pub fn delete_friend(&mut self, active: i32, passive: i32)
        requires
            old(self).wf(),
        ensures
            final(self).wf(),
            final(self).edges() == old(self).edges().filter(
                |p: (int, int)| p != (active as int, passive as int),
            ),
            same_people(old(self), final(self)),
    {
        let ghost target = (active as int, passive as int);
        let ghost keep = |p: (int, int)| p != target;
        let mut kept: Vec<AddFriend> = Vec::new();
        let mut i: usize = 0;
        while i < self.edges.len()
            invariant
                self.wf(),
                *self == *old(self),
                i <= self.edges@.len(),
                target == (active as int, passive as int),
                keep == (|p: (int, int)| p != target),
                edge_views(kept@) == self.edges().take(i as int).filter(keep),
                forall|k: int|
                    0 <= k < kept@.len() ==> {
                        let e = #[trigger] kept@[k];
                        &&& e.active != e.passive
                        &&& 0 <= e.active < self.users@.len()
                        &&& 0 <= e.passive < self.users@.len()
                    },
            decreases self.edges@.len() - i,
        {
            let e = self.edges[i];
            proof {
                lemma_filter_step(self.edges(), i as int, keep);
            }
            if !(e.active == active && e.passive == passive) {
                let ghost before = kept@;
                kept.push(e);
                proof {
                    assert(edge_views(kept@) =~= edge_views(before).push(edge_of(e)));
                }
            }
            i = i + 1;
        }
        proof {
            assert(self.edges().take(self.edges@.len() as int) =~= self.edges());
        }
        self.edges = kept;
    }
}

} // verus!
