use vstd::prelude::*;
use crate::store::Store;
use crate::types::{NameAndPassword, Spot, User, UserView};

verus! {

/// The minor number a beacon reports when its user leaves the region.
pub const EXIT_MINOR: i32 = -1;

/// Registers a user with the given name and hashed password and no icon.
pub fn create_user(store: &mut Store, credential: NameAndPassword) -> (v: UserView)
    requires
        old(store).wf(),
        old(store).num_users() < i32::MAX,
    ensures
        final(store).wf(),
        v.id == old(store).num_users(),
        v.name == credential.name,
        v.icon_path@ == Seq::<char>::empty(),
        final(store).num_users() == old(store).num_users() + 1,
        final(store).user(v.id as int) == (User {
            id: v.id,
            user_name: credential.name,
            icon_path: v.icon_path,
            hashed_password: credential.hashed_password,
        }),
        final(store).beacon(v.id as int) == None::<Spot>,
        forall|i: int| 0 <= i < old(store).num_users() ==> #[trigger] final(store).user(i) == old(store).user(i),
        forall|i: int| 0 <= i < old(store).num_users() ==> #[trigger] final(store).beacon(i) == old(store).beacon(i),
        final(store).edges() == old(store).edges(),
        final(store).spots() == old(store).spots(),
{
    let name = credential.name.clone();
    let icon_path = String::new();
    let id = store.insert_user(credential.name, icon_path.clone(), credential.hashed_password);
    UserView { id, name, icon_path }
}

/// Where a report of beacon `(major_id, minor_id)` puts a user: nowhere for the
/// exit signal, the spot when it is registered, and `None` when the report is
/// not understood.
pub open spec fn beacon_outcome(s: &Store, major_id: i32, minor_id: i32) -> Option<Option<Spot>> {
    if minor_id == EXIT_MINOR {
        Some(None)
    } else if s.spots().contains(Spot { major: major_id, minor: minor_id }) {
        Some(Some(Spot { major: major_id, minor: minor_id }))
    } else {
        None
    }
}

/// Records the beacon a user reported. Succeeds for an existing user who
/// reports a registered spot, or leaves the region; otherwise nothing changes.
pub fn update_beacon(store: &mut Store, user_id: i32, major_id: i32, minor_id: i32) -> (r: bool)
    requires
        old(store).wf(),
    ensures
        final(store).wf(),
        r == (old(store).user_exists(user_id as int) && beacon_outcome(old(store), major_id, minor_id) is Some),
        !r ==> *final(store) == *old(store),
        r ==> final(store).beacon(user_id as int) == beacon_outcome(old(store), major_id, minor_id)->Some_0,
        forall|i: int|
            0 <= i < old(store).num_users() && i != user_id ==> #[trigger] final(store).beacon(i) == old(store).beacon(i),
        final(store).num_users() == old(store).num_users(),
        forall|i: int| #[trigger] final(store).user(i) == old(store).user(i),
        final(store).edges() == old(store).edges(),
        final(store).spots() == old(store).spots(),
{
    if !store.is_exist_id(user_id) {
        return false;
    }
    if minor_id == EXIT_MINOR {
        store.set_beacon(user_id, None);
        return true;
    }
    let spot = Spot { major: major_id, minor: minor_id };
    if !store.is_spot(spot) {
        return false;
    }
    store.set_beacon(user_id, Some(spot));
    true
}

} // verus!
