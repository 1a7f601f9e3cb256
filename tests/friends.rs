use flat_friends::friends::{add_friend, add_friend_by_code, get_friend_list, reject_friend, search_user};
use flat_friends::store::Store;
use flat_friends::types::{AddFriend, CodePair, FriendList, IdAndName, IdPair, NameAndPassword, SomeError, UserView};
use flat_friends::users::create_user;

fn user(store: &mut Store, name: &str) -> UserView {
    create_user(
        store,
        NameAndPassword { name: name.to_string(), hashed_password: "".to_string() },
    )
}

fn pair(a: i32, b: i32) -> IdPair {
    IdPair { my_id: a, target_id: b }
}

#[test]
fn t_add_friend() {
    let mut store = Store::new();
    user(&mut store, "first");
    user(&mut store, "second");

    assert_eq!(
        add_friend_by_code(
            &mut store,
            &CodePair { my_id: "000000".to_string(), target_id: "000001".to_string() }
        )
        .is_ok(),
        true
    );
    assert_eq!(
        add_friend_by_code(
            &mut store,
            &CodePair { my_id: "000000".to_string(), target_id: "000000".to_string() }
        )
        .is_ok(),
        false
    );
    assert_eq!(
        add_friend_by_code(
            &mut store,
            &CodePair { my_id: "000000".to_string(), target_id: "000002".to_string() }
        )
        .is_ok(),
        false
    );
    assert_eq!(
        add_friend_by_code(
            &mut store,
            &CodePair { my_id: "abcdef".to_string(), target_id: "000000".to_string() }
        )
        .is_ok(),
        false
    );
    assert_eq!(
        add_friend_by_code(
            &mut store,
            &CodePair { my_id: "12345".to_string(), target_id: "000000".to_string() }
        )
        .is_ok(),
        false
    );
}

#[test]
fn test_requested_and_applied() {
    let mut store = Store::new();
    let uv1 = user(&mut store, "test1");
    let uv2 = user(&mut store, "test2");
    let uv3 = user(&mut store, "test3");
    println!("uv1.id {:#?}", uv1.id);
    println!("uv2.id {:#?}", uv2.id);
    println!("uv3.id {:#?}", uv3.id);
    store.insert_friend(AddFriend { active: uv1.id, passive: uv2.id });
    store.insert_friend(AddFriend { active: uv2.id, passive: uv1.id });
    store.insert_friend(AddFriend { active: uv3.id, passive: uv1.id });
    let result = get_friend_list(&store, uv1.id);
    assert_eq!(result, FriendList { one_side: vec![uv3], mutual: vec![uv2] });
}

#[test]
fn code_errors_are_told_apart() {
    let mut store = Store::new();
    user(&mut store, "first");
    user(&mut store, "second");
    let code = |a: &str, b: &str| CodePair { my_id: a.to_string(), target_id: b.to_string() };
    assert_eq!(add_friend_by_code(&mut store, &code("000000", "000001")), Ok(()));
    assert_eq!(add_friend_by_code(&mut store, &code("000001", "000001")), Err(SomeError::SameIdError));
    assert_eq!(add_friend_by_code(&mut store, &code("000000", "000002")), Err(SomeError::NotExistError));
    assert_eq!(add_friend_by_code(&mut store, &code("abcdef", "000000")), Err(SomeError::ValidationError));
    assert_eq!(add_friend_by_code(&mut store, &code("12345", "000000")), Err(SomeError::ValidationError));
    assert_eq!(add_friend_by_code(&mut store, &code("x000001", "000000")), Err(SomeError::ValidationError));
    assert!(store.has_edge(0, 1));
    assert!(!store.has_edge(1, 0));
}

#[test]
fn add_between_existing_users_records_one_direction() {
    let mut store = Store::new();
    let a = user(&mut store, "alice");
    let b = user(&mut store, "bob");
    assert_eq!(add_friend(&mut store, pair(a.id, b.id)), Ok(()));
    assert!(store.has_edge(a.id, b.id));
    assert!(!store.has_edge(b.id, a.id));
    assert_eq!(store.get_friends_relation(a.id, b.id), (true, false));
}

#[test]
fn add_twice_is_accepted_once_recorded() {
    let mut store = Store::new();
    let a = user(&mut store, "alice");
    let b = user(&mut store, "bob");
    assert_eq!(add_friend(&mut store, pair(a.id, b.id)), Ok(()));
    assert_eq!(add_friend(&mut store, pair(a.id, b.id)), Ok(()));
    assert_eq!(reject_friend(&mut store, pair(a.id, b.id)), Ok(()));
    assert!(!store.has_edge(a.id, b.id));
}

#[test]
fn self_request_is_refused() {
    let mut store = Store::new();
    for name in ["u0", "u1", "u2", "u3", "u4", "u5"] {
        user(&mut store, name);
    }
    assert_eq!(add_friend(&mut store, pair(5, 5)), Err(SomeError::SameIdError));
    assert!(!store.has_edge(5, 5));
    let list = get_friend_list(&store, 5);
    assert!(list.mutual.is_empty() && list.one_side.is_empty());
}

#[test]
fn request_to_missing_user_is_refused() {
    let mut store = Store::new();
    let a = user(&mut store, "alice");
    assert_eq!(add_friend(&mut store, pair(a.id, 7)), Err(SomeError::NotExistError));
    assert_eq!(add_friend(&mut store, pair(-1, a.id)), Err(SomeError::NotExistError));
    assert_eq!(reject_friend(&mut store, pair(a.id, 7)), Err(SomeError::NotExistError));
    assert_eq!(reject_friend(&mut store, pair(a.id, a.id)), Err(SomeError::SameIdError));
    assert!(!store.has_edge(a.id, 7));
}

#[test]
fn reject_twice_succeeds_and_keeps_reverse() {
    let mut store = Store::new();
    let a = user(&mut store, "alice");
    let b = user(&mut store, "bob");
    assert_eq!(add_friend(&mut store, pair(a.id, b.id)), Ok(()));
    assert_eq!(add_friend(&mut store, pair(b.id, a.id)), Ok(()));
    assert_eq!(reject_friend(&mut store, pair(a.id, b.id)), Ok(()));
    assert_eq!(reject_friend(&mut store, pair(a.id, b.id)), Ok(()));
    assert!(!store.has_edge(a.id, b.id));
    assert!(store.has_edge(b.id, a.id));
}

#[test]
fn mutual_pair_lists_each_other() {
    let mut store = Store::new();
    let a = user(&mut store, "alice");
    let b = user(&mut store, "bob");
    assert_eq!(add_friend(&mut store, pair(a.id, b.id)), Ok(()));
    assert_eq!(add_friend(&mut store, pair(b.id, a.id)), Ok(()));
    let la = get_friend_list(&store, a.id);
    let lb = get_friend_list(&store, b.id);
    assert_eq!(la.mutual, vec![b.clone()]);
    assert!(la.one_side.is_empty());
    assert_eq!(lb.mutual, vec![a]);
    assert!(lb.one_side.is_empty());
}

#[test]
fn one_sided_request_is_listed_for_receiver_only() {
    let mut store = Store::new();
    let a = user(&mut store, "alice");
    let c = user(&mut store, "carol");
    assert_eq!(add_friend(&mut store, pair(c.id, a.id)), Ok(()));
    let la = get_friend_list(&store, a.id);
    assert_eq!(la.one_side, vec![c.clone()]);
    assert!(la.mutual.is_empty());
    let lc = get_friend_list(&store, c.id);
    assert!(lc.one_side.is_empty() && lc.mutual.is_empty());
}

#[test]
fn friend_list_of_three_users() {
    let mut store = Store::new();
    let u1 = user(&mut store, "one");
    let u2 = user(&mut store, "two");
    let u3 = user(&mut store, "three");
    assert_eq!(add_friend(&mut store, pair(u1.id, u2.id)), Ok(()));
    assert_eq!(add_friend(&mut store, pair(u2.id, u1.id)), Ok(()));
    assert_eq!(add_friend(&mut store, pair(u3.id, u1.id)), Ok(()));
    let list = get_friend_list(&store, u1.id);
    let mutual: Vec<i32> = list.mutual.iter().map(|v| v.id).collect();
    let one_side: Vec<i32> = list.one_side.iter().map(|v| v.id).collect();
    assert_eq!(mutual, vec![u2.id]);
    assert_eq!(one_side, vec![u3.id]);
    assert_eq!(list.mutual[0].name, "two");
}

#[test]
fn search_hides_self_and_mutual_friends() {
    let mut store = Store::new();
    let r = user(&mut store, "taro");
    let m = user(&mut store, "taro mutual");
    let p = user(&mut store, "taro pending");
    let q = user(&mut store, "taro asked");
    let o = user(&mut store, "hanako");
    assert_eq!(add_friend(&mut store, pair(r.id, m.id)), Ok(()));
    assert_eq!(add_friend(&mut store, pair(m.id, r.id)), Ok(()));
    assert_eq!(add_friend(&mut store, pair(r.id, p.id)), Ok(()));
    assert_eq!(add_friend(&mut store, pair(q.id, r.id)), Ok(()));
    let hits = search_user(&store, IdAndName { my_id: r.id, target_name: "taro".to_string() }).unwrap();
    let ids: Vec<i32> = hits.iter().map(|h| h.id).collect();
    assert_eq!(ids, vec![p.id, q.id]);
    assert!(hits[0].applied && !hits[0].requested);
    assert!(!hits[1].applied && hits[1].requested);
    assert_eq!(hits[0].name, "taro pending");
    assert!(!ids.contains(&o.id));
}

#[test]
fn search_matches_inner_substring() {
    let mut store = Store::new();
    let r = user(&mut store, "searcher");
    let a = user(&mut store, "abcde");
    user(&mut store, "xyz");
    let hits = search_user(&store, IdAndName { my_id: r.id, target_name: "bcd".to_string() }).unwrap();
    assert_eq!(hits.len(), 1);
    assert_eq!(hits[0].id, a.id);
    assert!(!hits[0].applied && !hits[0].requested);
    let none = search_user(&store, IdAndName { my_id: r.id, target_name: "bd".to_string() }).unwrap();
    assert!(none.is_empty());
}

#[test]
fn search_by_missing_user_fails() {
    let mut store = Store::new();
    user(&mut store, "only");
    let r = search_user(&store, IdAndName { my_id: 3, target_name: "o".to_string() });
    assert_eq!(r.map(|v| v.len()), Err(SomeError::NotExistError));
}

#[test]
fn errors_map_to_status_and_text() {
    assert_eq!(SomeError::ValidationError.status_code(), 500);
    assert_eq!(SomeError::NotExistError.status_code(), 500);
    assert_eq!(SomeError::ValidationError.message(), "something went wrong");
    assert_eq!(SomeError::NotExistError.message(), "something else went wrong");
    assert_eq!(SomeError::SameIdError.message(), "something else went wrong");
}
