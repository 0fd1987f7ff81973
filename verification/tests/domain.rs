use group_chat::errors::ApiError;
use group_chat::laws::{duplicate_registration_is_existed_resource, forbidden_send_writes_nothing};
use group_chat::respond::StatusClass;
use group_chat::store::{MembershipStatus, Store};

#[test]
fn register_assigns_ids_and_rejects_taken_names() {
    let mut s = Store::new();
    let u = s.register_user("alice".to_string()).unwrap();
    assert_eq!(u.id, 0);
    assert_eq!(u.name, "alice");
    let e = s.register_user("alice".to_string());
    match e {
        Err(ApiError::ExistedResource(d)) => assert_eq!(d, "alice"),
        other => panic!("expected ExistedResource, got {:?}", other),
    }
    let v = s.register_user("bob".to_string()).unwrap();
    assert_eq!(v.id, 1);
}

#[test]
fn owner_is_seated_and_capacity_one_sends_second_to_waiting() {
    let mut s = Store::new();
    let owner = s.register_user("alice".to_string()).unwrap();
    let g = s
        .create_group_with_user(owner.id, "book club".to_string(), 1, 1000, 50)
        .unwrap();
    assert_eq!(g.owner_id, owner.id);
    assert_eq!(g.max_member, 1);
    assert_eq!(g.created_at, 50);
    assert_eq!(g.expired_at, 1050);
    assert_eq!(s.count_joined(g.id), 1);
    let second = s.register_user("bob".to_string()).unwrap();
    let m = s.join_group(second.id, g.id).unwrap();
    assert!(matches!(m.status, MembershipStatus::Waiting));
    assert_eq!(s.count_joined(g.id), 1);
    assert_eq!(s.count_waiting(g.id), 1);
}

#[test]
fn joined_count_never_exceeds_capacity() {
    let mut s = Store::new();
    let owner = s.register_user("alice".to_string()).unwrap();
    let g = s
        .create_group_with_user(owner.id, "pair".to_string(), 2, 1000, 0)
        .unwrap();
    let names = ["bob", "carol", "dave", "erin"];
    let mut statuses = Vec::new();
    for name in names {
        let u = s.register_user(name.to_string()).unwrap();
        let m = s.join_group(u.id, g.id).unwrap();
        statuses.push(m.status);
        assert!(s.count_joined(g.id) <= 2);
    }
    assert!(matches!(statuses[0], MembershipStatus::Joined));
    assert!(matches!(statuses[1], MembershipStatus::Waiting));
    assert!(matches!(statuses[2], MembershipStatus::Waiting));
    assert!(matches!(statuses[3], MembershipStatus::Waiting));
    assert_eq!(s.count_joined(g.id), 2);
    assert_eq!(s.count_waiting(g.id), 3);
}

#[test]
fn second_join_fails_whatever_the_first_status_was() {
    let mut s = Store::new();
    let owner = s.register_user("alice".to_string()).unwrap();
    let g = s
        .create_group_with_user(owner.id, "duo".to_string(), 2, 1000, 0)
        .unwrap();
    let seated = s.register_user("bob".to_string()).unwrap();
    let m1 = s.join_group(seated.id, g.id).unwrap();
    assert!(matches!(m1.status, MembershipStatus::Joined));
    assert!(matches!(
        s.join_group(seated.id, g.id),
        Err(ApiError::AlreadyJoined)
    ));
    let waiting = s.register_user("carol".to_string()).unwrap();
    let m2 = s.join_group(waiting.id, g.id).unwrap();
    assert!(matches!(m2.status, MembershipStatus::Waiting));
    assert!(matches!(
        s.join_group(waiting.id, g.id),
        Err(ApiError::AlreadyJoined)
    ));
    assert_eq!(s.count_joined(g.id), 2);
}

#[test]
fn joining_a_missing_group_is_not_found() {
    let mut s = Store::new();
    let u = s.register_user("alice".to_string()).unwrap();
    assert!(matches!(
        s.join_group(u.id, 99),
        Err(ApiError::NotFound(_))
    ));
}

#[test]
fn send_message_from_non_member_is_forbidden_and_writes_nothing() {
    let mut s = Store::new();
    let owner = s.register_user("alice".to_string()).unwrap();
    let g = s
        .create_group_with_user(owner.id, "team".to_string(), 3, 1000, 0)
        .unwrap();
    let outsider = s.register_user("mallory".to_string()).unwrap();
    let r = s.send_message(
        outsider.id,
        g.id,
        Some("hi".to_string()),
        "text".to_string(),
        10,
    );
    assert!(matches!(r, Err(ApiError::Forbidden)));
    assert_eq!(s.list_latest_messages(g.id, 10).len(), 0);
    s.send_message(owner.id, g.id, Some("hello".to_string()), "text".to_string(), 11)
        .unwrap();
    let r2 = s.send_message(outsider.id, g.id, None, "text".to_string(), 12);
    assert!(matches!(r2, Err(ApiError::Forbidden)));
    assert_eq!(s.list_latest_messages(g.id, 10).len(), 1);
}

#[test]
fn a_waiting_member_cannot_post() {
    let mut s = Store::new();
    let owner = s.register_user("alice".to_string()).unwrap();
    let g = s
        .create_group_with_user(owner.id, "solo".to_string(), 1, 1000, 0)
        .unwrap();
    let waiting = s.register_user("bob".to_string()).unwrap();
    let m = s.join_group(waiting.id, g.id).unwrap();
    assert!(matches!(m.status, MembershipStatus::Waiting));
    let r = s.send_message(waiting.id, g.id, Some("hi".to_string()), "text".to_string(), 5);
    assert!(matches!(r, Err(ApiError::Forbidden)));
}

#[test]
fn latest_messages_are_bounded_and_ordered_newest_first() {
    let mut s = Store::new();
    let owner = s.register_user("alice".to_string()).unwrap();
    let g = s
        .create_group_with_user(owner.id, "log".to_string(), 3, 1000, 0)
        .unwrap();
    let bob = s.register_user("bob".to_string()).unwrap();
    s.join_group(bob.id, g.id).unwrap();
    s.send_message(owner.id, g.id, Some("first".to_string()), "text".to_string(), 10)
        .unwrap();
    s.send_message(bob.id, g.id, Some("second".to_string()), "text".to_string(), 20)
        .unwrap();
    s.send_message(owner.id, g.id, Some("third".to_string()), "text".to_string(), 30)
        .unwrap();
    s.send_message(owner.id, g.id, Some("fourth".to_string()), "text".to_string(), 40)
        .unwrap();

    let top2 = s.list_latest_messages(g.id, 2);
    assert_eq!(top2.len(), 2);
    assert_eq!(top2[0].created_at, 40);
    assert_eq!(top2[0].content.as_deref(), Some("fourth"));
    assert_eq!(top2[0].user_name, "alice");
    assert_eq!(top2[1].created_at, 30);
    assert!(top2[0].id > top2[1].id);

    let all = s.list_latest_messages(g.id, 10);
    assert_eq!(all.len(), 4);
    let stamps: Vec<i64> = all.iter().map(|m| m.created_at).collect();
    assert_eq!(stamps, vec![40, 30, 20, 10]);
    assert_eq!(all[2].user_name, "bob");

    // messages of another group never leak in
    let g2 = s
        .create_group_with_user(owner.id, "other".to_string(), 3, 1000, 0)
        .unwrap();
    s.send_message(owner.id, g2.id, Some("elsewhere".to_string()), "text".to_string(), 50)
        .unwrap();
    assert_eq!(s.list_latest_messages(g.id, 10).len(), 4);

    // a group with no messages yields an empty list, not an error
    let g3 = s
        .create_group_with_user(owner.id, "quiet".to_string(), 3, 1000, 0)
        .unwrap();
    assert_eq!(s.list_latest_messages(g3.id, 10).len(), 0);
}

#[test]
fn a_clock_that_steps_back_never_reorders_messages() {
    let mut s = Store::new();
    let owner = s.register_user("alice".to_string()).unwrap();
    let g = s
        .create_group_with_user(owner.id, "clock".to_string(), 3, 1000, 0)
        .unwrap();
    let first = s
        .send_message(owner.id, g.id, Some("a".to_string()), "text".to_string(), 50)
        .unwrap();
    assert_eq!(first.created_at, 50);
    let second = s
        .send_message(owner.id, g.id, Some("b".to_string()), "text".to_string(), 40)
        .unwrap();
    assert_eq!(second.created_at, 50);
    let all = s.list_latest_messages(g.id, 10);
    assert_eq!(all.len(), 2);
    assert!(all[0].created_at >= all[1].created_at);
    assert!(all[0].id > all[1].id);
    assert_eq!(all[0].content.as_deref(), Some("b"));
}

#[test]
fn list_groups_for_user_reports_status_per_group() {
    let mut s = Store::new();
    let alice = s.register_user("alice".to_string()).unwrap();
    let bob = s.register_user("bob".to_string()).unwrap();
    let g1 = s
        .create_group_with_user(alice.id, "alpha".to_string(), 2, 1000, 0)
        .unwrap();
    let g2 = s
        .create_group_with_user(bob.id, "beta".to_string(), 1, 1000, 0)
        .unwrap();
    let m = s.join_group(alice.id, g2.id).unwrap();
    assert!(matches!(m.status, MembershipStatus::Waiting));

    let groups = s.list_groups_for_user(alice.id);
    assert_eq!(groups.len(), 2);
    assert_eq!(groups[0].group_id, g1.id);
    assert_eq!(groups[0].group_name, "alpha");
    assert_eq!(groups[0].max_member, 2);
    assert!(matches!(groups[0].status, MembershipStatus::Joined));
    assert_eq!(groups[1].group_id, g2.id);
    assert_eq!(groups[1].group_name, "beta");
    assert!(matches!(groups[1].status, MembershipStatus::Waiting));

    assert_eq!(s.list_groups_for_user(bob.id).len(), 1);
}

#[test]
fn create_user_and_group_is_all_or_nothing() {
    let mut s = Store::new();
    let (u, g) = s
        .create_user_and_group("alice".to_string(), "club".to_string(), 2, 500, 100)
        .unwrap();
    assert_eq!(u.name, "alice");
    assert_eq!(g.name, "club");
    assert_eq!(g.owner_id, u.id);
    assert_eq!(g.created_at, 100);
    assert_eq!(g.expired_at, 600);
    assert_eq!(s.count_joined(g.id), 1);

    let before = s.list_groups_for_user(u.id).len();
    let e = s.create_user_and_group("alice".to_string(), "second club".to_string(), 2, 500, 100);
    match e {
        Err(ApiError::ExistedResource(d)) => assert_eq!(d, "alice"),
        other => panic!("expected ExistedResource, got {:?}", other),
    }
    assert_eq!(s.list_groups_for_user(u.id).len(), before);
    let next = s.register_user("bob".to_string()).unwrap();
    assert_eq!(next.id, u.id + 1);
}

#[test]
fn duplicate_registration_maps_to_bad_request_verbatim() {
    let mut s = Store::new();
    let r = duplicate_registration_is_existed_resource(
        &mut s,
        "alice".to_string(),
        "alice".to_string(),
    );
    assert_eq!(r.status, StatusClass::BadRequest);
    assert_eq!(r.message, "alice");
}

#[test]
fn forbidden_send_maps_to_forbidden_verbatim() {
    let mut s = Store::new();
    let owner = s.register_user("alice".to_string()).unwrap();
    let g = s
        .create_group_with_user(owner.id, "team".to_string(), 2, 100, 0)
        .unwrap();
    let outsider = s.register_user("eve".to_string()).unwrap();
    let r = forbidden_send_writes_nothing(
        &mut s,
        outsider.id,
        g.id,
        Some("hi".to_string()),
        "text".to_string(),
        5,
    );
    assert_eq!(r.status, StatusClass::Forbidden);
    assert_eq!(
        r.message,
        "The current user doesn't have permission to access the resource"
    );
    assert_eq!(s.list_latest_messages(g.id, 10).len(), 0);
}
