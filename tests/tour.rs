use stamp_tour::records::{Stamp, StampHistory, StampRecords, StampUserInfo, User, UserList, UserName};
use stamp_tour::table::Table;
use stamp_tour::tour::{
    stamp_db, stamp_history, user_registration, AdminReply, StampService, TourError,
};

fn stamp(id: &str) -> Stamp {
    Stamp {
        stamp_id: id.to_string(),
        stamp_location: format!("location {}", id),
        stamp_name: format!("name {}", id),
        stamp_desc: format!("about {}", id),
    }
}

fn service_with(ids: &[&str]) -> StampService {
    let stamps: Vec<Stamp> = ids.iter().map(|i| stamp(i)).collect();
    StampService::start(stamp_db(stamps), None, None)
}

fn login(service: &mut StampService, name: &str) -> String {
    let user = service
        .handle_login(UserName { user_name: name.to_string() })
        .expect("registration draws a fresh id");
    user.user_id
}

fn records_of(service: &StampService, id: &str) -> usize {
    match service.history().get(&id.to_string()) {
        Some(r) => r.len(),
        None => 0,
    }
}

#[test]
fn redeem_without_check_is_unauthorized() {
    let mut service = service_with(&["a1"]);
    let id = login(&mut service, "Ada");
    let r = service.redeem(Some(&id));
    assert!(matches!(r, Err(TourError::Unauthorized)));
    assert!(matches!(service.redeem(None), Err(TourError::Unauthorized)));
    assert_eq!(records_of(&service, "a1"), 0);
}

#[test]
fn check_then_redeem_appends_one_record() {
    let mut service = service_with(&["a1", "b2"]);
    let id = login(&mut service, "Ada");
    service.handle_check(Some(&id), &"a1".to_string());
    let r = service.redeem(Some(&id)).expect("one visit is pending");
    assert_eq!(r.stamp_id, "a1");
    assert_eq!(r.record.user_id, id);
    assert_eq!(r.record.user_name, "Ada");
    assert!(!r.record.timestamp.is_empty());
    assert_eq!(records_of(&service, "a1"), 1);
    assert_eq!(records_of(&service, "b2"), 0);
    assert!(matches!(service.redeem(Some(&id)), Err(TourError::Unauthorized)));
    assert_eq!(records_of(&service, "a1"), 1);
}

#[test]
fn last_check_wins() {
    let mut service = service_with(&["a1", "b2"]);
    let id = login(&mut service, "Ada");
    service.handle_check(Some(&id), &"a1".to_string());
    service.handle_check(Some(&id), &"b2".to_string());
    let r = service.redeem(Some(&id)).expect("one visit is pending");
    assert_eq!(r.stamp_id, "b2");
    assert_eq!(records_of(&service, "a1"), 0);
    assert_eq!(records_of(&service, "b2"), 1);
}

#[test]
fn two_redeems_after_one_check_succeed_once() {
    let mut service = service_with(&["a1"]);
    let id = login(&mut service, "Ada");
    service.handle_check(Some(&id), &"a1".to_string());
    let first = service.redeem(Some(&id));
    let second = service.redeem(Some(&id));
    let oks = [&first, &second].iter().filter(|r| r.is_ok()).count();
    assert_eq!(oks, 1);
    assert!(matches!(second, Err(TourError::Unauthorized)));
    assert_eq!(records_of(&service, "a1"), 1);
}

#[test]
fn check_is_silent_on_unknown_session_or_checkpoint() {
    let mut service = service_with(&["a1"]);
    let id = login(&mut service, "Ada");
    service.handle_check(Some(&"stranger".to_string()), &"a1".to_string());
    service.handle_check(None, &"a1".to_string());
    service.handle_check(Some(&id), &"zz".to_string());
    assert!(service.pending_for(&id).is_none());
    assert!(service.pending_for(&"stranger".to_string()).is_none());
    assert!(matches!(service.redeem(Some(&id)), Err(TourError::Unauthorized)));
}

#[test]
fn empty_checkpoint_id_is_not_found() {
    let mut service = service_with(&[""]);
    let id = login(&mut service, "Ada");
    service.handle_check(Some(&id), &"".to_string());
    assert!(matches!(service.redeem(Some(&id)), Err(TourError::NotFound)));
    assert_eq!(records_of(&service, ""), 1);
    assert!(matches!(service.redeem(Some(&id)), Err(TourError::Unauthorized)));
}

#[test]
fn redeem_at_keeps_the_timestamp() {
    let mut service = service_with(&["a1"]);
    let id = login(&mut service, "Grace");
    service.handle_check(Some(&id), &"a1".to_string());
    let r = service
        .redeem_at(Some(&id), "2024-05-01 10:00:00 UTC".to_string())
        .expect("one visit is pending");
    assert_eq!(r.record.timestamp, "2024-05-01 10:00:00 UTC");
    let recs = service.history().get(&"a1".to_string()).unwrap();
    assert_eq!(recs.records[0].timestamp, "2024-05-01 10:00:00 UTC");
    assert_eq!(recs.records[0].user_name, "Grace");
}

#[test]
fn registration_keeps_name_and_gives_distinct_ids() {
    let mut service = service_with(&[]);
    let a = service.handle_login(UserName { user_name: "Ada".to_string() }).unwrap();
    let b = service.handle_login(UserName { user_name: "Ada".to_string() }).unwrap();
    assert_eq!(a.user_name, "Ada");
    assert_eq!(b.user_name, "Ada");
    assert!(!a.user_id.is_empty());
    assert_ne!(a.user_id, b.user_id);
    assert_eq!(service.users().get(&a.user_id).unwrap(), "Ada");
    assert_eq!(service.users().get(&b.user_id).unwrap(), "Ada");
}

#[test]
fn user_registration_draws_fresh_ids() {
    let a = user_registration(UserName { user_name: "Ada".to_string() });
    let b = user_registration(UserName { user_name: "Ada".to_string() });
    assert_eq!(a.user_name, "Ada");
    assert_eq!(a.user_id.len(), 36);
    assert_ne!(a.user_id, b.user_id);
}

#[test]
fn register_refuses_a_taken_id() {
    let mut service = service_with(&[]);
    let u = User { user_name: "Ada".to_string(), user_id: "u1".to_string() };
    assert!(service.register(&u));
    let v = User { user_name: "Bob".to_string(), user_id: "u1".to_string() };
    assert!(!service.register(&v));
    assert_eq!(service.users().get(&"u1".to_string()).unwrap(), "Ada");
}

#[test]
fn admin_save_all_from_loopback_snapshots_both_tables() {
    let mut service = service_with(&["a1"]);
    let id = login(&mut service, "Ada");
    service.handle_check(Some(&id), &"a1".to_string());
    service.redeem(Some(&id)).unwrap();
    match service.handle_admin(&"save all".to_string(), true) {
        Ok(AdminReply::SaveAll(users, history)) => {
            assert_eq!(users.pairs().len(), 1);
            assert_eq!(users.get(&id).unwrap(), "Ada");
            assert_eq!(history.get(&"a1".to_string()).unwrap().len(), 1);
            assert_eq!(history.get(&"a1".to_string()).unwrap().records[0].user_id, id);
        },
        _ => panic!("save all from loopback hands out both tables"),
    }
}

#[test]
fn admin_status_and_unknown_commands() {
    let service = service_with(&["a1"]);
    match service.handle_admin(&"stamp status".to_string(), true) {
        Ok(AdminReply::Status(history)) => {
            assert_eq!(history.pairs().len(), 1);
            assert_eq!(history.get(&"a1".to_string()).unwrap().len(), 0);
        },
        _ => panic!("stamp status hands out the history"),
    }
    assert!(matches!(service.handle_admin(&"dance".to_string(), true), Ok(AdminReply::Unrecognized)));
}

#[test]
fn admin_from_elsewhere_is_unauthorized() {
    let service = service_with(&["a1"]);
    assert!(matches!(service.handle_admin(&"save all".to_string(), false), Err(TourError::Unauthorized)));
    assert!(matches!(service.handle_admin(&"stamp status".to_string(), false), Err(TourError::Unauthorized)));
}

#[test]
fn stored_history_reloads_equal() {
    let mut service = service_with(&["a1", "b2"]);
    let id = login(&mut service, "Ada");
    service.handle_check(Some(&id), &"b2".to_string());
    service.redeem_at(Some(&id), "t0".to_string()).unwrap();
    let (users, history): (UserList, StampHistory) = match service.handle_admin(&"save all".to_string(), true) {
        Ok(AdminReply::SaveAll(u, h)) => (u, h),
        _ => panic!("save all from loopback hands out both tables"),
    };
    let mut pairs: Vec<(String, StampRecords)> = history.pairs().iter().map(|(k, v)| (k.clone(), v.clone())).collect();
    pairs.reverse();
    let user_pairs: Vec<(String, String)> = users.pairs().clone();
    let catalog = stamp_db(vec![stamp("a1"), stamp("b2")]);
    let reloaded = StampService::start(catalog, Some(Table::from_pairs(user_pairs)), Some(Table::from_pairs(pairs)));
    let recs = reloaded.history().get(&"b2".to_string()).unwrap();
    assert_eq!(recs.len(), 1);
    assert_eq!(recs.records[0].user_id, id);
    assert_eq!(recs.records[0].timestamp, "t0");
    assert_eq!(reloaded.history().get(&"a1".to_string()).unwrap().len(), 0);
    assert_eq!(reloaded.users().get(&id).unwrap(), "Ada");
}

#[test]
fn from_pairs_last_pair_wins() {
    let t: Table<String> = Table::from_pairs(vec![
        ("k".to_string(), "first".to_string()),
        ("j".to_string(), "other".to_string()),
        ("k".to_string(), "second".to_string()),
    ]);
    assert_eq!(t.pairs().len(), 2);
    assert_eq!(t.get(&"k".to_string()).unwrap(), "second");
    assert_eq!(t.get(&"j".to_string()).unwrap(), "other");
}

#[test]
fn table_insert_get_remove() {
    let mut t: Table<String> = Table::new();
    t.insert("a".to_string(), "1".to_string());
    t.insert("b".to_string(), "2".to_string());
    t.insert("a".to_string(), "3".to_string());
    assert_eq!(t.pairs().len(), 2);
    assert!(t.contains_key(&"a".to_string()));
    assert_eq!(t.remove(&"a".to_string()), Some("3".to_string()));
    assert_eq!(t.remove(&"a".to_string()), None);
    assert!(!t.contains_key(&"a".to_string()));
    assert_eq!(t.get(&"b".to_string()).unwrap(), "2");
}

#[test]
fn stamp_db_keys_by_id_and_last_wins() {
    let mut late = stamp("a1");
    late.stamp_name = "late".to_string();
    let catalog = stamp_db(vec![stamp("a1"), stamp("b2"), late]);
    assert_eq!(catalog.pairs().len(), 2);
    assert_eq!(catalog.get(&"a1".to_string()).unwrap().stamp_name, "late");
    assert_eq!(catalog.get(&"b2".to_string()).unwrap().stamp_location, "location b2");
}

#[test]
fn stamp_history_starts_empty_for_each_checkpoint() {
    let catalog = stamp_db(vec![stamp("a1"), stamp("b2")]);
    let h = stamp_history(catalog);
    assert_eq!(h.pairs().len(), 2);
    assert_eq!(h.get(&"a1".to_string()).unwrap().len(), 0);
    assert_eq!(h.get(&"b2".to_string()).unwrap().len(), 0);
    assert!(h.get(&"c3".to_string()).is_none());
}

#[test]
fn records_push_keeps_order() {
    let mut r = StampRecords::new();
    for n in ["x", "y"] {
        r.push(StampUserInfo { user_name: n.to_string(), user_id: n.to_string(), timestamp: "t".to_string() });
    }
    assert_eq!(r.len(), 2);
    assert_eq!(r.records[0].user_name, "x");
    assert_eq!(r.records[1].user_name, "y");
}

#[test]
fn start_drops_stored_history_outside_the_catalog() {
    let mut old = StampRecords::new();
    old.push(StampUserInfo { user_name: "Ada".to_string(), user_id: "u1".to_string(), timestamp: "t".to_string() });
    let stored: StampHistory = Table::from_pairs(vec![
        ("gone".to_string(), old.clone()),
        ("a1".to_string(), old),
    ]);
    let service = StampService::start(stamp_db(vec![stamp("a1")]), None, Some(stored));
    assert!(service.history().get(&"gone".to_string()).is_none());
    assert_eq!(service.history().get(&"a1".to_string()).unwrap().len(), 1);
    assert_eq!(service.history().pairs().len(), 1);
}

#[test]
fn first_registration_always_succeeds_with_uuid_shaped_id() {
    let mut service = service_with(&["a1"]);
    let u = service.handle_login(UserName { user_name: "Ada".to_string() }).expect("empty directory");
    assert_eq!(u.user_id.len(), 36);
    for (i, c) in u.user_id.chars().enumerate() {
        if i == 8 || i == 13 || i == 18 || i == 23 {
            assert_eq!(c, '-');
        } else {
            assert!(c.is_ascii_digit() || ('a'..='f').contains(&c));
        }
    }
    assert_eq!(service.users().pairs().len(), 1);
}
