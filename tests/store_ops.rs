use media_tracker::records::{
    CreateMediaItemRequest, CreateRatingRequest, CreateUserActivityRequest, CreateUserRequest,
    UpdateUserRequest,
};
use media_tracker::store::{Database, StoreError};
use media_tracker::text::{same_text, text_at_most};

fn user_req(name: &str, email: &str) -> CreateUserRequest {
    CreateUserRequest { name: name.to_string(), email: email.to_string(), auth_provider: None }
}

fn media_req(title: &str, type_id: i32) -> CreateMediaItemRequest {
    CreateMediaItemRequest {
        title: title.to_string(),
        type_id,
        release_date: None,
        description: None,
        cover_url: None,
    }
}

fn activity_req(media_id: &str, status_id: i32, started_at: Option<&str>) -> CreateUserActivityRequest {
    CreateUserActivityRequest {
        media_id: media_id.to_string(),
        status_id,
        rating: None,
        review: None,
        started_at: started_at.map(|s| s.to_string()),
        finished_at: None,
        source_platform: None,
    }
}

fn seeded() -> Database {
    let mut db = Database::new();
    db.seed_sample_data().unwrap();
    db
}

#[test]
fn create_user_with_unused_email_gets_fresh_id() {
    let mut db = Database::new();
    let a = db.create_user(&user_req("A", "a@x.com")).unwrap();
    let b = db.create_user(&user_req("B", "b@x.com")).unwrap();
    assert_eq!(a.user_id.len(), 36);
    assert!(!a.user_id.is_empty());
    assert_ne!(a.user_id, b.user_id);
    assert_eq!(a.name, "A");
    assert_eq!(a.email, "a@x.com");
}

#[test]
fn second_user_with_same_email_conflicts() {
    let mut db = Database::new();
    db.create_user(&user_req("A", "a@x.com")).unwrap();
    let r = db.create_user(&user_req("Other", "a@x.com"));
    assert_eq!(r, Err(StoreError::DuplicateEmail));
    assert_eq!(db.get_all_users().len(), 1);
}

#[test]
fn insert_user_with_taken_id_is_refused() {
    let mut db = Database::new();
    db.insert_user("u1".to_string(), &user_req("A", "a@x.com")).unwrap();
    let r = db.insert_user("u1".to_string(), &user_req("B", "b@x.com"));
    assert_eq!(r, Err(StoreError::DuplicateId));
}

#[test]
fn fetch_after_create_returns_same_fields() {
    let mut db = Database::new();
    let req = CreateUserRequest {
        name: "Ann".to_string(),
        email: "ann@x.com".to_string(),
        auth_provider: Some("github".to_string()),
    };
    let u = db.create_user(&req).unwrap();
    let got = db.get_user(&u.user_id).unwrap();
    assert_eq!(got, u);
    assert_eq!(got.name, req.name);
    assert_eq!(got.email, req.email);
    assert_eq!(got.auth_provider, req.auth_provider);
}

#[test]
fn delete_then_fetch_is_not_found_and_second_delete_reports_false() {
    let mut db = Database::new();
    let u = db.create_user(&user_req("A", "a@x.com")).unwrap();
    assert!(db.delete_user(&u.user_id));
    assert_eq!(db.get_user(&u.user_id), None);
    assert!(!db.delete_user(&u.user_id));
}

#[test]
fn list_after_delete_omits_deleted_user() {
    let mut db = Database::new();
    let a = db.create_user(&user_req("A", "a@x.com")).unwrap();
    let b = db.create_user(&user_req("B", "b@x.com")).unwrap();
    assert!(db.delete_user(&a.user_id));
    let all = db.get_all_users();
    assert_eq!(all.len(), 1);
    assert!(all.iter().all(|u| u.user_id != a.user_id));
    assert_eq!(all[0].user_id, b.user_id);
}

#[test]
fn users_are_listed_by_name() {
    let mut db = Database::new();
    db.create_user(&user_req("Carol", "c@x.com")).unwrap();
    db.create_user(&user_req("Alice", "a@x.com")).unwrap();
    db.create_user(&user_req("Bob", "b@x.com")).unwrap();
    let names: Vec<String> = db.get_all_users().into_iter().map(|u| u.name).collect();
    assert_eq!(names, vec!["Alice", "Bob", "Carol"]);
}

#[test]
fn update_changes_only_given_fields() {
    let mut db = Database::new();
    let u = db.create_user(&user_req("A", "a@x.com")).unwrap();
    let req = UpdateUserRequest { name: Some("Z".to_string()), email: None, auth_provider: None };
    let got = db.update_user(&u.user_id, &req).unwrap().unwrap();
    assert_eq!(got.name, "Z");
    assert_eq!(got.email, "a@x.com");
    assert_eq!(got.auth_provider, None);
    assert_eq!(db.get_user(&u.user_id).unwrap(), got);
}

#[test]
fn update_to_own_email_is_allowed() {
    let mut db = Database::new();
    let u = db.create_user(&user_req("A", "a@x.com")).unwrap();
    let req = UpdateUserRequest { name: None, email: Some("a@x.com".to_string()), auth_provider: Some("p".to_string()) };
    let got = db.update_user(&u.user_id, &req).unwrap().unwrap();
    assert_eq!(got.auth_provider, Some("p".to_string()));
}

#[test]
fn update_to_taken_email_conflicts_and_changes_nothing() {
    let mut db = Database::new();
    let a = db.create_user(&user_req("A", "a@x.com")).unwrap();
    db.create_user(&user_req("B", "b@x.com")).unwrap();
    let req = UpdateUserRequest { name: Some("N".to_string()), email: Some("b@x.com".to_string()), auth_provider: None };
    assert_eq!(db.update_user(&a.user_id, &req), Err(StoreError::DuplicateEmail));
    assert_eq!(db.get_user(&a.user_id).unwrap(), a);
}

#[test]
fn update_of_missing_user_is_none() {
    let mut db = Database::new();
    let req = UpdateUserRequest { name: Some("N".to_string()), email: None, auth_provider: None };
    assert_eq!(db.update_user("nobody", &req), Ok(None));
}

#[test]
fn media_needs_existing_type() {
    let mut db = Database::new();
    assert_eq!(db.create_media_item(&media_req("X", 1)), Err(StoreError::MissingReference));
    assert_eq!(db.add_media_type("Movie".to_string()), Ok(true));
    let m = db.create_media_item(&media_req("X", 1)).unwrap();
    assert_eq!(m.media_id.len(), 36);
    assert_eq!(db.get_media_item(&m.media_id), Some(m));
    assert_eq!(db.get_media_item("missing"), None);
}

#[test]
fn media_are_listed_by_title() {
    let mut db = seeded();
    db.create_media_item(&media_req("beta", 1)).unwrap();
    db.create_media_item(&media_req("Alpha", 2)).unwrap();
    db.create_media_item(&media_req("alpha", 3)).unwrap();
    let titles: Vec<String> = db.get_all_media_items().into_iter().map(|m| m.title).collect();
    assert_eq!(titles, vec!["Alpha", "alpha", "beta"]);
}

#[test]
fn reference_ids_count_up_and_names_stay_unique() {
    let mut db = Database::new();
    assert_eq!(db.add_media_type("Movie".to_string()), Ok(true));
    assert_eq!(db.add_media_type("Book".to_string()), Ok(true));
    assert_eq!(db.add_media_type("Movie".to_string()), Ok(false));
    assert_eq!(db.add_creator_role("Actor".to_string()), Ok(true));
    assert_eq!(db.add_activity_status("Completed".to_string()), Ok(true));
    assert_eq!(db.add_activity_status("Completed".to_string()), Ok(false));
    assert_eq!(db.add_platform("p1".to_string(), "Steam".to_string(), None), Ok(true));
    assert_eq!(db.add_platform("p2".to_string(), "Steam".to_string(), None), Ok(false));
    assert_eq!(db.add_platform("p1".to_string(), "Other".to_string(), None), Err(StoreError::DuplicateId));
    db.create_media_item(&media_req("B", 2)).unwrap();
    assert_eq!(db.create_media_item(&media_req("C", 3)), Err(StoreError::MissingReference));
}

#[test]
fn seeding_runs_once() {
    let mut db = Database::new();
    db.seed_sample_data().unwrap();
    let users = db.get_all_users();
    let names: Vec<&str> = users.iter().map(|u| u.name.as_str()).collect();
    assert_eq!(names, vec!["Bob Johnson", "Jane Smith", "John Doe"]);
    assert!(users.iter().all(|u| u.auth_provider.is_none()));
    db.seed_sample_data().unwrap();
    assert_eq!(db.get_all_users().len(), 3);
    for t in 1..=5 {
        assert!(db.create_media_item(&media_req("T", t)).is_ok());
    }
    assert_eq!(db.create_media_item(&media_req("T", 6)), Err(StoreError::MissingReference));
}

#[test]
fn seeding_skipped_when_users_exist() {
    let mut db = Database::new();
    db.create_user(&user_req("A", "a@x.com")).unwrap();
    db.seed_sample_data().unwrap();
    assert_eq!(db.get_all_users().len(), 1);
    assert_eq!(db.create_media_item(&media_req("T", 1)), Err(StoreError::MissingReference));
}

#[test]
fn second_rating_replaces_first() {
    let mut db = seeded();
    let u = db.get_all_users()[0].clone();
    let m = db.create_media_item(&media_req("M", 1)).unwrap();
    let first = db
        .upsert_rating(u.user_id.clone(), &CreateRatingRequest { media_id: m.media_id.clone(), score: 3.0f64.to_bits() }, "2024-01-01 00:00:00".to_string())
        .unwrap();
    assert_eq!(f64::from_bits(first.score), 3.0);
    db.upsert_rating(u.user_id.clone(), &CreateRatingRequest { media_id: m.media_id.clone(), score: 4.5f64.to_bits() }, "2024-01-02 00:00:00".to_string())
        .unwrap();
    let got = db.get_user_rating(&u.user_id, &m.media_id).unwrap();
    assert_eq!(f64::from_bits(got.score), 4.5);
    assert_eq!(got.rated_at, "2024-01-02 00:00:00");
}

#[test]
fn rating_twice_keeps_latest_score() {
    let mut db = seeded();
    let u = db.get_all_users()[0].clone();
    let m = db.create_media_item(&media_req("m1", 1)).unwrap();
    db.create_rating(&u.user_id, &CreateRatingRequest { media_id: m.media_id.clone(), score: 4.5f64.to_bits() }).unwrap();
    let second = db.create_rating(&u.user_id, &CreateRatingRequest { media_id: m.media_id.clone(), score: 2.0f64.to_bits() }).unwrap();
    assert_eq!(second.rated_at.len(), 19);
    let got = db.get_user_rating(&u.user_id, &m.media_id).unwrap();
    assert_eq!(f64::from_bits(got.score), 2.0);
    assert_eq!(got, second);
}

#[test]
fn rating_needs_existing_user_and_media() {
    let mut db = seeded();
    let u = db.get_all_users()[0].clone();
    let r = db.create_rating(&u.user_id, &CreateRatingRequest { media_id: "none".to_string(), score: 1.0f64.to_bits() });
    assert_eq!(r, Err(StoreError::MissingReference));
    let m = db.create_media_item(&media_req("M", 1)).unwrap();
    let r = db.create_rating("nobody", &CreateRatingRequest { media_id: m.media_id, score: 1.0f64.to_bits() });
    assert_eq!(r, Err(StoreError::MissingReference));
    assert_eq!(db.get_user_rating(&u.user_id, "none"), None);
}

#[test]
fn two_activities_for_same_pair_both_kept() {
    let mut db = seeded();
    let u = db.get_all_users()[0].clone();
    let m = db.create_media_item(&media_req("M", 1)).unwrap();
    let a1 = db.create_user_activity(&u.user_id, &activity_req(&m.media_id, 1, Some("2024-01-01"))).unwrap();
    let a2 = db.create_user_activity(&u.user_id, &activity_req(&m.media_id, 3, Some("2024-02-01"))).unwrap();
    assert_ne!(a1.activity_id, a2.activity_id);
    let listed = db.get_user_activities(&u.user_id);
    assert_eq!(listed.len(), 2);
    assert!(listed.contains(&a1));
    assert!(listed.contains(&a2));
}

#[test]
fn activities_listed_latest_start_first_undated_last() {
    let mut db = seeded();
    let users = db.get_all_users();
    let m = db.create_media_item(&media_req("M", 1)).unwrap();
    let u = &users[0];
    db.create_user_activity(&u.user_id, &activity_req(&m.media_id, 1, None)).unwrap();
    db.create_user_activity(&u.user_id, &activity_req(&m.media_id, 1, Some("2023-05-01"))).unwrap();
    db.create_user_activity(&u.user_id, &activity_req(&m.media_id, 1, Some("2024-05-01"))).unwrap();
    db.create_user_activity(&users[1].user_id, &activity_req(&m.media_id, 1, Some("2025-01-01"))).unwrap();
    let starts: Vec<Option<String>> = db.get_user_activities(&u.user_id).into_iter().map(|a| a.started_at).collect();
    assert_eq!(starts, vec![Some("2024-05-01".to_string()), Some("2023-05-01".to_string()), None]);
}

#[test]
fn activity_needs_existing_references() {
    let mut db = seeded();
    let u = db.get_all_users()[0].clone();
    let m = db.create_media_item(&media_req("M", 1)).unwrap();
    assert_eq!(db.create_user_activity(&u.user_id, &activity_req(&m.media_id, 9, None)), Err(StoreError::MissingReference));
    assert_eq!(db.create_user_activity("nobody", &activity_req(&m.media_id, 1, None)), Err(StoreError::MissingReference));
    let mut req = activity_req(&m.media_id, 1, None);
    req.source_platform = Some("no-such-platform".to_string());
    assert_eq!(db.create_user_activity(&u.user_id, &req), Err(StoreError::MissingReference));
    assert!(db.add_platform("plat".to_string(), "Mine".to_string(), None).unwrap());
    req.source_platform = Some("plat".to_string());
    assert!(db.create_user_activity(&u.user_id, &req).is_ok());
}

#[test]
fn activity_with_taken_id_is_refused() {
    let mut db = seeded();
    let u = db.get_all_users()[0].clone();
    let m = db.create_media_item(&media_req("M", 1)).unwrap();
    db.insert_activity("a1".to_string(), u.user_id.clone(), &activity_req(&m.media_id, 1, None)).unwrap();
    let r = db.insert_activity("a1".to_string(), u.user_id.clone(), &activity_req(&m.media_id, 1, None));
    assert_eq!(r, Err(StoreError::DuplicateId));
}

#[test]
fn delete_cascades_to_ratings_and_activities() {
    let mut db = seeded();
    let users = db.get_all_users();
    let m = db.create_media_item(&media_req("M", 1)).unwrap();
    let (u, v) = (&users[0], &users[1]);
    db.create_rating(&u.user_id, &CreateRatingRequest { media_id: m.media_id.clone(), score: 1.0f64.to_bits() }).unwrap();
    db.create_rating(&v.user_id, &CreateRatingRequest { media_id: m.media_id.clone(), score: 2.0f64.to_bits() }).unwrap();
    db.create_user_activity(&u.user_id, &activity_req(&m.media_id, 1, None)).unwrap();
    assert!(db.delete_user(&u.user_id));
    assert_eq!(db.get_user_rating(&u.user_id, &m.media_id), None);
    assert!(db.get_user_activities(&u.user_id).is_empty());
    assert!(db.get_user_rating(&v.user_id, &m.media_id).is_some());
}

#[test]
fn text_order_is_by_code_point() {
    assert!(text_at_most("", "a"));
    assert!(text_at_most("ab", "abc"));
    assert!(!text_at_most("abc", "ab"));
    assert!(text_at_most("B", "a"));
    assert!(text_at_most("same", "same"));
    assert!(same_text("héllo", "héllo"));
    assert!(!same_text("hello", "hellö"));
}

fn ids(prefix: &str) -> Vec<String> {
    (0..3).map(|i| format!("{}{}", prefix, i)).collect()
}

#[test]
fn seeding_with_given_ids_uses_them() {
    let mut db = Database::new();
    assert_eq!(db.seed_with_ids(ids("p"), ids("u")), Ok(()));
    let users = db.get_all_users();
    assert_eq!(users.len(), 3);
    let john = users.iter().find(|u| u.email == "john.doe@example.com").unwrap();
    assert_eq!(john.user_id, "u0");
    assert_eq!(john.name, "John Doe");
    let jane = users.iter().find(|u| u.email == "jane.smith@example.com").unwrap();
    assert_eq!(jane.user_id, "u1");
    let bob = users.iter().find(|u| u.email == "bob.johnson@example.com").unwrap();
    assert_eq!(bob.user_id, "u2");
    let platforms = db.get_all_platforms();
    let pairs: Vec<(&str, &str)> = platforms.iter().map(|p| (p.platform_id.as_str(), p.name.as_str())).collect();
    assert_eq!(pairs, vec![("p0", "Netflix"), ("p1", "Amazon Prime"), ("p2", "Steam")]);
    let types: Vec<(i32, String)> = db.get_all_media_types().into_iter().map(|t| (t.type_id, t.name)).collect();
    assert_eq!(
        types,
        vec![
            (1, "Movie".to_string()),
            (2, "TV Show".to_string()),
            (3, "Book".to_string()),
            (4, "Game".to_string()),
            (5, "Music".to_string())
        ]
    );
    assert_eq!(db.get_all_creator_roles().len(), 5);
    assert_eq!(db.get_all_activity_statuses().len(), 5);
}

#[test]
fn seeding_with_repeated_user_id_is_refused() {
    let mut db = Database::new();
    let users = vec!["u".to_string(), "v".to_string(), "u".to_string()];
    assert_eq!(db.seed_with_ids(ids("p"), users), Err(StoreError::DuplicateId));
    assert_eq!(db.get_all_users().len(), 2);
}

#[test]
fn seeding_with_stored_platform_id_is_refused() {
    let mut db = Database::new();
    assert_eq!(db.add_platform("p1".to_string(), "Other".to_string(), None), Ok(true));
    assert_eq!(db.seed_with_ids(ids("p"), ids("u")), Err(StoreError::DuplicateId));
    assert!(db.get_all_users().is_empty());
}

#[test]
fn seeding_later_start_changes_nothing() {
    let mut db = Database::new();
    db.create_user(&user_req("A", "a@x.com")).unwrap();
    assert_eq!(db.seed_with_ids(ids("p"), ids("u")), Ok(()));
    assert!(db.get_all_platforms().is_empty());
    assert_eq!(db.get_all_users().len(), 1);
}

#[test]
fn restored_reference_rows_keep_their_ids() {
    let mut db = Database::new();
    assert_eq!(db.restore_media_type(3, "Book".to_string()), Ok(()));
    assert_eq!(db.restore_media_type(1, "Movie".to_string()), Ok(()));
    assert_eq!(db.restore_media_type(1, "Other".to_string()), Err(StoreError::DuplicateId));
    assert_eq!(db.restore_media_type(7, "Book".to_string()), Err(StoreError::DuplicateId));
    assert_eq!(db.restore_media_type(0, "Zero".to_string()), Err(StoreError::InvalidId));
    assert_eq!(db.add_media_type("Game".to_string()), Ok(true));
    let types: Vec<(i32, String)> = db.get_all_media_types().into_iter().map(|t| (t.type_id, t.name)).collect();
    assert_eq!(types, vec![(3, "Book".to_string()), (1, "Movie".to_string()), (4, "Game".to_string())]);
    assert_eq!(db.restore_creator_role(2, "Actor".to_string()), Ok(()));
    assert_eq!(db.add_creator_role("Author".to_string()), Ok(true));
    assert_eq!(db.get_all_creator_roles()[1].role_id, 3);
    assert_eq!(db.restore_activity_status(5, "On Hold".to_string()), Ok(()));
    assert_eq!(db.restore_activity_status(-1, "X".to_string()), Err(StoreError::InvalidId));
    assert_eq!(db.add_activity_status("Dropped".to_string()), Ok(true));
    assert_eq!(db.get_all_activity_statuses()[1].status_id, 6);
}
