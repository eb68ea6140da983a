use media_tracker::api::{
    create_media_item, create_rating, create_user, create_user_activity, delete_user, get_media_item,
    get_user, get_user_activities, health_check, list_media_items, list_users, update_user, Reply,
};
use media_tracker::records::{
    CreateMediaItemRequest, CreateRatingRequest, CreateUserActivityRequest, CreateUserRequest,
    UpdateUserRequest,
};
use media_tracker::store::Database;

fn user_req(name: &str, email: &str) -> CreateUserRequest {
    CreateUserRequest { name: name.to_string(), email: email.to_string(), auth_provider: None }
}

#[test]
fn post_user_twice_with_same_email_gives_201_then_409() {
    let mut db = Database::new();
    match create_user(&mut db, &user_req("A", "a@x.com")) {
        Reply::Body(status, u) => {
            assert_eq!(status, 201);
            assert!(!u.user_id.is_empty());
            assert_eq!(u.name, "A");
            assert_eq!(u.email, "a@x.com");
        }
        other => panic!("unexpected reply {:?}", other),
    }
    let again = create_user(&mut db, &user_req("A", "a@x.com"));
    assert_eq!(again, Reply::Error(409, "User with this email already exists".to_string()));
}

#[test]
fn user_routes_map_outcomes_to_statuses() {
    let mut db = Database::new();
    let id = match create_user(&mut db, &user_req("A", "a@x.com")) {
        Reply::Body(_, u) => u.user_id,
        other => panic!("unexpected reply {:?}", other),
    };
    create_user(&mut db, &user_req("B", "b@x.com"));
    assert!(matches!(get_user(&db, &id), Reply::Body(200, _)));
    assert_eq!(get_user(&db, "missing"), Reply::Error(404, "User not found".to_string()));
    let clash = UpdateUserRequest { name: None, email: Some("b@x.com".to_string()), auth_provider: None };
    assert_eq!(update_user(&mut db, &id, &clash), Reply::Error(409, "User with this email already exists".to_string()));
    let rename = UpdateUserRequest { name: Some("C".to_string()), email: None, auth_provider: None };
    assert_eq!(update_user(&mut db, "missing", &rename), Reply::Error(404, "User not found".to_string()));
    match update_user(&mut db, &id, &rename) {
        Reply::Body(200, u) => assert_eq!(u.name, "C"),
        other => panic!("unexpected reply {:?}", other),
    }
    match list_users(&db) {
        Reply::Body(200, users) => assert_eq!(users.len(), 2),
        other => panic!("unexpected reply {:?}", other),
    }
    assert_eq!(delete_user(&mut db, &id), Reply::Empty(204));
    assert_eq!(delete_user(&mut db, &id), Reply::Error(404, "User not found".to_string()));
}

#[test]
fn media_rating_and_activity_routes() {
    let mut db = Database::new();
    db.seed_sample_data().unwrap();
    let bad = CreateMediaItemRequest { title: "X".to_string(), type_id: 99, release_date: None, description: None, cover_url: None };
    assert_eq!(create_media_item(&mut db, &bad), Reply::Error(500, "Failed to create media item".to_string()));
    let good = CreateMediaItemRequest { title: "X".to_string(), type_id: 1, release_date: Some("2020".to_string()), description: None, cover_url: None };
    let media_id = match create_media_item(&mut db, &good) {
        Reply::Body(201, m) => m.media_id,
        other => panic!("unexpected reply {:?}", other),
    };
    assert!(matches!(get_media_item(&db, &media_id), Reply::Body(200, _)));
    assert_eq!(get_media_item(&db, "missing"), Reply::Error(404, "Media item not found".to_string()));
    assert!(matches!(list_media_items(&db), Reply::Body(200, ref l) if l.len() == 1));
    let user_id = match list_users(&db) {
        Reply::Body(_, users) => users[0].user_id.clone(),
        other => panic!("unexpected reply {:?}", other),
    };
    let rating = CreateRatingRequest { media_id: media_id.clone(), score: 4.5f64.to_bits() };
    assert!(matches!(create_rating(&mut db, &user_id, &rating), Reply::Body(201, _)));
    assert_eq!(create_rating(&mut db, "nobody", &rating), Reply::Error(500, "Failed to create rating".to_string()));
    let act = CreateUserActivityRequest {
        media_id,
        status_id: 2,
        rating: Some(4.0f64.to_bits()),
        review: Some("good".to_string()),
        started_at: None,
        finished_at: None,
        source_platform: None,
    };
    assert!(matches!(create_user_activity(&mut db, &user_id, &act), Reply::Body(201, _)));
    assert_eq!(create_user_activity(&mut db, "nobody", &act), Reply::Error(500, "Failed to create user activity".to_string()));
    assert!(matches!(get_user_activities(&db, &user_id), Reply::Body(200, ref l) if l.len() == 1));
}

#[test]
fn health_reports_fixed_status() {
    let h = match health_check() {
        Reply::Body(200, h) => h,
        other => panic!("unexpected reply {:?}", other),
    };
    assert_eq!(h.status, "healthy");
    assert_eq!(h.service, "Cross-Media Tracking Platform API");
    assert_eq!(h.database, "SQLite");
}
