//! What each HTTP route replies: one store operation, then its outcome mapped
//! to a status code and a body.
use vstd::prelude::*;
use crate::records::{
    CreateMediaItemRequest, CreateRatingRequest, CreateUserActivityRequest, CreateUserRequest,
    MediaItem, Rating, UpdateUserRequest, User, UserActivity,
};
use crate::store::{
    Database, StoreError, activities_listed, activity_created, after_user_delete, media_created,
    media_listed, media_lookup, rating_submitted, user_created, user_exists, user_lookup,
    user_updated, users_listed,
};

verus! {

/// A reply: a status code and what its body carries.
#[derive(Debug, PartialEq, Eq)]
pub enum Reply<T> {
    /// The record or list, as the body.
    Body(u16, T),
    /// A body holding only an error message.
    Error(u16, String),
    /// No body.
    Empty(u16),
}

/// The fixed reply of the health probe.
#[derive(Debug, PartialEq, Eq)]
pub struct HealthReport {
    pub status: String,
    pub service: String,
    pub database: String,
}

/// The reply is an error with this status and message.
pub open spec fn is_error<T>(r: Reply<T>, status: u16, message: Seq<char>) -> bool {
    r matches Reply::Error(s, m) && s == status && m@ == message
}

/// `POST /users`: 201 with the new user; 409 when the email is taken; 500
/// otherwise.
pub fn create_user(db: &mut Database, req: &CreateUserRequest) -> (r: Reply<User>)
    requires
        old(db).wf(),
    ensures
        final(db).wf(),
        match r {
            Reply::Body(s, u) => s == 201 && user_created(old(db)@, *req, Ok(u), final(db)@),
            Reply::Error(s, m) => {
                ||| s == 409 && m@ == "User with this email already exists"@ && user_created(
                    old(db)@,
                    *req,
                    Err(StoreError::DuplicateEmail),
                    final(db)@,
                )
                ||| s == 500 && m@ == "Failed to create user"@ && exists|e: StoreError|
                    e != StoreError::DuplicateEmail && user_created(old(db)@, *req, Err(e), final(db)@)
            },
            Reply::Empty(_) => false,
        },
{
    match db.create_user(req) {
        Ok(u) => Reply::Body(201, u),
        Err(StoreError::DuplicateEmail) => Reply::Error(409, "User with this email already exists".to_owned()),
        Err(_) => Reply::Error(500, "Failed to create user".to_owned()),
    }
}

/// `GET /users/{id}`: 200 with the user, or 404.
pub fn get_user(db: &Database, id: &str) -> (r: Reply<User>)
    requires
        db.wf(),
    ensures
        match r {
            Reply::Body(s, u) => s == 200 && user_lookup(db@.users, id@, Some(u)),
            _ => is_error(r, 404, "User not found"@) && user_lookup(db@.users, id@, None),
        },
{
    match db.get_user(id) {
        Some(u) => Reply::Body(200, u),
        None => Reply::Error(404, "User not found".to_owned()),
    }
}

/// `PATCH /users/{id}`: 200 with the updated user; 404 when there is none;
/// 409 when the new email is taken by another user.
pub fn update_user(db: &mut Database, id: &str, req: &UpdateUserRequest) -> (r: Reply<User>)
    requires
        old(db).wf(),
    ensures
        final(db).wf(),
        match r {
            Reply::Body(s, u) => s == 200 && user_updated(old(db)@, id@, *req, Ok(Some(u)), final(db)@),
            _ => {
                ||| is_error(r, 404, "User not found"@) && user_updated(old(db)@, id@, *req, Ok(None), final(db)@)
                ||| is_error(r, 409, "User with this email already exists"@) && user_updated(
                    old(db)@,
                    id@,
                    *req,
                    Err(StoreError::DuplicateEmail),
                    final(db)@,
                )
            },
        },
{
    match db.update_user(id, req) {
        Ok(Some(u)) => Reply::Body(200, u),
        Ok(None) => Reply::Error(404, "User not found".to_owned()),
        Err(_) => Reply::Error(409, "User with this email already exists".to_owned()),
    }
}

/// `DELETE /users/{id}`: 204 with no body when the user existed, else 404.
pub fn delete_user(db: &mut Database, id: &str) -> (r: Reply<()>)
    requires
        old(db).wf(),
    ensures
        final(db).wf(),
        final(db)@ == after_user_delete(old(db)@, id@),
        user_exists(old(db)@.users, id@) ==> r == Reply::<()>::Empty(204),
        !user_exists(old(db)@.users, id@) ==> is_error(r, 404, "User not found"@),
{
    if db.delete_user(id) {
        Reply::Empty(204)
    } else {
        Reply::Error(404, "User not found".to_owned())
    }
}

/// `GET /users`: 200 with every user, by name.
pub fn list_users(db: &Database) -> (r: Reply<Vec<User>>)
    requires
        db.wf(),
    ensures
        r matches Reply::Body(s, l) && s == 200 && users_listed(db@.users, l@),
{
    Reply::Body(200, db.get_all_users())
}

/// `POST /media`: 201 with the new item, else 500.
pub fn create_media_item(db: &mut Database, req: &CreateMediaItemRequest) -> (r: Reply<MediaItem>)
    requires
        old(db).wf(),
    ensures
        final(db).wf(),
        match r {
            Reply::Body(s, m) => s == 201 && media_created(old(db)@, *req, Ok(m), final(db)@),
            _ => is_error(r, 500, "Failed to create media item"@) && exists|e: StoreError|
                media_created(old(db)@, *req, Err(e), final(db)@),
        },
{
    match db.create_media_item(req) {
        Ok(m) => Reply::Body(201, m),
        Err(_) => Reply::Error(500, "Failed to create media item".to_owned()),
    }
}

/// `GET /media/{id}`: 200 with the item, or 404.
pub fn get_media_item(db: &Database, id: &str) -> (r: Reply<MediaItem>)
    requires
        db.wf(),
    ensures
        match r {
            Reply::Body(s, m) => s == 200 && media_lookup(db@.media_items, id@, Some(m)),
            _ => is_error(r, 404, "Media item not found"@) && media_lookup(db@.media_items, id@, None),
        },
{
    match db.get_media_item(id) {
        Some(m) => Reply::Body(200, m),
        None => Reply::Error(404, "Media item not found".to_owned()),
    }
}

/// `GET /media`: 200 with every item, by title.
pub fn list_media_items(db: &Database) -> (r: Reply<Vec<MediaItem>>)
    requires
        db.wf(),
    ensures
        r matches Reply::Body(s, l) && s == 200 && media_listed(db@.media_items, l@),
{
    Reply::Body(200, db.get_all_media_items())
}

/// `POST /users/{id}/ratings`: 201 with the stored rating, else 500.
pub fn create_rating(db: &mut Database, user_id: &str, req: &CreateRatingRequest) -> (r: Reply<Rating>)
    requires
        old(db).wf(),
    ensures
        final(db).wf(),
        match r {
            Reply::Body(s, x) => s == 201 && rating_submitted(old(db)@, user_id@, *req, Ok(x), final(db)@),
            _ => is_error(r, 500, "Failed to create rating"@) && exists|e: StoreError|
                rating_submitted(old(db)@, user_id@, *req, Err(e), final(db)@),
        },
{
    match db.create_rating(user_id, req) {
        Ok(x) => Reply::Body(201, x),
        Err(_) => Reply::Error(500, "Failed to create rating".to_owned()),
    }
}

/// `GET /users/{id}/activities`: 200 with the user's activities, latest
/// start first.
pub fn get_user_activities(db: &Database, user_id: &str) -> (r: Reply<Vec<UserActivity>>)
    requires
        db.wf(),
    ensures
        r matches Reply::Body(s, l) && s == 200 && activities_listed(db@.activities, user_id@, l@),
{
    Reply::Body(200, db.get_user_activities(user_id))
}

/// `POST /users/{id}/activities`: 201 with the new activity, else 500.
pub fn create_user_activity(db: &mut Database, user_id: &str, req: &CreateUserActivityRequest) -> (r: Reply<
    UserActivity,
>)
    requires
        old(db).wf(),
    ensures
        final(db).wf(),
        match r {
            Reply::Body(s, a) => s == 201 && activity_created(old(db)@, user_id@, *req, Ok(a), final(db)@),
            _ => is_error(r, 500, "Failed to create user activity"@) && exists|e: StoreError|
                activity_created(old(db)@, user_id@, *req, Err(e), final(db)@),
        },
{
    match db.create_user_activity(user_id, req) {
        Ok(a) => Reply::Body(201, a),
        Err(_) => Reply::Error(500, "Failed to create user activity".to_owned()),
    }
}

/// `GET /health`: always 200 with the same report.
pub fn health_check() -> (r: Reply<HealthReport>)
    ensures
        r matches Reply::Body(s, h) && s == 200 && h.status@ == "healthy"@ && h.service@
            == "Cross-Media Tracking Platform API"@ && h.database@ == "SQLite"@,
{
    Reply::Body(
        200,
        HealthReport {
            status: "healthy".to_owned(),
            service: "Cross-Media Tracking Platform API".to_owned(),
            database: "SQLite".to_owned(),
        },
    )
}

} // verus!
