//! The records that the store keeps and the requests that create or change them.
//!
//! Scores and ratings are real numbers on the wire; here they are held as the
//! bit pattern of an IEEE-754 binary64 value, which the store keeps and hands
//! back unchanged.
use vstd::prelude::*;

verus! {

#[derive(Debug, Clone, PartialEq, Eq)]
pub struct User {
    pub user_id: String,
    pub name: String,
    pub email: String,
    pub auth_provider: Option<String>,
}

#[derive(Debug, Clone, PartialEq, Eq)]
pub struct MediaType {
    pub type_id: i32,
    pub name: String,
}

#[derive(Debug, Clone, PartialEq, Eq)]
pub struct MediaItem {
    pub media_id: String,
    pub title: String,
    pub type_id: i32,
    pub release_date: Option<String>,
    pub description: Option<String>,
    pub cover_url: Option<String>,
}

#[derive(Debug, Clone, PartialEq, Eq)]
pub struct CreatorRole {
    pub role_id: i32,
    pub role_name: String,
}

#[derive(Debug, Clone, PartialEq, Eq)]
pub struct Creator {
    pub creator_id: String,
    pub name: String,
    pub role_id: i32,
}

#[derive(Debug, Clone, PartialEq, Eq)]
pub struct Platform {
    pub platform_id: String,
    pub name: String,
    pub base_url: Option<String>,
}

#[derive(Debug, Clone, PartialEq, Eq)]
pub struct ActivityStatus {
    pub status_id: i32,
    pub name: String,
}

/// One engagement record of a user with a media item; `rating` is the bit
/// pattern of a binary64 value.
#[derive(Debug, Clone, PartialEq, Eq)]
pub struct UserActivity {
    pub activity_id: String,
    pub user_id: String,
    pub media_id: String,
    pub status_id: i32,
    pub rating: Option<u64>,
    pub review: Option<String>,
    pub started_at: Option<String>,
    pub finished_at: Option<String>,
    pub source_platform: Option<String>,
}

/// A suggested media item; `score` is the bit pattern of a binary64 value.
#[derive(Debug, Clone, PartialEq, Eq)]
pub struct Recommendation {
    pub recommendation_id: String,
    pub user_id: String,
    pub media_id: String,
    pub recommender_id: Option<String>,
    pub source: Option<String>,
    pub score: Option<u64>,
}

#[derive(Debug, Clone, PartialEq, Eq)]
pub struct Tag {
    pub tag_id: String,
    pub name: String,
    pub tag_type: String,
}

/// The one score of a user for a media item; `score` is the bit pattern of a
/// binary64 value.
#[derive(Debug, Clone, PartialEq, Eq)]
pub struct Rating {
    pub user_id: String,
    pub media_id: String,
    pub score: u64,
    pub rated_at: String,
}

#[derive(Debug, Clone, PartialEq, Eq)]
pub struct Favorite {
    pub user_id: String,
    pub media_id: String,
    pub added_at: String,
}

#[derive(Debug, Clone, PartialEq, Eq)]
pub struct CreateUserRequest {
    pub name: String,
    pub email: String,
    pub auth_provider: Option<String>,
}

/// A partial update: each field that is `None` leaves the stored value as it is.
#[derive(Debug, Clone, PartialEq, Eq)]
pub struct UpdateUserRequest {
    pub name: Option<String>,
    pub email: Option<String>,
    pub auth_provider: Option<String>,
}

#[derive(Debug, Clone, PartialEq, Eq)]
pub struct CreateMediaItemRequest {
    pub title: String,
    pub type_id: i32,
    pub release_date: Option<String>,
    pub description: Option<String>,
    pub cover_url: Option<String>,
}

/// `score` is the bit pattern of a binary64 value.
#[derive(Debug, Clone, PartialEq, Eq)]
pub struct CreateRatingRequest {
    pub media_id: String,
    pub score: u64,
}

/// `rating` is the bit pattern of a binary64 value.
#[derive(Debug, Clone, PartialEq, Eq)]
pub struct CreateUserActivityRequest {
    pub media_id: String,
    pub status_id: i32,
    pub rating: Option<u64>,
    pub review: Option<String>,
    pub started_at: Option<String>,
    pub finished_at: Option<String>,
    pub source_platform: Option<String>,
}

/// A copy of an optional text, equal to it.
pub fn copy_opt_text(o: &Option<String>) -> (r: Option<String>)
    ensures
        r == *o,
{
    match o {
        Some(s) => Some(s.clone()),
        None => None,
    }
}

/// A record that can be copied field by field.
pub trait Row: Sized {
    /// A copy of the record, equal to it in every field.
    fn copy(&self) -> (r: Self)
        ensures
            r == *self,
    ;
}

impl Row for User {
    fn copy(&self) -> (r: User)
        ensures
            r == *self,
    {
        User {
            user_id: self.user_id.clone(),
            name: self.name.clone(),
            email: self.email.clone(),
            auth_provider: copy_opt_text(&self.auth_provider),
        }
    }
}

impl Row for MediaItem {
    fn copy(&self) -> (r: MediaItem)
        ensures
            r == *self,
    {
        MediaItem {
            media_id: self.media_id.clone(),
            title: self.title.clone(),
            type_id: self.type_id,
            release_date: copy_opt_text(&self.release_date),
            description: copy_opt_text(&self.description),
            cover_url: copy_opt_text(&self.cover_url),
        }
    }
}

impl Row for Rating {
    fn copy(&self) -> (r: Rating)
        ensures
            r == *self,
    {
        Rating {
            user_id: self.user_id.clone(),
            media_id: self.media_id.clone(),
            score: self.score,
            rated_at: self.rated_at.clone(),
        }
    }
}

impl Row for UserActivity {
    fn copy(&self) -> (r: UserActivity)
        ensures
            r == *self,
    {
        UserActivity {
            activity_id: self.activity_id.clone(),
            user_id: self.user_id.clone(),
            media_id: self.media_id.clone(),
            status_id: self.status_id,
            rating: self.rating,
            review: copy_opt_text(&self.review),
            started_at: copy_opt_text(&self.started_at),
            finished_at: copy_opt_text(&self.finished_at),
            source_platform: copy_opt_text(&self.source_platform),
        }
    }
}

} // verus!
