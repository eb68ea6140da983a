//! The store: one table per kind of record, the uniqueness and reference rules
//! that the tables keep, and the operations on them.
use vstd::prelude::*;
use crate::records::{
    ActivityStatus, CreateMediaItemRequest, CreateRatingRequest, CreateUserActivityRequest,
    CreateUserRequest, CreatorRole, MediaItem, MediaType, Platform, Rating, UpdateUserRequest,
    User, UserActivity, Row, copy_opt_text,
};
use crate::outside::{fresh_id, now_timestamp};
use crate::text::{same_text, text_at_most, text_le, lemma_text_le_total};

verus! {

/// Why a write was refused.
#[derive(Debug, Clone, Copy, PartialEq, Eq, Structural)]
pub enum StoreError {
    /// Another user already has this email.
    DuplicateEmail,
    /// A row with the new identifier exists already.
    DuplicateId,
    /// A referenced user, media item, type, status or platform does not exist.
    MissingReference,
    /// A reference table has used up its numeric identifiers.
    IdsExhausted,
    /// A numeric identifier given for a reference row is not positive.
    InvalidId,
}

/// What the store holds, table by table.
pub struct Tables {
    pub users: Seq<User>,
    pub media_types: Seq<MediaType>,
    pub creator_roles: Seq<CreatorRole>,
    pub statuses: Seq<ActivityStatus>,
    pub platforms: Seq<Platform>,
    pub media_items: Seq<MediaItem>,
    pub ratings: Seq<Rating>,
    pub activities: Seq<UserActivity>,
}

/// Some user has identifier `id`.
pub open spec fn user_exists(users: Seq<User>, id: Seq<char>) -> bool {
    exists|i: int| 0 <= i < users.len() && (#[trigger] users[i]).user_id@ == id
}

/// Some user has this email.
pub open spec fn email_in_use(users: Seq<User>, email: Seq<char>) -> bool {
    exists|i: int| 0 <= i < users.len() && (#[trigger] users[i]).email@ == email
}

/// Some media item has identifier `id`.
pub open spec fn media_exists(items: Seq<MediaItem>, id: Seq<char>) -> bool {
    exists|i: int| 0 <= i < items.len() && (#[trigger] items[i]).media_id@ == id
}

/// Some media type has identifier `id`.
pub open spec fn media_type_exists(types: Seq<MediaType>, id: i32) -> bool {
    exists|i: int| 0 <= i < types.len() && (#[trigger] types[i]).type_id == id
}

/// Some activity status has identifier `id`.
pub open spec fn status_exists(statuses: Seq<ActivityStatus>, id: i32) -> bool {
    exists|i: int| 0 <= i < statuses.len() && (#[trigger] statuses[i]).status_id == id
}

/// Some platform has identifier `id`.
/// Some creator role has identifier `id`.
pub open spec fn role_exists(roles: Seq<CreatorRole>, id: i32) -> bool {
    exists|i: int| 0 <= i < roles.len() && (#[trigger] roles[i]).role_id == id
}

pub open spec fn platform_exists(platforms: Seq<Platform>, id: Seq<char>) -> bool {
    exists|i: int| 0 <= i < platforms.len() && (#[trigger] platforms[i]).platform_id@ == id
}

/// Some activity has identifier `id`.
pub open spec fn activity_exists(acts: Seq<UserActivity>, id: Seq<char>) -> bool {
    exists|i: int| 0 <= i < acts.len() && (#[trigger] acts[i]).activity_id@ == id
}

/// The rating row is the one of this user for this media item.
pub open spec fn rating_of(r: Rating, user_id: Seq<char>, media_id: Seq<char>) -> bool {
    r.user_id@ == user_id && r.media_id@ == media_id
}

/// Each entry of `s` comes no later than the next one by `le`.
pub open spec fn sorted_by<T>(s: Seq<T>, le: spec_fn(T, T) -> bool) -> bool {
    forall|k: int| 0 <= k < s.len() - 1 ==> le(#[trigger] s[k], s[k + 1])
}

/// Any two values are ordered one way or the other by `le`.
pub open spec fn total<T>(le: spec_fn(T, T) -> bool) -> bool {
    forall|a: T, b: T| #![trigger le(a, b)] le(a, b) || le(b, a)
}

/// No two rows of `s` clash.
pub open spec fn no_clash<T>(s: Seq<T>, clash: spec_fn(T, T) -> bool) -> bool {
    forall|i: int, j: int| 0 <= i < j < s.len() ==> !clash(#[trigger] s[i], #[trigger] s[j])
}

/// Two users clash when they share an identifier or an email.
pub open spec fn user_clash() -> spec_fn(User, User) -> bool {
    |a: User, b: User| a.user_id@ == b.user_id@ || a.email@ == b.email@
}

/// Two ratings clash when they are of the same (user, media) pair.
pub open spec fn rating_clash() -> spec_fn(Rating, Rating) -> bool {
    |a: Rating, b: Rating| rating_of(a, b.user_id@, b.media_id@)
}

/// Two activities clash when they share an identifier.
pub open spec fn activity_clash() -> spec_fn(UserActivity, UserActivity) -> bool {
    |a: UserActivity, b: UserActivity| a.activity_id@ == b.activity_id@
}

/// No two users share an identifier or an email.
pub open spec fn users_distinct(s: Seq<User>) -> bool {
    no_clash(s, user_clash())
}

/// No two ratings are of the same (user, media) pair.
pub open spec fn ratings_distinct(s: Seq<Rating>) -> bool {
    no_clash(s, rating_clash())
}

/// No two activities share an identifier.
pub open spec fn activities_distinct(s: Seq<UserActivity>) -> bool {
    no_clash(s, activity_clash())
}

/// Keeps the users other than `id`.
pub open spec fn other_user(id: Seq<char>) -> spec_fn(User) -> bool {
    |u: User| u.user_id@ != id
}

/// Keeps the ratings of users other than `id`.
pub open spec fn rating_of_other(id: Seq<char>) -> spec_fn(Rating) -> bool {
    |r: Rating| r.user_id@ != id
}

/// Keeps the activities of users other than `id`.
pub open spec fn activity_of_other(id: Seq<char>) -> spec_fn(UserActivity) -> bool {
    |a: UserActivity| a.user_id@ != id
}

impl Tables {
    /// The same tables with `users` in place of the users.
    pub open spec fn with_users(self, users: Seq<User>) -> Tables {
        Tables { users, ..self }
    }

    pub open spec fn with_media_items(self, media_items: Seq<MediaItem>) -> Tables {
        Tables { media_items, ..self }
    }

    pub open spec fn with_ratings(self, ratings: Seq<Rating>) -> Tables {
        Tables { ratings, ..self }
    }

    pub open spec fn with_media_types(self, media_types: Seq<MediaType>) -> Tables {
        Tables { media_types, ..self }
    }

    pub open spec fn with_creator_roles(self, creator_roles: Seq<CreatorRole>) -> Tables {
        Tables { creator_roles, ..self }
    }

    pub open spec fn with_statuses(self, statuses: Seq<ActivityStatus>) -> Tables {
        Tables { statuses, ..self }
    }

    pub open spec fn with_platforms(self, platforms: Seq<Platform>) -> Tables {
        Tables { platforms, ..self }
    }

    pub open spec fn with_activities(self, activities: Seq<UserActivity>) -> Tables {
        Tables { activities, ..self }
    }

    /// Identifiers and emails of users are unique.
    pub open spec fn users_wf(self) -> bool {
        users_distinct(self.users)
    }

    /// Media identifiers are unique and each item's type exists.
    pub open spec fn media_wf(self) -> bool {
        &&& forall|i: int, j: int|
            0 <= i < j < self.media_items.len() ==> (#[trigger] self.media_items[i]).media_id@
                != (#[trigger] self.media_items[j]).media_id@
        &&& forall|i: int|
            0 <= i < self.media_items.len() ==> media_type_exists(
                self.media_types,
                (#[trigger] self.media_items[i]).type_id,
            )
    }

    /// At most one rating per (user, media) pair, and both ends exist.
    pub open spec fn ratings_wf(self) -> bool {
        &&& ratings_distinct(self.ratings)
        &&& forall|i: int|
            0 <= i < self.ratings.len() ==> user_exists(
                self.users,
                (#[trigger] self.ratings[i]).user_id@,
            ) && media_exists(self.media_items, self.ratings[i].media_id@)
    }

    /// Activity identifiers are unique and every reference of an activity exists.
    pub open spec fn activities_wf(self) -> bool {
        &&& activities_distinct(self.activities)
        &&& forall|i: int|
            0 <= i < self.activities.len() ==> {
                let a = #[trigger] self.activities[i];
                &&& user_exists(self.users, a.user_id@)
                &&& media_exists(self.media_items, a.media_id@)
                &&& status_exists(self.statuses, a.status_id)
                &&& (a.source_platform matches Some(p) ==> platform_exists(self.platforms, p@))
            }
    }

    /// Numeric identifiers and names of the reference tables are unique, and
    /// the platforms' identifiers and names too.
    pub open spec fn reference_wf(self) -> bool {
        &&& forall|i: int, j: int|
            0 <= i < j < self.media_types.len() ==> (#[trigger] self.media_types[i]).type_id
                != (#[trigger] self.media_types[j]).type_id && self.media_types[i].name@
                != self.media_types[j].name@
        &&& forall|i: int, j: int|
            0 <= i < j < self.creator_roles.len() ==> (#[trigger] self.creator_roles[i]).role_id
                != (#[trigger] self.creator_roles[j]).role_id && self.creator_roles[i].role_name@
                != self.creator_roles[j].role_name@
        &&& forall|i: int, j: int|
            0 <= i < j < self.statuses.len() ==> (#[trigger] self.statuses[i]).status_id
                != (#[trigger] self.statuses[j]).status_id && self.statuses[i].name@
                != self.statuses[j].name@
        &&& forall|i: int, j: int|
            0 <= i < j < self.platforms.len() ==> (#[trigger] self.platforms[i]).platform_id@
                != (#[trigger] self.platforms[j]).platform_id@ && self.platforms[i].name@
                != self.platforms[j].name@
    }

    /// The rules that every table keeps.
    pub open spec fn wf(self) -> bool {
        &&& self.users_wf()
        &&& self.media_wf()
        &&& self.ratings_wf()
        &&& self.activities_wf()
        &&& self.reference_wf()
    }
}

// ----- users -----

// ----- media items -----

/// What inserting a media item under `media_id` gives.
pub open spec fn media_insert_result(t: Tables, media_id: String, req: CreateMediaItemRequest) -> Result<
    MediaItem,
    StoreError,
> {
    if !media_type_exists(t.media_types, req.type_id) {
        Err(StoreError::MissingReference)
    } else if media_exists(t.media_items, media_id@) {
        Err(StoreError::DuplicateId)
    } else {
        Ok(
            MediaItem {
                media_id,
                title: req.title,
                type_id: req.type_id,
                release_date: req.release_date,
                description: req.description,
                cover_url: req.cover_url,
            },
        )
    }
}

/// The tables after a media insertion whose result is `r`.
pub open spec fn after_media_insert(t: Tables, r: Result<MediaItem, StoreError>) -> Tables {
    match r {
        Ok(m) => t.with_media_items(t.media_items.push(m)),
        Err(_) => t,
    }
}

/// Creating a media item from `req` gave `r` and turned `t` into `t2`: the
/// result is that of an insertion under some 36-character identifier.
pub open spec fn media_created(
    t: Tables,
    req: CreateMediaItemRequest,
    r: Result<MediaItem, StoreError>,
    t2: Tables,
) -> bool {
    &&& t2 == after_media_insert(t, r)
    &&& exists|id: String| id@.len() == 36 && r == #[trigger] media_insert_result(t, id, req)
}

/// `r` is what a lookup of media item `id` returns.
pub open spec fn media_lookup(items: Seq<MediaItem>, id: Seq<char>, r: Option<MediaItem>) -> bool {
    match r {
        Some(m) => items.contains(m) && m.media_id@ == id,
        None => !media_exists(items, id),
    }
}

/// Items ordered by title.
pub open spec fn title_order() -> spec_fn(MediaItem, MediaItem) -> bool {
    |a: MediaItem, b: MediaItem| text_le(a.title@, b.title@)
}

/// Each entry's title comes no later than the next one's.
pub open spec fn sorted_by_title(s: Seq<MediaItem>) -> bool {
    sorted_by(s, title_order())
}

/// `r` lists the items of `items`, each once, by title.
pub open spec fn media_listed(items: Seq<MediaItem>, r: Seq<MediaItem>) -> bool {
    &&& r.len() == items.len()
    &&& forall|m: MediaItem| r.contains(m) <==> items.contains(m)
    &&& sorted_by_title(r)
}

// ----- ratings -----

/// Keeps the ratings that are not of this (user, media) pair.
pub open spec fn other_pair(user_id: Seq<char>, media_id: Seq<char>) -> spec_fn(Rating) -> bool {
    |r: Rating| !rating_of(r, user_id, media_id)
}

/// What submitting a rating with timestamp `rated_at` gives: both ends must exist.
pub open spec fn rating_upsert_result(
    t: Tables,
    user_id: String,
    req: CreateRatingRequest,
    rated_at: String,
) -> Result<Rating, StoreError> {
    if !user_exists(t.users, user_id@) || !media_exists(t.media_items, req.media_id@) {
        Err(StoreError::MissingReference)
    } else {
        Ok(Rating { user_id, media_id: req.media_id, score: req.score, rated_at })
    }
}

/// The tables after a submission whose result is `r`: the new rating replaces
/// any earlier one of the same pair.
pub open spec fn after_rating_upsert(t: Tables, r: Result<Rating, StoreError>) -> Tables {
    match r {
        Ok(x) => t.with_ratings(t.ratings.filter(other_pair(x.user_id@, x.media_id@)).push(x)),
        Err(_) => t,
    }
}

/// Submitting `req` for user `user_id` gave `r` and turned `t` into `t2`; the
/// timestamp is the one of the result.
pub open spec fn rating_submitted(
    t: Tables,
    user_id: Seq<char>,
    req: CreateRatingRequest,
    r: Result<Rating, StoreError>,
    t2: Tables,
) -> bool {
    &&& t2 == after_rating_upsert(t, r)
    &&& match r {
        Ok(x) => x.user_id@ == user_id && r == rating_upsert_result(t, x.user_id, req, x.rated_at),
        Err(e) => e == StoreError::MissingReference && (!user_exists(t.users, user_id)
            || !media_exists(t.media_items, req.media_id@)),
    }
}

/// `r` is what a lookup of the rating of this pair returns.
pub open spec fn rating_lookup(
    ratings: Seq<Rating>,
    user_id: Seq<char>,
    media_id: Seq<char>,
    r: Option<Rating>,
) -> bool {
    match r {
        Some(x) => ratings.contains(x) && rating_of(x, user_id, media_id),
        None => forall|i: int| 0 <= i < ratings.len() ==> !rating_of(#[trigger] ratings[i], user_id, media_id),
    }
}

// ----- activities -----

/// Keeps the activities of user `id`.
pub open spec fn activity_of(id: Seq<char>) -> spec_fn(UserActivity) -> bool {
    |a: UserActivity| a.user_id@ == id
}

/// What appending an activity under `activity_id` for user `user_id` gives:
/// every reference must exist.
pub open spec fn activity_insert_result(
    t: Tables,
    activity_id: String,
    user_id: String,
    req: CreateUserActivityRequest,
) -> Result<UserActivity, StoreError> {
    if !user_exists(t.users, user_id@) || !media_exists(t.media_items, req.media_id@)
        || !status_exists(t.statuses, req.status_id) || (req.source_platform matches Some(p)
        && !platform_exists(t.platforms, p@)) {
        Err(StoreError::MissingReference)
    } else if activity_exists(t.activities, activity_id@) {
        Err(StoreError::DuplicateId)
    } else {
        Ok(
            UserActivity {
                activity_id,
                user_id,
                media_id: req.media_id,
                status_id: req.status_id,
                rating: req.rating,
                review: req.review,
                started_at: req.started_at,
                finished_at: req.finished_at,
                source_platform: req.source_platform,
            },
        )
    }
}

/// The tables after an activity insertion whose result is `r`.
pub open spec fn after_activity_insert(t: Tables, r: Result<UserActivity, StoreError>) -> Tables {
    match r {
        Ok(a) => t.with_activities(t.activities.push(a)),
        Err(_) => t,
    }
}

/// Every reference of a new activity exists.
pub open spec fn activity_refs_exist(t: Tables, user_id: Seq<char>, req: CreateUserActivityRequest) -> bool {
    &&& user_exists(t.users, user_id)
    &&& media_exists(t.media_items, req.media_id@)
    &&& status_exists(t.statuses, req.status_id)
    &&& (req.source_platform matches Some(p) ==> platform_exists(t.platforms, p@))
}

/// Appending `req` for user `user_id` gave `r` and turned `t` into `t2`: the
/// result is that of an insertion under some 36-character identifier.
pub open spec fn activity_created(
    t: Tables,
    user_id: Seq<char>,
    req: CreateUserActivityRequest,
    r: Result<UserActivity, StoreError>,
    t2: Tables,
) -> bool {
    &&& t2 == after_activity_insert(t, r)
    &&& exists|id: String, uid: String|
        id@.len() == 36 && uid@ == user_id && r == #[trigger] activity_insert_result(t, id, uid, req)
}

/// `a` comes no later than `b` when listing by start date, latest first, the
/// activities without a start date last.
pub open spec fn started_no_earlier(a: UserActivity, b: UserActivity) -> bool {
    match (a.started_at, b.started_at) {
        (Some(x), Some(y)) => text_le(y@, x@),
        (Some(_), None) => true,
        (None, None) => true,
        (None, Some(_)) => false,
    }
}

/// Activities ordered by start date, latest first.
pub open spec fn start_order() -> spec_fn(UserActivity, UserActivity) -> bool {
    |a: UserActivity, b: UserActivity| started_no_earlier(a, b)
}

/// Each activity comes no later than the next one by `started_no_earlier`.
pub open spec fn sorted_by_start_desc(s: Seq<UserActivity>) -> bool {
    sorted_by(s, start_order())
}

/// `r` lists the activities of user `user_id`, each once, latest start first.
pub open spec fn activities_listed(acts: Seq<UserActivity>, user_id: Seq<char>, r: Seq<UserActivity>) -> bool {
    &&& r.len() == acts.filter(activity_of(user_id)).len()
    &&& forall|a: UserActivity| r.contains(a) <==> (acts.contains(a) && a.user_id@ == user_id)
    &&& sorted_by_start_desc(r)
}

// ----- reference tables -----

/// Some media type has this name.
pub open spec fn media_type_named(types: Seq<MediaType>, name: Seq<char>) -> bool {
    exists|i: int| 0 <= i < types.len() && (#[trigger] types[i]).name@ == name
}

/// Some creator role has this name.
pub open spec fn role_named(roles: Seq<CreatorRole>, name: Seq<char>) -> bool {
    exists|i: int| 0 <= i < roles.len() && (#[trigger] roles[i]).role_name@ == name
}

/// Some activity status has this name.
pub open spec fn status_named(statuses: Seq<ActivityStatus>, name: Seq<char>) -> bool {
    exists|i: int| 0 <= i < statuses.len() && (#[trigger] statuses[i]).name@ == name
}

/// Some platform has this name.
pub open spec fn platform_named(platforms: Seq<Platform>, name: Seq<char>) -> bool {
    exists|i: int| 0 <= i < platforms.len() && (#[trigger] platforms[i]).name@ == name
}

/// A user with this name and email and no auth provider exists.
pub open spec fn sample_user_present(users: Seq<User>, name: Seq<char>, email: Seq<char>) -> bool {
    exists|i: int|
        0 <= i < users.len() && (#[trigger] users[i]).name@ == name && users[i].email@ == email
            && users[i].auth_provider is None
}

/// The names of the media types that a first start adds.
pub open spec fn seed_media_types() -> Seq<Seq<char>> {
    seq!["Movie"@, "TV Show"@, "Book"@, "Game"@, "Music"@]
}

/// The names of the creator roles that a first start adds.
pub open spec fn seed_roles() -> Seq<Seq<char>> {
    seq!["Director"@, "Actor"@, "Author"@, "Developer"@, "Artist"@]
}

/// The names of the activity statuses that a first start adds.
pub open spec fn seed_statuses() -> Seq<Seq<char>> {
    seq![
        "Want to Watch/Read/Play"@,
        "Currently Watching/Reading/Playing"@,
        "Completed"@,
        "Dropped"@,
        "On Hold"@,
    ]
}

/// The names of the platforms that a first start adds.
pub open spec fn seed_platforms() -> Seq<Seq<char>> {
    seq!["Netflix"@, "Amazon Prime"@, "Steam"@]
}

/// The (name, email) of each sample user that a first start adds.
pub open spec fn seed_users() -> Seq<(Seq<char>, Seq<char>)> {
    seq![
        ("John Doe"@, "john.doe@example.com"@),
        ("Jane Smith"@, "jane.smith@example.com"@),
        ("Bob Johnson"@, "bob.johnson@example.com"@),
    ]
}

/// Every row that a first start adds is there.
pub open spec fn seeded(t: Tables) -> bool {
    &&& forall|k: int| 0 <= k < 5 ==> media_type_named(t.media_types, #[trigger] seed_media_types()[k])
    &&& forall|k: int| 0 <= k < 5 ==> role_named(t.creator_roles, #[trigger] seed_roles()[k])
    &&& forall|k: int| 0 <= k < 5 ==> status_named(t.statuses, #[trigger] seed_statuses()[k])
    &&& forall|k: int| 0 <= k < 3 ==> platform_named(t.platforms, #[trigger] seed_platforms()[k])
    &&& forall|k: int| 0 <= k < 3 ==> sample_user_present(t.users, (#[trigger] seed_users()[k]).0, seed_users()[k].1)
}

/// No two of the three identifiers are equal and none is a stored platform's.
pub open spec fn platform_ids_fresh(platforms: Seq<Platform>, ids: Seq<String>) -> bool {
    &&& ids.len() == 3
    &&& forall|i: int, j: int| 0 <= i < j < 3 ==> (#[trigger] ids[i])@ != (#[trigger] ids[j])@
    &&& forall|i: int| 0 <= i < 3 ==> !platform_exists(platforms, (#[trigger] ids[i])@)
}

/// No two of the three identifiers are equal and none is a stored user's.
pub open spec fn user_ids_fresh(users: Seq<User>, ids: Seq<String>) -> bool {
    &&& ids.len() == 3
    &&& forall|i: int, j: int| 0 <= i < j < 3 ==> (#[trigger] ids[i])@ != (#[trigger] ids[j])@
    &&& forall|i: int| 0 <= i < 3 ==> !user_exists(users, (#[trigger] ids[i])@)
}

/// Three identifiers of 36 characters, as `fresh_id` draws them.
pub open spec fn drawn_ids(ids: Seq<String>) -> bool {
    ids.len() == 3 && forall|i: int| 0 <= i < 3 ==> (#[trigger] ids[i])@.len() == 36
}

/// Seeding `d` with platform identifiers `pids` and user identifiers `uids`
/// gave `r` and left `d2`.
pub open spec fn seed_outcome(
    d: Database,
    pids: Seq<String>,
    uids: Seq<String>,
    r: Result<(), StoreError>,
    d2: Database,
) -> bool {
    &&& d2@.media_items == d@.media_items
    &&& d2@.ratings == d@.ratings
    &&& d2@.activities == d@.activities
    &&& d@.users.len() > 0 ==> r is Ok && d2@ == d@
    &&& d@.users.len() == 0 && d.seed_room() && platform_ids_fresh(d@.platforms, pids)
        && user_ids_fresh(d@.users, uids) ==> r is Ok
    &&& d@.users.len() == 0 && d.seed_blocked() ==> r == Err::<(), StoreError>(StoreError::IdsExhausted)
    &&& r == Err::<(), StoreError>(StoreError::IdsExhausted) ==> d@.users.len() == 0 && !d.seed_room()
    &&& r == Err::<(), StoreError>(StoreError::DuplicateId) ==> d@.users.len() == 0 && !(platform_ids_fresh(
        d@.platforms,
        pids,
    ) && user_ids_fresh(d@.users, uids))
    &&& r == Err::<(), StoreError>(StoreError::DuplicateId) ==> exists|k: int|
        #![trigger pids[k]]
        #![trigger uids[k]]
        0 <= k < 3 && (platform_exists(d2@.platforms, pids[k]@) || user_exists(d2@.users, uids[k]@))
    &&& r is Err ==> r == Err::<(), StoreError>(StoreError::DuplicateId) || r == Err::<(), StoreError>(
        StoreError::IdsExhausted,
    )
    &&& d@.users.len() == 0 && r is Ok ==> seeded(d2@) && d2@.users.len() == 3 && forall|i: int|
        0 <= i < 3 ==> (#[trigger] d2@.users[i]).user_id == uids[i]
}

/// What inserting a user under `user_id` gives: the email is checked first.
pub open spec fn user_insert_result(t: Tables, user_id: String, req: CreateUserRequest) -> Result<
    User,
    StoreError,
> {
    if email_in_use(t.users, req.email@) {
        Err(StoreError::DuplicateEmail)
    } else if user_exists(t.users, user_id@) {
        Err(StoreError::DuplicateId)
    } else {
        Ok(User { user_id, name: req.name, email: req.email, auth_provider: req.auth_provider })
    }
}

/// The tables after an insertion whose result is `r`.
pub open spec fn after_user_insert(t: Tables, r: Result<User, StoreError>) -> Tables {
    match r {
        Ok(u) => t.with_users(t.users.push(u)),
        Err(_) => t,
    }
}

/// Creating a user from `req` gave `r` and turned `t` into `t2`: the result
/// is that of an insertion under some 36-character identifier, so a
/// duplicate identifier means that a stored user has that identifier.
pub open spec fn user_created(
    t: Tables,
    req: CreateUserRequest,
    r: Result<User, StoreError>,
    t2: Tables,
) -> bool {
    &&& t2 == after_user_insert(t, r)
    &&& exists|id: String| id@.len() == 36 && r == #[trigger] user_insert_result(t, id, req)
}

/// `r` is what a lookup of user `id` returns.
pub open spec fn user_lookup(users: Seq<User>, id: Seq<char>, r: Option<User>) -> bool {
    match r {
        Some(u) => users.contains(u) && u.user_id@ == id,
        None => !user_exists(users, id),
    }
}

/// Users ordered by name.
pub open spec fn name_order() -> spec_fn(User, User) -> bool {
    |a: User, b: User| text_le(a.name@, b.name@)
}

/// Each entry's name comes no later than the next one's.
pub open spec fn sorted_by_name(s: Seq<User>) -> bool {
    sorted_by(s, name_order())
}

/// `r` lists the users of `users`, each once, by name.
pub open spec fn users_listed(users: Seq<User>, r: Seq<User>) -> bool {
    &&& r.len() == users.len()
    &&& forall|u: User| r.contains(u) <==> users.contains(u)
    &&& sorted_by_name(r)
}

/// The user after a partial update: each given field replaces the stored one.
pub open spec fn updated_user(u: User, req: UpdateUserRequest) -> User {
    User {
        user_id: u.user_id,
        name: match req.name {
            Some(n) => n,
            None => u.name,
        },
        email: match req.email {
            Some(e) => e,
            None => u.email,
        },
        auth_provider: match req.auth_provider {
            Some(a) => Some(a),
            None => u.auth_provider,
        },
    }
}

/// Another user than `id` has this email.
pub open spec fn email_used_by_other(users: Seq<User>, email: Seq<char>, id: Seq<char>) -> bool {
    exists|i: int|
        0 <= i < users.len() && (#[trigger] users[i]).email@ == email && users[i].user_id@ != id
}

/// Updating user `id` with `req` gave `r` and turned `t` into `t2`.
pub open spec fn user_updated(
    t: Tables,
    id: Seq<char>,
    req: UpdateUserRequest,
    r: Result<Option<User>, StoreError>,
    t2: Tables,
) -> bool {
    if !user_exists(t.users, id) {
        r == Ok::<Option<User>, StoreError>(None) && t2 == t
    } else if req.email matches Some(e) && email_used_by_other(t.users, e@, id) {
        r == Err::<Option<User>, StoreError>(StoreError::DuplicateEmail) && t2 == t
    } else {
        exists|i: int|
            0 <= i < t.users.len() && (#[trigger] t.users[i]).user_id@ == id && r == Ok::<Option<User>, StoreError>(
                Some(updated_user(t.users[i], req)),
            ) && t2 == t.with_users(t.users.update(i, updated_user(t.users[i], req)))
    }
}

/// The tables once user `id` is gone, with its ratings and activities.
pub open spec fn after_user_delete(t: Tables, id: Seq<char>) -> Tables {
    Tables {
        users: t.users.filter(other_user(id)),
        ratings: t.ratings.filter(rating_of_other(id)),
        activities: t.activities.filter(activity_of_other(id)),
        ..t
    }
}

/// What a sequence holds after an insertion: what it held, and the new entry.
proof fn lemma_insert_contains<A>(s: Seq<A>, p: int, x: A)
    requires
        0 <= p <= s.len(),
    ensures
        forall|y: A| s.insert(p, x).contains(y) <==> (s.contains(y) || y == x),
{
    s.insert_ensures(p, x);
    let t = s.insert(p, x);
    assert forall|y: A| t.contains(y) implies (s.contains(y) || y == x) by {
        let k = choose|k: int| 0 <= k < t.len() && t[k] == y;
        if k < p {
            assert(s[k] == y);
        } else if k > p {
            assert(s[k - 1] == y);
        }
    }
    assert forall|y: A| (s.contains(y) || y == x) implies t.contains(y) by {
        if y == x {
            assert(t[p] == y);
        } else {
            let k = choose|k: int| 0 <= k < s.len() && s[k] == y;
            if k < p {
                assert(t[k] == y);
            } else {
                assert(t[k + 1] == y);
            }
        }
    }
}

/// What a prefix one longer holds: the shorter prefix and the next entry.
proof fn lemma_prefix_push<A>(s: Seq<A>, i: int)
    requires
        0 <= i < s.len(),
    ensures
        forall|y: A| s.subrange(0, i + 1).contains(y) <==> (s.subrange(0, i).contains(y) || y == s[i]),
{
    let s1 = s.subrange(0, i);
    let s2 = s.subrange(0, i + 1);
    assert forall|y: A| s2.contains(y) <==> (s1.contains(y) || y == s[i]) by {
        if y == s[i] {
            assert(s2[i] == y);
        }
        if s1.contains(y) {
            let k = choose|k: int| 0 <= k < i && s1[k] == y;
            assert(s2[k] == y);
        }
        if s2.contains(y) && y != s[i] {
            let k = choose|k: int| 0 <= k < i + 1 && s2[k] == y;
            assert(s1[k] == y);
        }
    }
}

/// The rows of `s` that `keep` accepts, in order. When no two rows of `s`
/// clash, no two of the kept rows do.
fn rows_where<T: Row, F: Fn(&T) -> bool>(
    s: &Vec<T>,
    keep: F,
    Ghost(pred): Ghost<spec_fn(T) -> bool>,
    Ghost(clash): Ghost<spec_fn(T, T) -> bool>,
) -> (r: Vec<T>)
    requires
        forall|x: &T| #[trigger] keep.requires((x,)),
        forall|x: &T, b: bool| keep.ensures((x,), b) ==> b == pred(*x),
        no_clash(s@, clash),
    ensures
        r@ == s@.filter(pred),
        no_clash(r@, clash),
{
    let mut kept: Vec<T> = Vec::new();
    let mut i: usize = 0;
    while i < s.len()
        invariant
            forall|x: &T| #[trigger] keep.requires((x,)),
            forall|x: &T, b: bool| keep.ensures((x,), b) ==> b == pred(*x),
            no_clash(s@, clash),
            i <= s@.len(),
            kept@ == s@.subrange(0, i as int).filter(pred),
            forall|a: int, k: int|
                0 <= a < kept@.len() && i <= k < s@.len() ==> !clash(#[trigger] kept@[a], #[trigger] s@[k]),
            no_clash(kept@, clash),
        decreases s@.len() - i,
    {
        proof {
            let ss = s@.subrange(0, i + 1);
            assert(ss.drop_last() =~= s@.subrange(0, i as int));
            reveal(Seq::filter);
            assert(ss.filter(pred) == if pred(s@[i as int]) {
                ss.drop_last().filter(pred).push(s@[i as int])
            } else {
                ss.drop_last().filter(pred)
            });
        }
        if keep(&s[i]) {
            let ghost before = kept@;
            kept.push(s[i].copy());
            assert(kept@ == before.push(s@[i as int]));
            assert forall|a: int, k: int| 0 <= a < kept@.len() && i + 1 <= k < s@.len() implies !clash(
                kept@[a],
                s@[k],
            ) by {
                if a < before.len() {
                    assert(kept@[a] == before[a]);
                }
            }
            assert forall|a: int, b: int| 0 <= a < b < kept@.len() implies !clash(kept@[a], kept@[b]) by {
                if b == before.len() {
                    assert(kept@[a] == before[a]);
                } else {
                    assert(kept@[a] == before[a] && kept@[b] == before[b]);
                }
            }
        }
        i = i + 1;
    }
    assert(s@.subrange(0, s@.len() as int) =~= s@);
    kept
}

/// Inserts `x` into a list kept in order by `le`, after the entries that
/// come no later.
fn insert_sorted<T, F: Fn(&T, &T) -> bool>(
    out: &mut Vec<T>,
    x: T,
    at_most: F,
    Ghost(le): Ghost<spec_fn(T, T) -> bool>,
)
    requires
        forall|a: &T, b: &T| #[trigger] at_most.requires((a, b)),
        forall|a: &T, b: &T, r: bool| at_most.ensures((a, b), r) ==> r == le(*a, *b),
        total(le),
        sorted_by(old(out)@, le),
    ensures
        sorted_by(final(out)@, le),
        final(out)@.len() == old(out)@.len() + 1,
        forall|y: T| final(out)@.contains(y) <==> (old(out)@.contains(y) || y == x),
{
    let mut p: usize = 0;
    while p < out.len() && at_most(&out[p], &x)
        invariant
            forall|a: &T, b: &T| #[trigger] at_most.requires((a, b)),
            forall|a: &T, b: &T, r: bool| at_most.ensures((a, b), r) ==> r == le(*a, *b),
            p <= out@.len(),
            p > 0 ==> le(out@[p - 1], x),
        decreases out@.len() - p,
    {
        p = p + 1;
    }
    proof {
        if p < out@.len() {
            assert(!le(out@[p as int], x));
            assert(le(out@[p as int], x) || le(x, out@[p as int]));
        }
        lemma_insert_contains(out@, p as int, x);
        out@.insert_ensures(p as int, x);
    }
    let ghost before = out@;
    out.insert(p, x);
    assert forall|k: int| 0 <= k < out@.len() - 1 implies le(#[trigger] out@[k], out@[k + 1]) by {
        if k < p - 1 {
            assert(out@[k] == before[k] && out@[k + 1] == before[k + 1]);
        } else if k > p {
            assert(out@[k] == before[k - 1] && out@[k + 1] == before[k]);
        }
    }
}

/// Whether `a` comes no later than `b` in a listing by start date, latest first.
fn starts_no_earlier(a: &UserActivity, b: &UserActivity) -> (r: bool)
    ensures
        r == started_no_earlier(*a, *b),
{
    match (&a.started_at, &b.started_at) {
        (Some(x), Some(y)) => text_at_most(y.as_str(), x.as_str()),
        (Some(_), None) => true,
        (None, None) => true,
        (None, Some(_)) => false,
    }
}

/// The store. Its tables keep the rules of `Tables::wf`.
#[derive(Clone)]
pub struct Database {
    users: Vec<User>,
    media_types: Vec<MediaType>,
    creator_roles: Vec<CreatorRole>,
    statuses: Vec<ActivityStatus>,
    platforms: Vec<Platform>,
    media_items: Vec<MediaItem>,
    ratings: Vec<Rating>,
    activities: Vec<UserActivity>,
    last_type_id: i32,
    last_role_id: i32,
    last_status_id: i32,
}

impl View for Database {
    type V = Tables;

    closed spec fn view(&self) -> Tables {
        Tables {
            users: self.users@,
            media_types: self.media_types@,
            creator_roles: self.creator_roles@,
            statuses: self.statuses@,
            platforms: self.platforms@,
            media_items: self.media_items@,
            ratings: self.ratings@,
            activities: self.activities@,
        }
    }
}

impl Database {
    /// The tables keep their rules, and each reference table's identifiers are
    /// positive and no greater than the last one handed out.
    pub closed spec fn wf(&self) -> bool {
        &&& self@.wf()
        &&& self.last_type_id >= 0
        &&& self.last_role_id >= 0
        &&& self.last_status_id >= 0
        &&& forall|i: int|
            0 <= i < self.media_types@.len() ==> 0 < (#[trigger] self.media_types@[i]).type_id
                <= self.last_type_id
        &&& forall|i: int|
            0 <= i < self.creator_roles@.len() ==> 0 < (#[trigger] self.creator_roles@[i]).role_id
                <= self.last_role_id
        &&& forall|i: int|
            0 <= i < self.statuses@.len() ==> 0 < (#[trigger] self.statuses@[i]).status_id
                <= self.last_status_id
    }

    /// An empty store.
    pub fn new() -> (r: Database)
        ensures
            r.wf(),
            r@.users.len() == 0,
            r@.media_types.len() == 0,
            r@.creator_roles.len() == 0,
            r@.statuses.len() == 0,
            r@.platforms.len() == 0,
            r@.media_items.len() == 0,
            r@.ratings.len() == 0,
            r@.activities.len() == 0,
            r.next_type_id() == 1,
            r.next_role_id() == 1,
            r.next_status_id() == 1,
    {
        Database {
            users: Vec::new(),
            media_types: Vec::new(),
            creator_roles: Vec::new(),
            statuses: Vec::new(),
            platforms: Vec::new(),
            media_items: Vec::new(),
            ratings: Vec::new(),
            activities: Vec::new(),
            last_type_id: 0,
            last_role_id: 0,
            last_status_id: 0,
        }
    }

    fn user_index(&self, id: &str) -> (r: Option<usize>)
        ensures
            match r {
                Some(i) => i < self@.users.len() && self@.users[i as int].user_id@ == id@,
                None => !user_exists(self@.users, id@),
            },
    {
        let mut i: usize = 0;
        while i < self.users.len()
            invariant
                i <= self.users@.len(),
                forall|j: int| 0 <= j < i ==> (#[trigger] self.users@[j]).user_id@ != id@,
            decreases self.users@.len() - i,
        {
            if same_text(self.users[i].user_id.as_str(), id) {
                return Some(i);
            }
            i = i + 1;
        }
        None
    }

    fn email_index(&self, email: &str) -> (r: Option<usize>)
        ensures
            match r {
                Some(i) => i < self@.users.len() && self@.users[i as int].email@ == email@,
                None => !email_in_use(self@.users, email@),
            },
    {
        let mut i: usize = 0;
        while i < self.users.len()
            invariant
                i <= self.users@.len(),
                forall|j: int| 0 <= j < i ==> (#[trigger] self.users@[j]).email@ != email@,
            decreases self.users@.len() - i,
        {
            if same_text(self.users[i].email.as_str(), email) {
                return Some(i);
            }
            i = i + 1;
        }
        None
    }

    /// Inserts a user under a given identifier.
    pub fn insert_user(&mut self, user_id: String, req: &CreateUserRequest) -> (r: Result<
        User,
        StoreError,
    >)
        requires
            old(self).wf(),
        ensures
            final(self).wf(),
            r == user_insert_result(old(self)@, user_id, *req),
            final(self)@ == after_user_insert(old(self)@, r),
            final(self).next_type_id() == old(self).next_type_id(),
            final(self).next_role_id() == old(self).next_role_id(),
            final(self).next_status_id() == old(self).next_status_id(),
    {
        if self.email_index(req.email.as_str()).is_some() {
            return Err(StoreError::DuplicateEmail);
        }
        if self.user_index(user_id.as_str()).is_some() {
            return Err(StoreError::DuplicateId);
        }
        let u = User {
            user_id,
            name: req.name.clone(),
            email: req.email.clone(),
            auth_provider: copy_opt_text(&req.auth_provider),
        };
        let ghost t = self@;
        self.users.push(u.copy());
        proof {
            assert(self@ == t.with_users(t.users.push(u)));
            assert forall|i: int| 0 <= i < self@.ratings.len() implies user_exists(
                self@.users,
                (#[trigger] self@.ratings[i]).user_id@,
            ) by {
                let k = choose|k: int| 0 <= k < t.users.len() && (#[trigger] t.users[k]).user_id@ == t.ratings[i].user_id@;
                assert(self@.users[k] == t.users[k]);
            }
            assert forall|i: int| 0 <= i < self@.activities.len() implies user_exists(
                self@.users,
                (#[trigger] self@.activities[i]).user_id@,
            ) by {
                let k = choose|k: int| 0 <= k < t.users.len() && (#[trigger] t.users[k]).user_id@ == t.activities[i].user_id@;
                assert(self@.users[k] == t.users[k]);
            }
        }
        Ok(u)
    }

    /// Creates a user under a fresh random identifier.
    pub fn create_user(&mut self, req: &CreateUserRequest) -> (r: Result<User, StoreError>)
        requires
            old(self).wf(),
        ensures
            final(self).wf(),
            user_created(old(self)@, *req, r, final(self)@),
    {
        let id = fresh_id();
        self.insert_user(id, req)
    }

    /// The user with this identifier, if any.
    pub fn get_user(&self, id: &str) -> (r: Option<User>)
        requires
            self.wf(),
        ensures
            user_lookup(self@.users, id@, r),
    {
        match self.user_index(id) {
            Some(i) => {
                let u = self.users[i].copy();
                assert(self@.users[i as int] == u);
                Some(u)
            },
            None => None,
        }
    }

    /// Every user, ordered by name.
    pub fn get_all_users(&self) -> (r: Vec<User>)
        requires
            self.wf(),
        ensures
            users_listed(self@.users, r@),
    {
        let mut out: Vec<User> = Vec::new();
        let mut i: usize = 0;
        while i < self.users.len()
            invariant
                i <= self.users@.len(),
                out@.len() == i,
                forall|u: User| out@.contains(u) <==> self.users@.subrange(0, i as int).contains(u),
                sorted_by_name(out@),
            decreases self.users@.len() - i,
        {
            let u = self.users[i].copy();
            proof {
                lemma_prefix_push(self.users@, i as int);
            }
            proof {
                assert forall|a: User, b: User| #![trigger name_order()(a, b)] name_order()(a, b) || name_order()(b, a) by {
                    lemma_text_le_total(a.name@, b.name@);
                }
            }
            insert_sorted(
                &mut out,
                u,
                |a: &User, b: &User| -> (r: bool) ensures r == text_le(a.name@, b.name@) { text_at_most(a.name.as_str(), b.name.as_str()) },
                Ghost(name_order()),
            );
            i = i + 1;
        }
        assert(self.users@.subrange(0, self.users@.len() as int) =~= self.users@);
        out
    }

    /// Updates the fields of user `id` that `req` gives, all of them or none.
    pub fn update_user(&mut self, id: &str, req: &UpdateUserRequest) -> (r: Result<
        Option<User>,
        StoreError,
    >)
        requires
            old(self).wf(),
        ensures
            final(self).wf(),
            user_updated(old(self)@, id@, *req, r, final(self)@),
    {
        let i = match self.user_index(id) {
            Some(i) => i,
            None => return Ok(None),
        };
        if let Some(e) = &req.email {
            match self.email_index(e.as_str()) {
                Some(j) => {
                    if j != i {
                        assert(email_used_by_other(self@.users, e@, id@)) by {
                            assert(self@.users_wf());
                            assert(self@.users[j as int].user_id@ != self@.users[i as int].user_id@);
                        }
                        return Err(StoreError::DuplicateEmail);
                    }
                },
                None => {},
            }
            assert(!email_used_by_other(self@.users, e@, id@)) by {
                if email_used_by_other(self@.users, e@, id@) {
                    let k = choose|k: int| 0 <= k < self@.users.len() && (#[trigger] self@.users[k]).email@ == e@ && self@.users[k].user_id@ != id@;
                    assert(self@.users_wf());
                    if k != i {
                        assert(self@.users[k].email@ != self@.users[i as int].email@ || k == i);
                    }
                }
            }
        }
        let old_u = self.users[i].copy();
        let nu = User {
            user_id: old_u.user_id,
            name: match &req.name {
                Some(n) => n.clone(),
                None => old_u.name,
            },
            email: match &req.email {
                Some(e) => e.clone(),
                None => old_u.email,
            },
            auth_provider: match &req.auth_provider {
                Some(a) => Some(a.clone()),
                None => old_u.auth_provider,
            },
        };
        let ghost t = self@;
        assert(nu == updated_user(t.users[i as int], *req));
        self.users.set(i, nu.copy());
        proof {
            assert(self@ == t.with_users(t.users.update(i as int, nu)));
            assert forall|a: int, b: int| 0 <= a < b < self@.users.len() implies (#[trigger] self@.users[a]).user_id@
                != (#[trigger] self@.users[b]).user_id@ && self@.users[a].email@ != self@.users[b].email@ by {
                if a == i {
                    if req.email is Some {
                        assert(!(self@.users[b].email@ == nu.email@ && self@.users[b].user_id@ != id@));
                    }
                } else if b == i {
                    if req.email is Some {
                        assert(!(self@.users[a].email@ == nu.email@ && self@.users[a].user_id@ != id@));
                    }
                }
            }
            assert forall|k: int| 0 <= k < self@.ratings.len() implies user_exists(
                self@.users,
                (#[trigger] self@.ratings[k]).user_id@,
            ) by {
                let m = choose|m: int| 0 <= m < t.users.len() && (#[trigger] t.users[m]).user_id@ == t.ratings[k].user_id@;
                assert(self@.users[m].user_id@ == t.users[m].user_id@);
            }
            assert forall|k: int| 0 <= k < self@.activities.len() implies user_exists(
                self@.users,
                (#[trigger] self@.activities[k]).user_id@,
            ) by {
                let m = choose|m: int| 0 <= m < t.users.len() && (#[trigger] t.users[m]).user_id@ == t.activities[k].user_id@;
                assert(self@.users[m].user_id@ == t.users[m].user_id@);
            }
        }
        Ok(Some(nu))
    }

    /// Deletes user `id` with its ratings and activities; tells whether the
    /// user existed.
    pub fn delete_user(&mut self, id: &str) -> (r: bool)
        requires
            old(self).wf(),
        ensures
            final(self).wf(),
            r == user_exists(old(self)@.users, id@),
            final(self)@ == after_user_delete(old(self)@, id@),
    {
        let found = self.user_index(id).is_some();
        let ghost t = self@;
        assert(t.users_wf() && t.ratings_wf() && t.activities_wf());
        let users = rows_where(
            &self.users,
            |u: &User| -> (b: bool) ensures b == (u.user_id@ != id@) { !same_text(u.user_id.as_str(), id) },
            Ghost(other_user(id@)),
            Ghost(user_clash()),
        );
        let ratings = rows_where(
            &self.ratings,
            |x: &Rating| -> (b: bool) ensures b == (x.user_id@ != id@) { !same_text(x.user_id.as_str(), id) },
            Ghost(rating_of_other(id@)),
            Ghost(rating_clash()),
        );
        let activities = rows_where(
            &self.activities,
            |x: &UserActivity| -> (b: bool) ensures b == (x.user_id@ != id@) { !same_text(x.user_id.as_str(), id) },
            Ghost(activity_of_other(id@)),
            Ghost(activity_clash()),
        );
        self.users = users;
        self.ratings = ratings;
        self.activities = activities;
        proof {
            let t2 = self@;
            assert(t2 == after_user_delete(t, id@));
            let up = other_user(id@);
            let rp = rating_of_other(id@);
            let ap = activity_of_other(id@);
            assert forall|k: int| 0 <= k < t2.ratings.len() implies user_exists(
                t2.users,
                (#[trigger] t2.ratings[k]).user_id@,
            ) && media_exists(t2.media_items, t2.ratings[k].media_id@) by {
                let x = t2.ratings[k];
                assert(t2.ratings.contains(x));
                t.ratings.lemma_filter_contains_rev(rp, x);
                t.ratings.lemma_filter_pred(rp, k);
                let n = choose|n: int| 0 <= n < t.ratings.len() && t.ratings[n] == x;
                assert(user_exists(t.users, t.ratings[n].user_id@));
                let m = choose|m: int| 0 <= m < t.users.len() && (#[trigger] t.users[m]).user_id@ == x.user_id@;
                t.users.lemma_filter_contains(up, m);
                let q = choose|q: int| 0 <= q < t2.users.len() && t2.users[q] == t.users[m];
                assert(t2.users[q].user_id@ == x.user_id@);
            }
            assert forall|k: int| 0 <= k < t2.activities.len() implies {
                let a = #[trigger] t2.activities[k];
                &&& user_exists(t2.users, a.user_id@)
                &&& media_exists(t2.media_items, a.media_id@)
                &&& status_exists(t2.statuses, a.status_id)
                &&& (a.source_platform matches Some(p) ==> platform_exists(t2.platforms, p@))
            } by {
                let x = t2.activities[k];
                assert(t2.activities.contains(x));
                t.activities.lemma_filter_contains_rev(ap, x);
                t.activities.lemma_filter_pred(ap, k);
                let n = choose|n: int| 0 <= n < t.activities.len() && t.activities[n] == x;
                assert(user_exists(t.users, t.activities[n].user_id@));
                let m = choose|m: int| 0 <= m < t.users.len() && (#[trigger] t.users[m]).user_id@ == x.user_id@;
                t.users.lemma_filter_contains(up, m);
                let q = choose|q: int| 0 <= q < t2.users.len() && t2.users[q] == t.users[m];
                assert(t2.users[q].user_id@ == x.user_id@);
            }
        }
        found
    }

    fn media_index(&self, id: &str) -> (r: Option<usize>)
        ensures
            match r {
                Some(i) => i < self@.media_items.len() && self@.media_items[i as int].media_id@ == id@,
                None => !media_exists(self@.media_items, id@),
            },
    {
        let mut i: usize = 0;
        while i < self.media_items.len()
            invariant
                i <= self.media_items@.len(),
                forall|j: int| 0 <= j < i ==> (#[trigger] self.media_items@[j]).media_id@ != id@,
            decreases self.media_items@.len() - i,
        {
            if same_text(self.media_items[i].media_id.as_str(), id) {
                return Some(i);
            }
            i = i + 1;
        }
        None
    }

    fn has_media_type(&self, id: i32) -> (r: bool)
        ensures
            r == media_type_exists(self@.media_types, id),
    {
        let mut i: usize = 0;
        while i < self.media_types.len()
            invariant
                i <= self.media_types@.len(),
                forall|j: int| 0 <= j < i ==> (#[trigger] self.media_types@[j]).type_id != id,
            decreases self.media_types@.len() - i,
        {
            if self.media_types[i].type_id == id {
                return true;
            }
            i = i + 1;
        }
        false
    }

    fn has_status(&self, id: i32) -> (r: bool)
        ensures
            r == status_exists(self@.statuses, id),
    {
        let mut i: usize = 0;
        while i < self.statuses.len()
            invariant
                i <= self.statuses@.len(),
                forall|j: int| 0 <= j < i ==> (#[trigger] self.statuses@[j]).status_id != id,
            decreases self.statuses@.len() - i,
        {
            if self.statuses[i].status_id == id {
                return true;
            }
            i = i + 1;
        }
        false
    }

    fn has_platform(&self, id: &str) -> (r: bool)
        ensures
            r == platform_exists(self@.platforms, id@),
    {
        let mut i: usize = 0;
        while i < self.platforms.len()
            invariant
                i <= self.platforms@.len(),
                forall|j: int| 0 <= j < i ==> (#[trigger] self.platforms@[j]).platform_id@ != id@,
            decreases self.platforms@.len() - i,
        {
            if same_text(self.platforms[i].platform_id.as_str(), id) {
                return true;
            }
            i = i + 1;
        }
        false
    }

    fn has_activity(&self, id: &str) -> (r: bool)
        ensures
            r == activity_exists(self@.activities, id@),
    {
        let mut i: usize = 0;
        while i < self.activities.len()
            invariant
                i <= self.activities@.len(),
                forall|j: int| 0 <= j < i ==> (#[trigger] self.activities@[j]).activity_id@ != id@,
            decreases self.activities@.len() - i,
        {
            if same_text(self.activities[i].activity_id.as_str(), id) {
                return true;
            }
            i = i + 1;
        }
        false
    }

    /// Inserts a media item under a given identifier; its type must exist.
    pub fn insert_media_item(&mut self, media_id: String, req: &CreateMediaItemRequest) -> (r: Result<
        MediaItem,
        StoreError,
    >)
        requires
            old(self).wf(),
        ensures
            final(self).wf(),
            r == media_insert_result(old(self)@, media_id, *req),
            final(self)@ == after_media_insert(old(self)@, r),
    {
        if !self.has_media_type(req.type_id) {
            return Err(StoreError::MissingReference);
        }
        if self.media_index(media_id.as_str()).is_some() {
            return Err(StoreError::DuplicateId);
        }
        let m = MediaItem {
            media_id,
            title: req.title.clone(),
            type_id: req.type_id,
            release_date: copy_opt_text(&req.release_date),
            description: copy_opt_text(&req.description),
            cover_url: copy_opt_text(&req.cover_url),
        };
        let ghost t = self@;
        self.media_items.push(m.copy());
        proof {
            assert(self@ == t.with_media_items(t.media_items.push(m)));
            assert forall|i: int| 0 <= i < self@.ratings.len() implies media_exists(
                self@.media_items,
                (#[trigger] self@.ratings[i]).media_id@,
            ) by {
                let k = choose|k: int| 0 <= k < t.media_items.len() && (#[trigger] t.media_items[k]).media_id@ == t.ratings[i].media_id@;
                assert(self@.media_items[k] == t.media_items[k]);
            }
            assert forall|i: int| 0 <= i < self@.activities.len() implies media_exists(
                self@.media_items,
                (#[trigger] self@.activities[i]).media_id@,
            ) by {
                let k = choose|k: int| 0 <= k < t.media_items.len() && (#[trigger] t.media_items[k]).media_id@ == t.activities[i].media_id@;
                assert(self@.media_items[k] == t.media_items[k]);
            }
        }
        Ok(m)
    }

    /// Creates a media item under a fresh random identifier.
    pub fn create_media_item(&mut self, req: &CreateMediaItemRequest) -> (r: Result<MediaItem, StoreError>)
        requires
            old(self).wf(),
        ensures
            final(self).wf(),
            media_created(old(self)@, *req, r, final(self)@),
    {
        let id = fresh_id();
        self.insert_media_item(id, req)
    }

    /// The media item with this identifier, if any.
    pub fn get_media_item(&self, id: &str) -> (r: Option<MediaItem>)
        requires
            self.wf(),
        ensures
            media_lookup(self@.media_items, id@, r),
    {
        match self.media_index(id) {
            Some(i) => {
                let m = self.media_items[i].copy();
                assert(self@.media_items[i as int] == m);
                Some(m)
            },
            None => None,
        }
    }

    /// Every media item, ordered by title.
    pub fn get_all_media_items(&self) -> (r: Vec<MediaItem>)
        requires
            self.wf(),
        ensures
            media_listed(self@.media_items, r@),
    {
        let mut out: Vec<MediaItem> = Vec::new();
        let mut i: usize = 0;
        while i < self.media_items.len()
            invariant
                i <= self.media_items@.len(),
                out@.len() == i,
                forall|m: MediaItem| out@.contains(m) <==> self.media_items@.subrange(0, i as int).contains(m),
                sorted_by_title(out@),
            decreases self.media_items@.len() - i,
        {
            let m = self.media_items[i].copy();
            proof {
                lemma_prefix_push(self.media_items@, i as int);
            }
            proof {
                assert forall|a: MediaItem, b: MediaItem| #![trigger title_order()(a, b)] title_order()(a, b) || title_order()(b, a) by {
                    lemma_text_le_total(a.title@, b.title@);
                }
            }
            insert_sorted(
                &mut out,
                m,
                |a: &MediaItem, b: &MediaItem| -> (r: bool) ensures r == text_le(a.title@, b.title@) { text_at_most(a.title.as_str(), b.title.as_str()) },
                Ghost(title_order()),
            );
            i = i + 1;
        }
        assert(self.media_items@.subrange(0, self.media_items@.len() as int) =~= self.media_items@);
        out
    }

    /// Records the rating of user `user_id` with the timestamp `rated_at`,
    /// replacing any earlier rating of the same pair.
    pub fn upsert_rating(&mut self, user_id: String, req: &CreateRatingRequest, rated_at: String) -> (r: Result<
        Rating,
        StoreError,
    >)
        requires
            old(self).wf(),
        ensures
            final(self).wf(),
            r == rating_upsert_result(old(self)@, user_id, *req, rated_at),
            final(self)@ == after_rating_upsert(old(self)@, r),
    {
        if self.user_index(user_id.as_str()).is_none() || self.media_index(req.media_id.as_str()).is_none() {
            return Err(StoreError::MissingReference);
        }
        let x = Rating { user_id, media_id: req.media_id.clone(), score: req.score, rated_at };
        let ghost t = self@;
        assert(t.ratings_wf());
        let uid = x.user_id.as_str();
        let mid = x.media_id.as_str();
        let mut kept = rows_where(
            &self.ratings,
            |y: &Rating| -> (b: bool) ensures b == !rating_of(*y, uid@, mid@) { !(same_text(y.user_id.as_str(), uid) && same_text(y.media_id.as_str(), mid)) },
            Ghost(other_pair(x.user_id@, x.media_id@)),
            Ghost(rating_clash()),
        );
        let ghost pred = other_pair(x.user_id@, x.media_id@);
        let ghost kept0 = kept@;
        kept.push(x.copy());
        self.ratings = kept;
        proof {
            let t2 = self@;
            assert(t2 == t.with_ratings(t.ratings.filter(pred).push(x)));
            assert forall|a: int, b: int| 0 <= a < b < t2.ratings.len() implies !rating_of(
                #[trigger] t2.ratings[a],
                (#[trigger] t2.ratings[b]).user_id@,
                t2.ratings[b].media_id@,
            ) by {
                assert(t2.ratings[a] == kept0[a]);
                if b == kept0.len() {
                    t.ratings.lemma_filter_pred(pred, a);
                } else {
                    assert(t2.ratings[b] == kept0[b]);
                }
            }
            assert forall|k: int| 0 <= k < t2.ratings.len() implies user_exists(
                t2.users,
                (#[trigger] t2.ratings[k]).user_id@,
            ) && media_exists(t2.media_items, t2.ratings[k].media_id@) by {
                if k < kept0.len() {
                    let y = t2.ratings[k];
                    assert(kept0[k] == y);
                    assert(kept0.contains(y));
                    t.ratings.lemma_filter_contains_rev(pred, y);
                    let n = choose|n: int| 0 <= n < t.ratings.len() && t.ratings[n] == y;
                    assert(user_exists(t.users, t.ratings[n].user_id@));
                }
            }
        }
        Ok(x)
    }

    /// Records a rating stamped with the current time, replacing any earlier
    /// rating of the same pair.
    pub fn create_rating(&mut self, user_id: &str, req: &CreateRatingRequest) -> (r: Result<Rating, StoreError>)
        requires
            old(self).wf(),
        ensures
            final(self).wf(),
            rating_submitted(old(self)@, user_id@, *req, r, final(self)@),
    {
        let now = now_timestamp();
        self.upsert_rating(user_id.to_owned(), req, now)
    }

    /// The rating of user `user_id` for media item `media_id`, if any.
    pub fn get_user_rating(&self, user_id: &str, media_id: &str) -> (r: Option<Rating>)
        requires
            self.wf(),
        ensures
            rating_lookup(self@.ratings, user_id@, media_id@, r),
    {
        let mut i: usize = 0;
        while i < self.ratings.len()
            invariant
                i <= self.ratings@.len(),
                forall|j: int| 0 <= j < i ==> !rating_of(#[trigger] self.ratings@[j], user_id@, media_id@),
            decreases self.ratings@.len() - i,
        {
            if same_text(self.ratings[i].user_id.as_str(), user_id) && same_text(self.ratings[i].media_id.as_str(), media_id) {
                let x = self.ratings[i].copy();
                assert(self@.ratings[i as int] == x);
                return Some(x);
            }
            i = i + 1;
        }
        None
    }

    /// Appends an activity under a given identifier; every reference must exist.
    pub fn insert_activity(&mut self, activity_id: String, user_id: String, req: &CreateUserActivityRequest) -> (r: Result<
        UserActivity,
        StoreError,
    >)
        requires
            old(self).wf(),
        ensures
            final(self).wf(),
            r == activity_insert_result(old(self)@, activity_id, user_id, *req),
            final(self)@ == after_activity_insert(old(self)@, r),
    {
        let platform_ok = match &req.source_platform {
            Some(p) => self.has_platform(p.as_str()),
            None => true,
        };
        if self.user_index(user_id.as_str()).is_none() || self.media_index(req.media_id.as_str()).is_none()
            || !self.has_status(req.status_id) || !platform_ok {
            return Err(StoreError::MissingReference);
        }
        if self.has_activity(activity_id.as_str()) {
            return Err(StoreError::DuplicateId);
        }
        let a = UserActivity {
            activity_id,
            user_id,
            media_id: req.media_id.clone(),
            status_id: req.status_id,
            rating: req.rating,
            review: copy_opt_text(&req.review),
            started_at: copy_opt_text(&req.started_at),
            finished_at: copy_opt_text(&req.finished_at),
            source_platform: copy_opt_text(&req.source_platform),
        };
        let ghost t = self@;
        self.activities.push(a.copy());
        proof {
            assert(self@ == t.with_activities(t.activities.push(a)));
            assert forall|i: int, j: int|
                0 <= i < j < self@.activities.len() implies (#[trigger] self@.activities[i]).activity_id@
                    != (#[trigger] self@.activities[j]).activity_id@ by {
                if j == t.activities.len() {
                    assert(self@.activities[i] == t.activities[i]);
                } else {
                    assert(self@.activities[i] == t.activities[i] && self@.activities[j] == t.activities[j]);
                }
            }
            assert forall|i: int| 0 <= i < self@.activities.len() implies {
                let x = #[trigger] self@.activities[i];
                &&& user_exists(self@.users, x.user_id@)
                &&& media_exists(self@.media_items, x.media_id@)
                &&& status_exists(self@.statuses, x.status_id)
                &&& (x.source_platform matches Some(p) ==> platform_exists(self@.platforms, p@))
            } by {
                if i < t.activities.len() {
                    assert(self@.activities[i] == t.activities[i]);
                }
            }
        }
        Ok(a)
    }

    /// Appends an activity of user `user_id` under a fresh random identifier;
    /// earlier activities of the same pair stay.
    pub fn create_user_activity(&mut self, user_id: &str, req: &CreateUserActivityRequest) -> (r: Result<
        UserActivity,
        StoreError,
    >)
        requires
            old(self).wf(),
        ensures
            final(self).wf(),
            activity_created(old(self)@, user_id@, *req, r, final(self)@),
    {
        let id = fresh_id();
        self.insert_activity(id, user_id.to_owned(), req)
    }

    /// The activities of user `user_id`, latest start first.
    pub fn get_user_activities(&self, user_id: &str) -> (r: Vec<UserActivity>)
        requires
            self.wf(),
        ensures
            activities_listed(self@.activities, user_id@, r@),
    {
        let ghost pred = activity_of(user_id@);
        let mut out: Vec<UserActivity> = Vec::new();
        let mut i: usize = 0;
        while i < self.activities.len()
            invariant
                pred == activity_of(user_id@),
                i <= self.activities@.len(),
                out@.len() == self.activities@.subrange(0, i as int).filter(pred).len(),
                forall|a: UserActivity| out@.contains(a) <==> (self.activities@.subrange(0, i as int).contains(a) && a.user_id@ == user_id@),
                sorted_by_start_desc(out@),
            decreases self.activities@.len() - i,
        {
            proof {
                let ss = self.activities@.subrange(0, i + 1);
                assert(ss.drop_last() =~= self.activities@.subrange(0, i as int));
                reveal(Seq::filter);
                assert(ss.filter(pred) == if pred(self.activities@[i as int]) {
                    ss.drop_last().filter(pred).push(self.activities@[i as int])
                } else {
                    ss.drop_last().filter(pred)
                });
                lemma_prefix_push(self.activities@, i as int);
            }
            if same_text(self.activities[i].user_id.as_str(), user_id) {
                let a = self.activities[i].copy();
                proof {
                    assert forall|x: UserActivity, y: UserActivity| #![trigger start_order()(x, y)] start_order()(x, y) || start_order()(y, x) by {
                        if x.started_at is Some && y.started_at is Some {
                            lemma_text_le_total(x.started_at->Some_0@, y.started_at->Some_0@);
                        }
                    }
                }
                insert_sorted(
                    &mut out,
                    a,
                    |x: &UserActivity, y: &UserActivity| -> (r: bool) ensures r == started_no_earlier(*x, *y) { starts_no_earlier(x, y) },
                    Ghost(start_order()),
                );
            }
            i = i + 1;
        }
        assert(self.activities@.subrange(0, self.activities@.len() as int) =~= self.activities@);
        out
    }

    /// A well-formed store keeps the rules of its tables.
    pub proof fn lemma_tables_wf(&self)
        requires
            self.wf(),
        ensures
            self@.wf(),
    {
    }

    /// The identifier that the next media type will get.
    pub closed spec fn next_type_id(&self) -> int {
        self.last_type_id + 1
    }

    /// The identifier that the next creator role will get.
    pub closed spec fn next_role_id(&self) -> int {
        self.last_role_id + 1
    }

    /// The identifier that the next activity status will get.
    pub closed spec fn next_status_id(&self) -> int {
        self.last_status_id + 1
    }

    /// Adds a media type unless one of that name exists; tells whether it
    /// added one. Identifiers count up from 1 and are never reused.
    pub fn add_media_type(&mut self, name: String) -> (r: Result<bool, StoreError>)
        requires
            old(self).wf(),
        ensures
            final(self).wf(),
            r is Ok ==> media_type_named(final(self)@.media_types, name@),
            r != Ok::<bool, StoreError>(true) ==> final(self).next_type_id() == old(self).next_type_id(),
            forall|n: Seq<char>| media_type_named(old(self)@.media_types, n) ==> #[trigger] media_type_named(final(self)@.media_types, n),
            media_type_named(old(self)@.media_types, name@) ==> r == Ok::<bool, StoreError>(false)
                && final(self)@ == old(self)@,
            !media_type_named(old(self)@.media_types, name@) && old(self).next_type_id() > i32::MAX
                ==> r == Err::<bool, StoreError>(StoreError::IdsExhausted) && final(self)@ == old(self)@,
            !media_type_named(old(self)@.media_types, name@) && old(self).next_type_id() <= i32::MAX
                ==> r == Ok::<bool, StoreError>(true) && final(self).next_type_id() == old(self).next_type_id() + 1
                && final(self)@ == old(self)@.with_media_types(
                old(self)@.media_types.push(MediaType { type_id: old(self).next_type_id() as i32, name }),
            ),
            final(self).next_role_id() == old(self).next_role_id(),
            final(self).next_status_id() == old(self).next_status_id(),
    {
        let mut i: usize = 0;
        while i < self.media_types.len()
            invariant
                *self == *old(self),
                self.wf(),
                i <= self.media_types@.len(),
                forall|j: int| 0 <= j < i ==> (#[trigger] self.media_types@[j]).name@ != name@,
            decreases self.media_types@.len() - i,
        {
            if same_text(self.media_types[i].name.as_str(), name.as_str()) {
                return Ok(false);
            }
            i = i + 1;
        }
        if self.last_type_id == i32::MAX {
            return Err(StoreError::IdsExhausted);
        }
        let id = self.last_type_id + 1;
        let ghost t = self@;
        self.media_types.push(MediaType { type_id: id, name });
        self.last_type_id = id;
        assert(self@ == t.with_media_types(t.media_types.push(self@.media_types.last())));
        assert forall|n: Seq<char>| media_type_named(t.media_types, n) implies #[trigger] media_type_named(self@.media_types, n) by {
            let m = choose|m: int| 0 <= m < t.media_types.len() && (#[trigger] t.media_types[m]).name@ == n;
            assert(self@.media_types[m] == t.media_types[m]);
        }
        assert(media_type_named(self@.media_types, name@)) by {
            assert(self@.media_types[self@.media_types.len() - 1].name@ == name@);
        }
        assert forall|k: int| 0 <= k < self@.media_items.len() implies media_type_exists(
            self@.media_types,
            (#[trigger] self@.media_items[k]).type_id,
        ) by {
            let m = choose|m: int| 0 <= m < t.media_types.len() && (#[trigger] t.media_types[m]).type_id == t.media_items[k].type_id;
            assert(self@.media_types[m] == t.media_types[m]);
        }
        Ok(true)
    }

    /// Adds a creator role unless one of that name exists; tells whether it
    /// added one. Identifiers count up from 1 and are never reused.
    pub fn add_creator_role(&mut self, name: String) -> (r: Result<bool, StoreError>)
        requires
            old(self).wf(),
        ensures
            final(self).wf(),
            r is Ok ==> role_named(final(self)@.creator_roles, name@),
            r != Ok::<bool, StoreError>(true) ==> final(self).next_role_id() == old(self).next_role_id(),
            forall|n: Seq<char>| role_named(old(self)@.creator_roles, n) ==> #[trigger] role_named(final(self)@.creator_roles, n),
            role_named(old(self)@.creator_roles, name@) ==> r == Ok::<bool, StoreError>(false)
                && final(self)@ == old(self)@,
            !role_named(old(self)@.creator_roles, name@) && old(self).next_role_id() > i32::MAX
                ==> r == Err::<bool, StoreError>(StoreError::IdsExhausted) && final(self)@ == old(self)@,
            !role_named(old(self)@.creator_roles, name@) && old(self).next_role_id() <= i32::MAX
                ==> r == Ok::<bool, StoreError>(true) && final(self).next_role_id() == old(self).next_role_id() + 1
                && final(self)@ == old(self)@.with_creator_roles(
                old(self)@.creator_roles.push(CreatorRole { role_id: old(self).next_role_id() as i32, role_name: name }),
            ),
            final(self).next_type_id() == old(self).next_type_id(),
            final(self).next_status_id() == old(self).next_status_id(),
    {
        let mut i: usize = 0;
        while i < self.creator_roles.len()
            invariant
                *self == *old(self),
                self.wf(),
                i <= self.creator_roles@.len(),
                forall|j: int| 0 <= j < i ==> (#[trigger] self.creator_roles@[j]).role_name@ != name@,
            decreases self.creator_roles@.len() - i,
        {
            if same_text(self.creator_roles[i].role_name.as_str(), name.as_str()) {
                return Ok(false);
            }
            i = i + 1;
        }
        if self.last_role_id == i32::MAX {
            return Err(StoreError::IdsExhausted);
        }
        let id = self.last_role_id + 1;
        let ghost t = self@;
        self.creator_roles.push(CreatorRole { role_id: id, role_name: name });
        self.last_role_id = id;
        assert(self@ == t.with_creator_roles(t.creator_roles.push(self@.creator_roles.last())));
        assert forall|n: Seq<char>| role_named(t.creator_roles, n) implies #[trigger] role_named(self@.creator_roles, n) by {
            let m = choose|m: int| 0 <= m < t.creator_roles.len() && (#[trigger] t.creator_roles[m]).role_name@ == n;
            assert(self@.creator_roles[m] == t.creator_roles[m]);
        }
        assert(role_named(self@.creator_roles, name@)) by {
            assert(self@.creator_roles[self@.creator_roles.len() - 1].role_name@ == name@);
        }
        Ok(true)
    }

    /// Adds an activity status unless one of that name exists; tells whether
    /// it added one. Identifiers count up from 1 and are never reused.
    pub fn add_activity_status(&mut self, name: String) -> (r: Result<bool, StoreError>)
        requires
            old(self).wf(),
        ensures
            final(self).wf(),
            r is Ok ==> status_named(final(self)@.statuses, name@),
            r != Ok::<bool, StoreError>(true) ==> final(self).next_status_id() == old(self).next_status_id(),
            forall|n: Seq<char>| status_named(old(self)@.statuses, n) ==> #[trigger] status_named(final(self)@.statuses, n),
            status_named(old(self)@.statuses, name@) ==> r == Ok::<bool, StoreError>(false)
                && final(self)@ == old(self)@,
            !status_named(old(self)@.statuses, name@) && old(self).next_status_id() > i32::MAX
                ==> r == Err::<bool, StoreError>(StoreError::IdsExhausted) && final(self)@ == old(self)@,
            !status_named(old(self)@.statuses, name@) && old(self).next_status_id() <= i32::MAX
                ==> r == Ok::<bool, StoreError>(true) && final(self).next_status_id() == old(self).next_status_id() + 1
                && final(self)@ == old(self)@.with_statuses(
                old(self)@.statuses.push(ActivityStatus { status_id: old(self).next_status_id() as i32, name }),
            ),
            final(self).next_type_id() == old(self).next_type_id(),
            final(self).next_role_id() == old(self).next_role_id(),
    {
        let mut i: usize = 0;
        while i < self.statuses.len()
            invariant
                *self == *old(self),
                self.wf(),
                i <= self.statuses@.len(),
                forall|j: int| 0 <= j < i ==> (#[trigger] self.statuses@[j]).name@ != name@,
            decreases self.statuses@.len() - i,
        {
            if same_text(self.statuses[i].name.as_str(), name.as_str()) {
                return Ok(false);
            }
            i = i + 1;
        }
        if self.last_status_id == i32::MAX {
            return Err(StoreError::IdsExhausted);
        }
        let id = self.last_status_id + 1;
        let ghost t = self@;
        self.statuses.push(ActivityStatus { status_id: id, name });
        self.last_status_id = id;
        assert(self@ == t.with_statuses(t.statuses.push(self@.statuses.last())));
        assert forall|n: Seq<char>| status_named(t.statuses, n) implies #[trigger] status_named(self@.statuses, n) by {
            let m = choose|m: int| 0 <= m < t.statuses.len() && (#[trigger] t.statuses[m]).name@ == n;
            assert(self@.statuses[m] == t.statuses[m]);
        }
        assert(status_named(self@.statuses, name@)) by {
            assert(self@.statuses[self@.statuses.len() - 1].name@ == name@);
        }
        assert forall|k: int| 0 <= k < self@.activities.len() implies status_exists(
            self@.statuses,
            (#[trigger] self@.activities[k]).status_id,
        ) && user_exists(self@.users, self@.activities[k].user_id@)
            && media_exists(self@.media_items, self@.activities[k].media_id@)
            && (self@.activities[k].source_platform matches Some(p) ==> platform_exists(self@.platforms, p@)) by {
            let m = choose|m: int| 0 <= m < t.statuses.len() && (#[trigger] t.statuses[m]).status_id == t.activities[k].status_id;
            assert(self@.statuses[m] == t.statuses[m]);
        }
        Ok(true)
    }

    /// Adds a platform unless one with that identifier or that name exists;
    /// tells whether it added one.
    pub fn add_platform(&mut self, platform_id: String, name: String, base_url: Option<String>) -> (r: Result<bool, StoreError>)
        requires
            old(self).wf(),
        ensures
            final(self).wf(),
            platform_named(old(self)@.platforms, name@) ==> r == Ok::<bool, StoreError>(false)
                && final(self)@ == old(self)@,
            !platform_named(old(self)@.platforms, name@) && platform_exists(old(self)@.platforms, platform_id@)
                ==> r == Err::<bool, StoreError>(StoreError::DuplicateId) && final(self)@ == old(self)@,
            !platform_named(old(self)@.platforms, name@) && !platform_exists(old(self)@.platforms, platform_id@)
                ==> r == Ok::<bool, StoreError>(true) && final(self)@ == old(self)@.with_platforms(
                old(self)@.platforms.push(Platform { platform_id, name, base_url }),
            ),
            r is Ok ==> platform_named(final(self)@.platforms, name@),
            forall|n: Seq<char>| platform_named(old(self)@.platforms, n) ==> #[trigger] platform_named(final(self)@.platforms, n),
            forall|x: Seq<char>| #[trigger] platform_exists(final(self)@.platforms, x) ==> platform_exists(
                old(self)@.platforms,
                x,
            ) || x == platform_id@,
            final(self).next_type_id() == old(self).next_type_id(),
            final(self).next_role_id() == old(self).next_role_id(),
            final(self).next_status_id() == old(self).next_status_id(),
    {
        let mut i: usize = 0;
        while i < self.platforms.len()
            invariant
                *self == *old(self),
                self.wf(),
                i <= self.platforms@.len(),
                forall|j: int| 0 <= j < i ==> (#[trigger] self.platforms@[j]).name@ != name@,
            decreases self.platforms@.len() - i,
        {
            if same_text(self.platforms[i].name.as_str(), name.as_str()) {
                return Ok(false);
            }
            i = i + 1;
        }
        if self.has_platform(platform_id.as_str()) {
            return Err(StoreError::DuplicateId);
        }
        let ghost t = self@;
        let ghost p = Platform { platform_id, name, base_url };
        self.platforms.push(Platform { platform_id, name, base_url });
        assert(self@ == t.with_platforms(t.platforms.push(p)));
        assert forall|k: int| 0 <= k < self@.activities.len() implies status_exists(
            self@.statuses,
            (#[trigger] self@.activities[k]).status_id,
        ) && user_exists(self@.users, self@.activities[k].user_id@)
            && media_exists(self@.media_items, self@.activities[k].media_id@)
            && (self@.activities[k].source_platform matches Some(q) ==> platform_exists(self@.platforms, q@)) by {
            if let Some(q) = t.activities[k].source_platform {
                let m = choose|m: int| 0 <= m < t.platforms.len() && (#[trigger] t.platforms[m]).platform_id@ == q@;
                assert(self@.platforms[m] == t.platforms[m]);
            }
        }
        assert(self@.platforms[self@.platforms.len() - 1] == p);
        assert forall|x: Seq<char>| #[trigger] platform_exists(self@.platforms, x) implies platform_exists(t.platforms, x)
            || x == p.platform_id@ by {
            let m = choose|m: int| 0 <= m < self@.platforms.len() && (#[trigger] self@.platforms[m]).platform_id@ == x;
            if m < t.platforms.len() {
                assert(self@.platforms[m] == t.platforms[m]);
            }
        }
        assert forall|n: Seq<char>| platform_named(t.platforms, n) implies #[trigger] platform_named(self@.platforms, n) by {
            let m = choose|m: int| 0 <= m < t.platforms.len() && (#[trigger] t.platforms[m]).name@ == n;
            assert(self@.platforms[m] == t.platforms[m]);
        }
        Ok(true)
    }

    /// Adds the media types of a first start.
    fn seed_media_types(&mut self) -> (r: Result<(), StoreError>)
        requires
            old(self).wf(),
        ensures
            final(self).wf(),
            final(self)@ == old(self)@.with_media_types(final(self)@.media_types),
            r is Ok ==> forall|k: int| 0 <= k < 5 ==> media_type_named(final(self)@.media_types, #[trigger] seed_media_types()[k]),
            old(self).next_type_id() + 5 <= i32::MAX + 1 ==> r is Ok,
            r is Err ==> r == Err::<(), StoreError>(StoreError::IdsExhausted),
            final(self).next_role_id() == old(self).next_role_id(),
            final(self).next_status_id() == old(self).next_status_id(),
            (forall|k: int| 0 <= k < 5 ==> !media_type_named(old(self)@.media_types, #[trigger] seed_media_types()[k])) && old(self).next_type_id()
                > i32::MAX ==> r is Err,
    {
        assert(seed_media_types()[0] == "Movie"@);
        if let Err(e) = self.add_media_type("Movie".to_owned()) {
            return Err(e);
        }
        if let Err(e) = self.add_media_type("TV Show".to_owned()) {
            return Err(e);
        }
        if let Err(e) = self.add_media_type("Book".to_owned()) {
            return Err(e);
        }
        if let Err(e) = self.add_media_type("Game".to_owned()) {
            return Err(e);
        }
        if let Err(e) = self.add_media_type("Music".to_owned()) {
            return Err(e);
        }
        proof {
            assert forall|k: int| 0 <= k < 5 implies media_type_named(self@.media_types, #[trigger] seed_media_types()[k]) by {
                assert(media_type_named(self@.media_types, "Movie"@));
                assert(media_type_named(self@.media_types, "TV Show"@));
                assert(media_type_named(self@.media_types, "Book"@));
                assert(media_type_named(self@.media_types, "Game"@));
                assert(media_type_named(self@.media_types, "Music"@));
            }
        }
        Ok(())
    }

    /// Adds the creator roles of a first start.
    fn seed_roles(&mut self) -> (r: Result<(), StoreError>)
        requires
            old(self).wf(),
        ensures
            final(self).wf(),
            final(self)@ == old(self)@.with_creator_roles(final(self)@.creator_roles),
            r is Ok ==> forall|k: int| 0 <= k < 5 ==> role_named(final(self)@.creator_roles, #[trigger] seed_roles()[k]),
            old(self).next_role_id() + 5 <= i32::MAX + 1 ==> r is Ok,
            r is Err ==> r == Err::<(), StoreError>(StoreError::IdsExhausted),
            final(self).next_type_id() == old(self).next_type_id(),
            final(self).next_status_id() == old(self).next_status_id(),
            (forall|k: int| 0 <= k < 5 ==> !role_named(old(self)@.creator_roles, #[trigger] seed_roles()[k])) && old(self).next_role_id()
                > i32::MAX ==> r is Err,
    {
        assert(seed_roles()[0] == "Director"@);
        if let Err(e) = self.add_creator_role("Director".to_owned()) {
            return Err(e);
        }
        if let Err(e) = self.add_creator_role("Actor".to_owned()) {
            return Err(e);
        }
        if let Err(e) = self.add_creator_role("Author".to_owned()) {
            return Err(e);
        }
        if let Err(e) = self.add_creator_role("Developer".to_owned()) {
            return Err(e);
        }
        if let Err(e) = self.add_creator_role("Artist".to_owned()) {
            return Err(e);
        }
        proof {
            assert forall|k: int| 0 <= k < 5 implies role_named(self@.creator_roles, #[trigger] seed_roles()[k]) by {
                assert(role_named(self@.creator_roles, "Director"@));
                assert(role_named(self@.creator_roles, "Actor"@));
                assert(role_named(self@.creator_roles, "Author"@));
                assert(role_named(self@.creator_roles, "Developer"@));
                assert(role_named(self@.creator_roles, "Artist"@));
            }
        }
        Ok(())
    }

    /// Adds the activity statuses of a first start.
    fn seed_statuses(&mut self) -> (r: Result<(), StoreError>)
        requires
            old(self).wf(),
        ensures
            final(self).wf(),
            final(self)@ == old(self)@.with_statuses(final(self)@.statuses),
            r is Ok ==> forall|k: int| 0 <= k < 5 ==> status_named(final(self)@.statuses, #[trigger] seed_statuses()[k]),
            old(self).next_status_id() + 5 <= i32::MAX + 1 ==> r is Ok,
            r is Err ==> r == Err::<(), StoreError>(StoreError::IdsExhausted),
            final(self).next_type_id() == old(self).next_type_id(),
            final(self).next_role_id() == old(self).next_role_id(),
            (forall|k: int| 0 <= k < 5 ==> !status_named(old(self)@.statuses, #[trigger] seed_statuses()[k])) && old(self).next_status_id()
                > i32::MAX ==> r is Err,
    {
        assert(seed_statuses()[0] == "Want to Watch/Read/Play"@);
        if let Err(e) = self.add_activity_status("Want to Watch/Read/Play".to_owned()) {
            return Err(e);
        }
        if let Err(e) = self.add_activity_status("Currently Watching/Reading/Playing".to_owned()) {
            return Err(e);
        }
        if let Err(e) = self.add_activity_status("Completed".to_owned()) {
            return Err(e);
        }
        if let Err(e) = self.add_activity_status("Dropped".to_owned()) {
            return Err(e);
        }
        if let Err(e) = self.add_activity_status("On Hold".to_owned()) {
            return Err(e);
        }
        proof {
            assert forall|k: int| 0 <= k < 5 implies status_named(self@.statuses, #[trigger] seed_statuses()[k]) by {
                assert(status_named(self@.statuses, "Want to Watch/Read/Play"@));
                assert(status_named(self@.statuses, "Currently Watching/Reading/Playing"@));
                assert(status_named(self@.statuses, "Completed"@));
                assert(status_named(self@.statuses, "Dropped"@));
                assert(status_named(self@.statuses, "On Hold"@));
            }
        }
        Ok(())
    }

    /// Adds the platforms of a first start under the identifiers `ids`.
    fn seed_platforms(&mut self, ids: &Vec<String>) -> (r: Result<(), StoreError>)
        requires
            old(self).wf(),
            ids@.len() == 3,
        ensures
            final(self).wf(),
            final(self)@ == old(self)@.with_platforms(final(self)@.platforms),
            r is Ok ==> forall|k: int| 0 <= k < 3 ==> platform_named(final(self)@.platforms, #[trigger] seed_platforms()[k]),
            r is Err ==> r == Err::<(), StoreError>(StoreError::DuplicateId),
            platform_ids_fresh(old(self)@.platforms, ids@) ==> r is Ok,
            r is Err ==> exists|k: int| 0 <= k < 3 && platform_exists(final(self)@.platforms, (#[trigger] ids@[k])@),
            final(self).next_type_id() == old(self).next_type_id(),
            final(self).next_role_id() == old(self).next_role_id(),
            final(self).next_status_id() == old(self).next_status_id(),
    {
        let ghost t0 = self@.platforms;
        if let Err(e) = self.add_platform(ids[0].clone(), "Netflix".to_owned(), Some("https://netflix.com".to_owned())) {
            assert(platform_exists(self@.platforms, ids@[0]@));
            return Err(e);
        }
        let ghost t1 = self@.platforms;
        if let Err(e) = self.add_platform(ids[1].clone(), "Amazon Prime".to_owned(), Some("https://amazon.com/prime".to_owned())) {
            assert(platform_exists(t1, ids@[1]@));
            assert(platform_exists(self@.platforms, ids@[1]@));
            return Err(e);
        }
        let ghost t2 = self@.platforms;
        if let Err(e) = self.add_platform(ids[2].clone(), "Steam".to_owned(), Some("https://steam.com".to_owned())) {
            assert(platform_exists(t2, ids@[2]@));
            assert(platform_exists(t1, ids@[2]@) || ids@[2]@ == ids@[1]@);
            assert(platform_exists(self@.platforms, ids@[2]@));
            return Err(e);
        }
        proof {
            assert forall|k: int| 0 <= k < 3 implies platform_named(self@.platforms, #[trigger] seed_platforms()[k]) by {
                assert(platform_named(self@.platforms, "Netflix"@));
                assert(platform_named(self@.platforms, "Amazon Prime"@));
                assert(platform_named(self@.platforms, "Steam"@));
            }
        }
        Ok(())
    }

    /// Adds one sample user under the identifier `user_id`.
    fn seed_user(&mut self, user_id: String, name: &str, email: &str) -> (r: Result<(), StoreError>)
        requires
            old(self).wf(),
        ensures
            final(self).wf(),
            final(self)@ == old(self)@.with_users(final(self)@.users),
            r is Ok ==> sample_user_present(final(self)@.users, name@, email@),
            r is Ok ==> final(self)@.users.len() == old(self)@.users.len() + 1
                && final(self)@.users.drop_last() == old(self)@.users
                && final(self)@.users.last().email@ == email@
                && final(self)@.users.last().user_id == user_id,
            r is Err ==> final(self)@ == old(self)@,
            r == Err::<(), StoreError>(StoreError::DuplicateId) ==> user_exists(old(self)@.users, user_id@),
            r == Err::<(), StoreError>(StoreError::DuplicateEmail) ==> email_in_use(old(self)@.users, email@),
            r is Err ==> r == Err::<(), StoreError>(StoreError::DuplicateId) || r == Err::<(), StoreError>(
                StoreError::DuplicateEmail,
            ),
            forall|n: Seq<char>, e: Seq<char>| sample_user_present(old(self)@.users, n, e)
                ==> #[trigger] sample_user_present(final(self)@.users, n, e),
            final(self).next_type_id() == old(self).next_type_id(),
            final(self).next_role_id() == old(self).next_role_id(),
            final(self).next_status_id() == old(self).next_status_id(),
    {
        let req = CreateUserRequest { name: name.to_owned(), email: email.to_owned(), auth_provider: None };
        let ghost t = self@;
        match self.insert_user(user_id, &req) {
            Ok(u) => {
                assert(self@.users == t.users.push(u));
                assert(self@.users[self@.users.len() - 1] == u);
                assert(self@.users.drop_last() =~= t.users);
                assert forall|n: Seq<char>, e: Seq<char>| sample_user_present(t.users, n, e)
                    implies #[trigger] sample_user_present(self@.users, n, e) by {
                    let m = choose|m: int| 0 <= m < t.users.len() && (#[trigger] t.users[m]).name@ == n && t.users[m].email@ == e
                        && t.users[m].auth_provider is None;
                    assert(self@.users[m] == t.users[m]);
                }
                Ok(())
            },
            Err(e) => Err(e),
        }
    }

    /// Each reference table has room for the identifiers of a first start.
    pub open spec fn seed_room(&self) -> bool {
        &&& self.next_type_id() + 5 <= i32::MAX + 1
        &&& self.next_role_id() + 5 <= i32::MAX + 1
        &&& self.next_status_id() + 5 <= i32::MAX + 1
    }

    /// Some reference table holds none of the names of a first start and has
    /// no identifier left for them.
    pub open spec fn seed_blocked(&self) -> bool {
        ||| (forall|k: int| 0 <= k < 5 ==> !media_type_named(self@.media_types, #[trigger] seed_media_types()[k]))
            && self.next_type_id() > i32::MAX
        ||| (forall|k: int| 0 <= k < 5 ==> !role_named(self@.creator_roles, #[trigger] seed_roles()[k]))
            && self.next_role_id() > i32::MAX
        ||| (forall|k: int| 0 <= k < 5 ==> !status_named(self@.statuses, #[trigger] seed_statuses()[k]))
            && self.next_status_id() > i32::MAX
    }

    /// On a first start (no users yet) adds the reference rows and the sample
    /// users, the platforms under `platform_ids` and the users under
    /// `user_ids`; on any later start does nothing.
    pub fn seed_with_ids(&mut self, platform_ids: Vec<String>, user_ids: Vec<String>) -> (r: Result<(), StoreError>)
        requires
            old(self).wf(),
            platform_ids@.len() == 3,
            user_ids@.len() == 3,
        ensures
            final(self).wf(),
            final(self)@.wf(),
            seed_outcome(*old(self), platform_ids@, user_ids@, r, *final(self)),
    {
        if self.users.len() > 0 {
            return Ok(());
        }
        let ghost d0 = *self;
        if let Err(e) = self.seed_media_types() {
            return Err(e);
        }
        if let Err(e) = self.seed_roles() {
            return Err(e);
        }
        if let Err(e) = self.seed_statuses() {
            return Err(e);
        }
        assert(self@.platforms == d0@.platforms);
        if let Err(e) = self.seed_platforms(&platform_ids) {
            return Err(e);
        }
        assert(self@.users.len() == 0);
        let ghost uids = user_ids@;
        if let Err(e) = self.seed_user(user_ids[0].clone(), "John Doe", "john.doe@example.com") {
            assert(user_exists(self@.users, uids[0]@));
            return Err(e);
        }
        let ghost john = self@.users;
        assert forall|i: int| 0 <= i < john.len() implies (#[trigger] john[i]).email@ != "jane.smith@example.com"@
            && john[i].email@ != "bob.johnson@example.com"@ && john[i].user_id == uids[0] by {
            assert(i == john.len() - 1);
            reveal_strlit("john.doe@example.com");
            reveal_strlit("jane.smith@example.com");
            reveal_strlit("bob.johnson@example.com");
            assert("john.doe@example.com"@[1] != "jane.smith@example.com"@[1]);
            assert("john.doe@example.com"@[0] != "bob.johnson@example.com"@[0]);
        }
        if let Err(e) = self.seed_user(user_ids[1].clone(), "Jane Smith", "jane.smith@example.com") {
            proof {
                if e == StoreError::DuplicateId {
                    let m = choose|m: int| 0 <= m < john.len() && (#[trigger] john[m]).user_id@ == uids[1]@;
                    assert(uids[0]@ == uids[1]@);
                    assert(user_exists(self@.users, uids[1]@));
                }
            }
            return Err(e);
        }
        let ghost jane = self@.users;
        assert forall|i: int| 0 <= i < jane.len() implies (#[trigger] jane[i]).email@ != "bob.johnson@example.com"@
            && jane[i].user_id == uids[i] by {
            if i < john.len() {
                assert(jane[i] == jane.drop_last()[i]);
                assert(jane[i] == john[i]);
            }
            reveal_strlit("jane.smith@example.com");
            reveal_strlit("bob.johnson@example.com");
            assert("jane.smith@example.com"@[0] != "bob.johnson@example.com"@[0]);
        }
        if let Err(e) = self.seed_user(user_ids[2].clone(), "Bob Johnson", "bob.johnson@example.com") {
            proof {
                if e == StoreError::DuplicateId {
                    let m = choose|m: int| 0 <= m < jane.len() && (#[trigger] jane[m]).user_id@ == uids[2]@;
                    assert(uids[m]@ == uids[2]@);
                    assert(user_exists(self@.users, uids[2]@));
                }
            }
            return Err(e);
        }
        proof {
            let bob = self@.users;
            assert forall|i: int| 0 <= i < 3 implies (#[trigger] bob[i]).user_id == uids[i] by {
                if i < 2 {
                    assert(bob[i] == bob.drop_last()[i]);
                }
            }
            assert forall|k: int| 0 <= k < 3 implies sample_user_present(
                self@.users,
                (#[trigger] seed_users()[k]).0,
                seed_users()[k].1,
            ) by {
                assert(sample_user_present(self@.users, "John Doe"@, "john.doe@example.com"@));
                assert(sample_user_present(self@.users, "Jane Smith"@, "jane.smith@example.com"@));
                assert(sample_user_present(self@.users, "Bob Johnson"@, "bob.johnson@example.com"@));
            }
        }
        Ok(())
    }

    /// On a first start (no users yet) adds the reference rows and the sample
    /// users under freshly drawn random identifiers; on any later start does
    /// nothing.
    pub fn seed_sample_data(&mut self) -> (r: Result<(), StoreError>)
        requires
            old(self).wf(),
        ensures
            final(self).wf(),
            final(self)@.wf(),
            exists|pids: Seq<String>, uids: Seq<String>|
                drawn_ids(pids) && drawn_ids(uids) && #[trigger] seed_outcome(*old(self), pids, uids, r, *final(self)),
    {
        let mut pids: Vec<String> = Vec::new();
        pids.push(fresh_id());
        pids.push(fresh_id());
        pids.push(fresh_id());
        let mut uids: Vec<String> = Vec::new();
        uids.push(fresh_id());
        uids.push(fresh_id());
        uids.push(fresh_id());
        let ghost pv = pids@;
        let ghost uv = uids@;
        assert(drawn_ids(pv) && drawn_ids(uv));
        self.seed_with_ids(pids, uids)
    }

    /// The media types, in the order they were added.
    pub fn get_all_media_types(&self) -> (r: Vec<MediaType>)
        ensures
            r@ == self@.media_types,
    {
        let mut out: Vec<MediaType> = Vec::new();
        let mut i: usize = 0;
        while i < self.media_types.len()
            invariant
                i <= self.media_types@.len(),
                out@ == self.media_types@.subrange(0, i as int),
            decreases self.media_types@.len() - i,
        {
            let x = &self.media_types[i];
            out.push(MediaType { type_id: x.type_id, name: x.name.clone() });
            assert(out@ =~= self.media_types@.subrange(0, i + 1));
            i = i + 1;
        }
        assert(self.media_types@.subrange(0, self.media_types@.len() as int) =~= self.media_types@);
        out
    }

    /// The creator roles, in the order they were added.
    pub fn get_all_creator_roles(&self) -> (r: Vec<CreatorRole>)
        ensures
            r@ == self@.creator_roles,
    {
        let mut out: Vec<CreatorRole> = Vec::new();
        let mut i: usize = 0;
        while i < self.creator_roles.len()
            invariant
                i <= self.creator_roles@.len(),
                out@ == self.creator_roles@.subrange(0, i as int),
            decreases self.creator_roles@.len() - i,
        {
            let x = &self.creator_roles[i];
            out.push(CreatorRole { role_id: x.role_id, role_name: x.role_name.clone() });
            assert(out@ =~= self.creator_roles@.subrange(0, i + 1));
            i = i + 1;
        }
        assert(self.creator_roles@.subrange(0, self.creator_roles@.len() as int) =~= self.creator_roles@);
        out
    }

    /// The activity statuses, in the order they were added.
    pub fn get_all_activity_statuses(&self) -> (r: Vec<ActivityStatus>)
        ensures
            r@ == self@.statuses,
    {
        let mut out: Vec<ActivityStatus> = Vec::new();
        let mut i: usize = 0;
        while i < self.statuses.len()
            invariant
                i <= self.statuses@.len(),
                out@ == self.statuses@.subrange(0, i as int),
            decreases self.statuses@.len() - i,
        {
            let x = &self.statuses[i];
            out.push(ActivityStatus { status_id: x.status_id, name: x.name.clone() });
            assert(out@ =~= self.statuses@.subrange(0, i + 1));
            i = i + 1;
        }
        assert(self.statuses@.subrange(0, self.statuses@.len() as int) =~= self.statuses@);
        out
    }

    /// The platforms, in the order they were added.
    pub fn get_all_platforms(&self) -> (r: Vec<Platform>)
        ensures
            r@ == self@.platforms,
    {
        let mut out: Vec<Platform> = Vec::new();
        let mut i: usize = 0;
        while i < self.platforms.len()
            invariant
                i <= self.platforms@.len(),
                out@ == self.platforms@.subrange(0, i as int),
            decreases self.platforms@.len() - i,
        {
            let x = &self.platforms[i];
            out.push(Platform { platform_id: x.platform_id.clone(), name: x.name.clone(), base_url: copy_opt_text(&x.base_url) });
            assert(out@ =~= self.platforms@.subrange(0, i + 1));
            i = i + 1;
        }
        assert(self.platforms@.subrange(0, self.platforms@.len() as int) =~= self.platforms@);
        out
    }

    /// Puts back a row read from storage under its own identifier, which must
    /// be positive and unused, as its name must be. Later rows get
    /// identifiers above every one stored.
    pub fn restore_media_type(&mut self, id: i32, name: String) -> (r: Result<(), StoreError>)
        requires
            old(self).wf(),
        ensures
            final(self).wf(),
            r == if id <= 0 {
                Err::<(), StoreError>(StoreError::InvalidId)
            } else if media_type_exists(old(self)@.media_types, id) || media_type_named(old(self)@.media_types, name@) {
                Err::<(), StoreError>(StoreError::DuplicateId)
            } else {
                Ok::<(), StoreError>(())
            },
            r is Ok ==> final(self)@ == old(self)@.with_media_types(old(self)@.media_types.push(MediaType { type_id: id, name: name }))
                && final(self).next_type_id() == if id + 1 > old(self).next_type_id() {
                id + 1
            } else {
                old(self).next_type_id()
            },
            r is Err ==> *final(self) == *old(self),
    {
        if id <= 0 {
            return Err(StoreError::InvalidId);
        }
        let mut i: usize = 0;
        while i < self.media_types.len()
            invariant
                *self == *old(self),
                self.wf(),
                id > 0,
                i <= self.media_types@.len(),
                forall|j: int| 0 <= j < i ==> (#[trigger] self.media_types@[j]).type_id != id && self.media_types@[j].name@ != name@,
            decreases self.media_types@.len() - i,
        {
            if self.media_types[i].type_id == id || same_text(self.media_types[i].name.as_str(), name.as_str()) {
                assert(media_type_exists(self@.media_types, id) || media_type_named(self@.media_types, name@));
                return Err(StoreError::DuplicateId);
            }
            i = i + 1;
        }
        assert(!media_type_exists(self@.media_types, id) && !media_type_named(self@.media_types, name@));
        let ghost t = self@;
        let ghost row = MediaType { type_id: id, name: name };
        self.media_types.push(MediaType { type_id: id, name: name });
        if id > self.last_type_id {
            self.last_type_id = id;
        }
        assert(self@ == t.with_media_types(t.media_types.push(row)));
        assert forall|k: int| 0 <= k < self@.media_items.len() implies media_type_exists(
            self@.media_types,
            (#[trigger] self@.media_items[k]).type_id,
        ) by {
            let m = choose|m: int| 0 <= m < t.media_types.len() && (#[trigger] t.media_types[m]).type_id == t.media_items[k].type_id;
            assert(self@.media_types[m] == t.media_types[m]);
        }
        Ok(())
    }

    /// Puts back a row read from storage under its own identifier, which must
    /// be positive and unused, as its name must be. Later rows get
    /// identifiers above every one stored.
    pub fn restore_creator_role(&mut self, id: i32, name: String) -> (r: Result<(), StoreError>)
        requires
            old(self).wf(),
        ensures
            final(self).wf(),
            r == if id <= 0 {
                Err::<(), StoreError>(StoreError::InvalidId)
            } else if role_exists(old(self)@.creator_roles, id) || role_named(old(self)@.creator_roles, name@) {
                Err::<(), StoreError>(StoreError::DuplicateId)
            } else {
                Ok::<(), StoreError>(())
            },
            r is Ok ==> final(self)@ == old(self)@.with_creator_roles(old(self)@.creator_roles.push(CreatorRole { role_id: id, role_name: name }))
                && final(self).next_role_id() == if id + 1 > old(self).next_role_id() {
                id + 1
            } else {
                old(self).next_role_id()
            },
            r is Err ==> *final(self) == *old(self),
    {
        if id <= 0 {
            return Err(StoreError::InvalidId);
        }
        let mut i: usize = 0;
        while i < self.creator_roles.len()
            invariant
                *self == *old(self),
                self.wf(),
                id > 0,
                i <= self.creator_roles@.len(),
                forall|j: int| 0 <= j < i ==> (#[trigger] self.creator_roles@[j]).role_id != id && self.creator_roles@[j].role_name@ != name@,
            decreases self.creator_roles@.len() - i,
        {
            if self.creator_roles[i].role_id == id || same_text(self.creator_roles[i].role_name.as_str(), name.as_str()) {
                assert(role_exists(self@.creator_roles, id) || role_named(self@.creator_roles, name@));
                return Err(StoreError::DuplicateId);
            }
            i = i + 1;
        }
        assert(!role_exists(self@.creator_roles, id) && !role_named(self@.creator_roles, name@));
        let ghost t = self@;
        let ghost row = CreatorRole { role_id: id, role_name: name };
        self.creator_roles.push(CreatorRole { role_id: id, role_name: name });
        if id > self.last_role_id {
            self.last_role_id = id;
        }
        assert(self@ == t.with_creator_roles(t.creator_roles.push(row)));
        Ok(())
    }

    /// Puts back a row read from storage under its own identifier, which must
    /// be positive and unused, as its name must be. Later rows get
    /// identifiers above every one stored.
    pub fn restore_activity_status(&mut self, id: i32, name: String) -> (r: Result<(), StoreError>)
        requires
            old(self).wf(),
        ensures
            final(self).wf(),
            r == if id <= 0 {
                Err::<(), StoreError>(StoreError::InvalidId)
            } else if status_exists(old(self)@.statuses, id) || status_named(old(self)@.statuses, name@) {
                Err::<(), StoreError>(StoreError::DuplicateId)
            } else {
                Ok::<(), StoreError>(())
            },
            r is Ok ==> final(self)@ == old(self)@.with_statuses(old(self)@.statuses.push(ActivityStatus { status_id: id, name: name }))
                && final(self).next_status_id() == if id + 1 > old(self).next_status_id() {
                id + 1
            } else {
                old(self).next_status_id()
            },
            r is Err ==> *final(self) == *old(self),
    {
        if id <= 0 {
            return Err(StoreError::InvalidId);
        }
        let mut i: usize = 0;
        while i < self.statuses.len()
            invariant
                *self == *old(self),
                self.wf(),
                id > 0,
                i <= self.statuses@.len(),
                forall|j: int| 0 <= j < i ==> (#[trigger] self.statuses@[j]).status_id != id && self.statuses@[j].name@ != name@,
            decreases self.statuses@.len() - i,
        {
            if self.statuses[i].status_id == id || same_text(self.statuses[i].name.as_str(), name.as_str()) {
                assert(status_exists(self@.statuses, id) || status_named(self@.statuses, name@));
                return Err(StoreError::DuplicateId);
            }
            i = i + 1;
        }
        assert(!status_exists(self@.statuses, id) && !status_named(self@.statuses, name@));
        let ghost t = self@;
        let ghost row = ActivityStatus { status_id: id, name: name };
        self.statuses.push(ActivityStatus { status_id: id, name: name });
        if id > self.last_status_id {
            self.last_status_id = id;
        }
        assert(self@ == t.with_statuses(t.statuses.push(row)));
        assert forall|k: int| 0 <= k < self@.activities.len() implies status_exists(
            self@.statuses,
            (#[trigger] self@.activities[k]).status_id,
        ) && user_exists(self@.users, self@.activities[k].user_id@)
            && media_exists(self@.media_items, self@.activities[k].media_id@)
            && (self@.activities[k].source_platform matches Some(p) ==> platform_exists(self@.platforms, p@)) by {
            let m = choose|m: int| 0 <= m < t.statuses.len() && (#[trigger] t.statuses[m]).status_id == t.activities[k].status_id;
            assert(self@.statuses[m] == t.statuses[m]);
        }
        Ok(())
    }
}

} // verus!
