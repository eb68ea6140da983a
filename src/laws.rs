//! What holds across several operations of the store.
use vstd::prelude::*;
use crate::records::{CreateRatingRequest, CreateUserActivityRequest, CreateUserRequest, Rating, User, UserActivity};
use crate::store::{
    Tables, StoreError, activities_listed, activity_created, activity_exists, activity_insert_result,
    activity_refs_exist, after_user_delete, after_user_insert,
    email_in_use, other_user, rating_of, rating_submitted, user_created, user_exists,
    user_insert_result, user_lookup, users_listed, other_pair,
};

verus! {

/// Inserting a user whose email no user has, under an identifier that no user
/// has, succeeds; the user gets that identifier, and afterwards exactly one
/// user has it.
pub proof fn lemma_unused_email_inserts(t: Tables, user_id: String, req: CreateUserRequest)
    requires
        t.wf(),
        !email_in_use(t.users, req.email@),
        !user_exists(t.users, user_id@),
    ensures
        user_insert_result(t, user_id, req) is Ok,
        user_insert_result(t, user_id, req)->Ok_0.user_id == user_id,
        forall|i: int|
            0 <= i < after_user_insert(t, user_insert_result(t, user_id, req)).users.len()
                && (#[trigger] after_user_insert(t, user_insert_result(t, user_id, req)).users[i]).user_id@
                == user_id@ ==> i == t.users.len(),
{
    let t2 = after_user_insert(t, user_insert_result(t, user_id, req));
    assert forall|i: int| 0 <= i < t2.users.len() && (#[trigger] t2.users[i]).user_id@ == user_id@ implies i
        == t.users.len() by {
        if i < t.users.len() {
            assert(t2.users[i] == t.users[i]);
        }
    }
}

/// A user created under a random identifier has a non-empty identifier that
/// no earlier user had, and afterwards exactly one user has it.
pub proof fn lemma_created_id_fresh(t: Tables, req: CreateUserRequest, u: User, t2: Tables)
    requires
        t.wf(),
        user_created(t, req, Ok(u), t2),
    ensures
        u.user_id@.len() > 0,
        !user_exists(t.users, u.user_id@),
        forall|i: int| 0 <= i < t2.users.len() && (#[trigger] t2.users[i]).user_id@ == u.user_id@ ==> i
            == t.users.len(),
{
    lemma_unused_email_inserts(t, u.user_id, req);
}

/// Creating a user with an email that no user has succeeds whenever no stored
/// user has a 36-character identifier, so that the random identifier cannot
/// collide: on an empty store, for one.
pub proof fn lemma_unused_email_creates(t: Tables, req: CreateUserRequest, r: Result<User, StoreError>, t2: Tables)
    requires
        user_created(t, req, r, t2),
        !email_in_use(t.users, req.email@),
        forall|i: int| 0 <= i < t.users.len() ==> (#[trigger] t.users[i]).user_id@.len() != 36,
    ensures
        r is Ok,
        t2.users.len() == t.users.len() + 1,
{
    let id = choose|id: String| id@.len() == 36 && r == #[trigger] user_insert_result(t, id, req);
    if user_exists(t.users, id@) {
        let i = choose|i: int| 0 <= i < t.users.len() && (#[trigger] t.users[i]).user_id@ == id@;
        assert(t.users[i].user_id@.len() != 36);
    }
}

/// Once a user is created, creating another with the same email is refused
/// as a duplicate email and changes nothing.
pub proof fn lemma_second_email_conflicts(
    t0: Tables,
    req1: CreateUserRequest,
    u1: User,
    t1: Tables,
    req2: CreateUserRequest,
    r2: Result<User, StoreError>,
    t2: Tables,
)
    requires
        user_created(t0, req1, Ok(u1), t1),
        req2.email@ == req1.email@,
        user_created(t1, req2, r2, t2),
    ensures
        r2 == Err::<User, StoreError>(StoreError::DuplicateEmail),
        t2 == t1,
{
    assert(t1.users[t1.users.len() - 1] == u1);
    assert(email_in_use(t1.users, req2.email@));
}

/// A user fetched right after its creation is the one created, with the
/// name, email and auth provider of the request.
pub proof fn lemma_created_user_found(
    t0: Tables,
    req: CreateUserRequest,
    u: User,
    t1: Tables,
    found: Option<User>,
)
    requires
        t1.wf(),
        user_created(t0, req, Ok(u), t1),
        user_lookup(t1.users, u.user_id@, found),
    ensures
        found == Some(u),
        u.name == req.name,
        u.email == req.email,
        u.auth_provider == req.auth_provider,
{
    let last = t1.users.len() - 1;
    assert(t1.users[last] == u);
    match found {
        Some(x) => {
            let i = choose|i: int| 0 <= i < t1.users.len() && t1.users[i] == x;
            if i != last {
                assert(t1.users[i].user_id@ != t1.users[last].user_id@);
            }
        },
        None => {
            assert(user_exists(t1.users, u.user_id@));
        },
    }
}

/// After user `id` is deleted no user has that identifier: a fetch finds
/// nothing, and a second deletion reports that nothing was there.
pub proof fn lemma_deleted_user_gone(t0: Tables, id: Seq<char>, found: Option<User>)
    requires
        user_lookup(after_user_delete(t0, id).users, id, found),
    ensures
        found is None,
        !user_exists(after_user_delete(t0, id).users, id),
{
    let users = after_user_delete(t0, id).users;
    if user_exists(users, id) {
        let i = choose|i: int| 0 <= i < users.len() && (#[trigger] users[i]).user_id@ == id;
        t0.users.lemma_filter_pred(other_user(id), i);
    }
    if let Some(x) = found {
        let i = choose|i: int| 0 <= i < users.len() && users[i] == x;
        t0.users.lemma_filter_pred(other_user(id), i);
    }
}

/// After two submissions for the same (user, media) pair exactly one rating
/// of the pair remains: the second, with its score and timestamp.
pub proof fn lemma_rating_resubmitted(
    t0: Tables,
    user_id: Seq<char>,
    req1: CreateRatingRequest,
    x1: Rating,
    t1: Tables,
    req2: CreateRatingRequest,
    x2: Rating,
    t2: Tables,
)
    requires
        rating_submitted(t0, user_id, req1, Ok(x1), t1),
        rating_submitted(t1, user_id, req2, Ok(x2), t2),
        req2.media_id@ == req1.media_id@,
    ensures
        x2.score == req2.score,
        exists|i: int|
            0 <= i < t2.ratings.len() && t2.ratings[i] == x2 && forall|j: int|
                0 <= j < t2.ratings.len() && rating_of(#[trigger] t2.ratings[j], user_id, req1.media_id@)
                    ==> j == i,
{
    let i = t2.ratings.len() - 1;
    let pred = other_pair(x2.user_id@, x2.media_id@);
    assert(t2.ratings[i] == x2);
    assert forall|j: int|
        0 <= j < t2.ratings.len() && rating_of(#[trigger] t2.ratings[j], user_id, req1.media_id@) implies j
        == i by {
        if j < i {
            t1.ratings.lemma_filter_pred(pred, j);
        }
    }
}

/// Two activities appended for the same (user, media) pair are two rows with
/// different identifiers, and the user's listing holds both.
pub proof fn lemma_activities_accumulate(
    t0: Tables,
    user_id: Seq<char>,
    req1: CreateUserActivityRequest,
    a1: UserActivity,
    t1: Tables,
    req2: CreateUserActivityRequest,
    a2: UserActivity,
    t2: Tables,
    listed: Seq<UserActivity>,
)
    requires
        activity_created(t0, user_id, req1, Ok(a1), t1),
        activity_created(t1, user_id, req2, Ok(a2), t2),
        req2.media_id@ == req1.media_id@,
        activities_listed(t2.activities, user_id, listed),
    ensures
        a1.activity_id@ != a2.activity_id@,
        a1.media_id@ == a2.media_id@,
        t2.activities.contains(a1),
        t2.activities.contains(a2),
        listed.contains(a1),
        listed.contains(a2),
{
    let n = t1.activities.len() - 1;
    assert(t1.activities[n] == a1);
    assert(t2.activities[n] == a1);
    assert(t2.activities[n + 1] == a2);
}

/// Appending an activity whose references all exist succeeds whenever no
/// stored activity has a 36-character identifier, so that the random
/// identifier cannot collide; the activity then stands last in the table.
pub proof fn lemma_activity_appends(
    t: Tables,
    user_id: Seq<char>,
    req: CreateUserActivityRequest,
    r: Result<UserActivity, StoreError>,
    t2: Tables,
)
    requires
        activity_created(t, user_id, req, r, t2),
        activity_refs_exist(t, user_id, req),
        forall|i: int| 0 <= i < t.activities.len() ==> (#[trigger] t.activities[i]).activity_id@.len() != 36,
    ensures
        r is Ok,
        t2.activities == t.activities.push(r->Ok_0),
{
    let (id, uid) = choose|id: String, uid: String|
        id@.len() == 36 && uid@ == user_id && r == #[trigger] activity_insert_result(t, id, uid, req);
    if activity_exists(t.activities, id@) {
        let i = choose|i: int| 0 <= i < t.activities.len() && (#[trigger] t.activities[i]).activity_id@ == id@;
        assert(t.activities[i].activity_id@.len() != 36);
    }
}

/// Once user `id` is deleted, no listing of the users holds it.
pub proof fn lemma_deleted_user_not_listed(t0: Tables, id: Seq<char>, listed: Seq<User>)
    requires
        users_listed(after_user_delete(t0, id).users, listed),
    ensures
        forall|k: int| 0 <= k < listed.len() ==> (#[trigger] listed[k]).user_id@ != id,
{
    let users = after_user_delete(t0, id).users;
    assert forall|k: int| 0 <= k < listed.len() implies (#[trigger] listed[k]).user_id@ != id by {
        assert(listed.contains(listed[k]));
        let i = choose|i: int| 0 <= i < users.len() && users[i] == listed[k];
        t0.users.lemma_filter_pred(other_user(id), i);
    }
}

} // verus!
