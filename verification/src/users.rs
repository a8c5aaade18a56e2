//! Users: who may administer, and what signing in does to the user records
//! (the first user to sign in becomes an admin).
use vstd::prelude::*;

use crate::error::ApiError;

verus! {

/// A user record, keyed by the Auth0 subject.
#[derive(Clone, Debug)]
pub struct UserDoc {
    pub auth0_sub: String,
    pub email: String,
    pub is_admin: bool,
}

/// The body of a request that updates a user.
#[derive(Clone, Debug)]
pub struct UpdateUserRequest {
    pub is_admin: Option<bool>,
}

/// The error is `Forbidden` with the given message.
pub open spec fn forbidden_with(e: ApiError, msg: Seq<char>) -> bool {
    e matches ApiError::Forbidden(m) && m@ == msg
}

/// The error is `BadRequest` with the given message.
pub open spec fn bad_request_with(e: ApiError, msg: Seq<char>) -> bool {
    e matches ApiError::BadRequest(m) && m@ == msg
}

/// Admin-only endpoints go on only for an admin; anyone else is answered
/// `Forbidden: Admin access required`.
pub fn require_admin(is_admin: bool) -> (r: Result<(), ApiError>)
    ensures
        is_admin <==> r is Ok,
        r matches Err(e) ==> forbidden_with(e, "Admin access required"@),
{
    if !is_admin {
        return Err(ApiError::Forbidden(String::from_str("Admin access required")));
    }
    Ok(())
}

/// The admin flag an update asks for; the field is required.
pub fn requested_admin_flag(req: &UpdateUserRequest) -> (r: Result<bool, ApiError>)
    ensures
        req.is_admin matches Some(b) ==> r == Ok::<bool, ApiError>(b),
        req.is_admin is None ==> (r matches Err(e) && bad_request_with(e, "is_admin is required"@)),
{
    match req.is_admin {
        Some(b) => Ok(b),
        None => Err(ApiError::BadRequest(String::from_str("is_admin is required"))),
    }
}

/// The outcome of signing a user in: the record under the subject updated
/// (to the email the sign-in brings, keeping its admin flag), or a new record
/// to insert.
#[derive(Clone, Debug)]
pub enum Upsert {
    Updated(UserDoc),
    Created(UserDoc),
}

impl Upsert {
    /// The user the sign-in answers with.
    pub fn user(self) -> (r: UserDoc)
        ensures
            r == self.spec_user(),
            self matches Upsert::Updated(u) ==> r == u,
            self matches Upsert::Created(u) ==> r == u,
    {
        match self {
            Upsert::Updated(u) => u,
            Upsert::Created(u) => u,
        }
    }

    /// The user the sign-in answers with.
    pub open spec fn spec_user(self) -> UserDoc {
        match self {
            Upsert::Updated(u) => u,
            Upsert::Created(u) => u,
        }
    }
}

/// Create or update a user: a user already recorded under the subject is
/// updated to the email the sign-in brings and keeps its admin flag;
/// otherwise a new record is made, an admin exactly when no admin exists yet
/// (so the first user becomes admin).
pub fn upsert_user(found: Option<UserDoc>, admin_exists: bool, auth0_sub: String, email: String) -> (r:
    Upsert)
    ensures
        found matches Some(u) ==> r == Upsert::Updated(
            UserDoc { auth0_sub: auth0_sub, email: email, is_admin: u.is_admin },
        ),
        found is None ==> r == Upsert::Created(
            UserDoc { auth0_sub: auth0_sub, email: email, is_admin: !admin_exists },
        ),
{
    if let Some(existing) = found {
        return Upsert::Updated(UserDoc { auth0_sub, email, is_admin: existing.is_admin });
    }
    let is_admin = !admin_exists;
    Upsert::Created(UserDoc { auth0_sub, email, is_admin })
}

// ---------------------------------------------------------------------------
// The user records, as a sequence, and the laws of signing in
// ---------------------------------------------------------------------------

/// Some user in the records is an admin.
pub open spec fn has_admin(users: Seq<UserDoc>) -> bool {
    exists|i: int| 0 <= i < users.len() && #[trigger] users[i].is_admin
}

/// The position of the first user recorded under the subject.
pub open spec fn find_index(users: Seq<UserDoc>, sub: Seq<char>) -> Option<int>
    decreases users.len(),
{
    if users.len() == 0 {
        None
    } else if users[0].auth0_sub@ == sub {
        Some(0)
    } else {
        match find_index(users.drop_first(), sub) {
            Some(i) => Some(i + 1),
            None => None,
        }
    }
}

/// The outcome of signing in with the records as they are.
pub open spec fn sign_in(users: Seq<UserDoc>, sub: String, email: String) -> Upsert {
    match find_index(users, sub@) {
        Some(i) => Upsert::Updated(
            UserDoc { auth0_sub: sub, email: email, is_admin: users[i].is_admin },
        ),
        None => Upsert::Created(
            UserDoc { auth0_sub: sub, email: email, is_admin: !has_admin(users) },
        ),
    }
}

/// The records after a sign-in: an updated user replaces its record, a
/// created user is inserted.
pub open spec fn after_sign_in(users: Seq<UserDoc>, sub: String, email: String) -> Seq<UserDoc> {
    match find_index(users, sub@) {
        Some(i) => users.update(i, sign_in(users, sub, email).spec_user()),
        None => users.push(sign_in(users, sub, email).spec_user()),
    }
}

proof fn lemma_find_index(users: Seq<UserDoc>, sub: Seq<char>)
    ensures
        find_index(users, sub) matches Some(i) ==> 0 <= i < users.len() && users[i].auth0_sub@ == sub
            && forall|j: int| 0 <= j < i ==> #[trigger] users[j].auth0_sub@ != sub,
        find_index(users, sub) is None ==> forall|j: int|
            0 <= j < users.len() ==> #[trigger] users[j].auth0_sub@ != sub,
    decreases users.len(),
{
    if users.len() > 0 && users[0].auth0_sub@ != sub {
        lemma_find_index(users.drop_first(), sub);
        assert forall|j: int| 0 < j < users.len() implies users[j] == #[trigger] users.drop_first()[j
            - 1] by {}
        if let Some(i) = find_index(users.drop_first(), sub) {
            assert forall|j: int| 0 <= j < i + 1 implies #[trigger] users[j].auth0_sub@ != sub by {
                if j > 0 {
                    assert(users[j] == users.drop_first()[j - 1]);
                }
            }
        } else {
            assert forall|j: int| 0 <= j < users.len() implies #[trigger] users[j].auth0_sub@
                != sub by {
                if j > 0 {
                    assert(users[j] == users.drop_first()[j - 1]);
                }
            }
        }
    }
}

proof fn lemma_find_index_at(users: Seq<UserDoc>, sub: Seq<char>, i: int)
    requires
        0 <= i < users.len(),
        users[i].auth0_sub@ == sub,
        forall|j: int| 0 <= j < i ==> #[trigger] users[j].auth0_sub@ != sub,
    ensures
        find_index(users, sub) == Some(i),
    decreases users.len(),
{
    if i > 0 {
        assert(users[0].auth0_sub@ != sub);
        let rest = users.drop_first();
        assert forall|j: int| 0 <= j < i - 1 implies #[trigger] rest[j].auth0_sub@ != sub by {
            assert(rest[j] == users[j + 1]);
        }
        lemma_find_index_at(rest, sub, i - 1);
    }
}

/// The records after a sign-in hold the signed-in user as the first record
/// under its subject.
proof fn lemma_after_sign_in_finds(users: Seq<UserDoc>, sub: String, email: String)
    ensures
        ({
            let after = after_sign_in(users, sub, email);
            let u = sign_in(users, sub, email).spec_user();
            &&& find_index(after, sub@) matches Some(j) && 0 <= j < after.len() && after[j] == u
            &&& after.len() == if find_index(users, sub@) is Some { users.len() } else { users.len() + 1 }
        }),
{
    let after = after_sign_in(users, sub, email);
    let u = sign_in(users, sub, email).spec_user();
    lemma_find_index(users, sub@);
    match find_index(users, sub@) {
        Some(i) => {
            assert forall|j: int| 0 <= j < i implies #[trigger] after[j].auth0_sub@ != sub@ by {
                assert(after[j] == users[j]);
            }
            lemma_find_index_at(after, sub@, i);
        },
        None => {
            assert forall|j: int| 0 <= j < users.len() implies #[trigger] after[j].auth0_sub@
                != sub@ by {
                assert(after[j] == users[j]);
            }
            lemma_find_index_at(after, sub@, users.len() as int);
        },
    }
}

/// A sign-in answers with the record it writes: the subject and the email
/// the sign-in brings, with the admin flag of the record already kept under
/// the subject, or, for a new record, an admin flag set exactly when no admin
/// exists yet. The new record replaces the old one in place, or is added at
/// the end.
pub proof fn lemma_sign_in_answers_with_record(users: Seq<UserDoc>, sub: String, email: String)
    ensures
        ({
            let u = sign_in(users, sub, email).spec_user();
            &&& u.auth0_sub == sub
            &&& u.email == email
            &&& find_index(users, sub@) matches Some(i) ==> u.is_admin == users[i].is_admin
                && after_sign_in(users, sub, email) == users.update(
                i,
                UserDoc { auth0_sub: sub, email: email, is_admin: users[i].is_admin },
            )
            &&& find_index(users, sub@) is None ==> u.is_admin == !has_admin(users)
                && after_sign_in(users, sub, email) == users.push(
                UserDoc { auth0_sub: sub, email: email, is_admin: !has_admin(users) },
            )
        }),
{
}

/// The first user to sign in becomes an admin.
pub proof fn lemma_first_user_is_admin(sub: String, email: String)
    ensures
        sign_in(Seq::empty(), sub, email) matches Upsert::Created(u) && u.is_admin,
{
}

/// Signing in again with the same subject updates the same record: it takes
/// the new email, keeps the admin flag the first sign-in gave it, and no
/// record is added.
pub proof fn lemma_sign_in_is_idempotent(
    users: Seq<UserDoc>,
    sub: String,
    email: String,
    email_again: String,
)
    ensures
        ({
            let after = after_sign_in(users, sub, email);
            &&& sign_in(after, sub, email_again) == Upsert::Updated(
                UserDoc {
                    auth0_sub: sub,
                    email: email_again,
                    is_admin: sign_in(users, sub, email).spec_user().is_admin,
                },
            )
            &&& after_sign_in(after, sub, email_again).len() == after.len()
        }),
{
    lemma_after_sign_in_finds(users, sub, email);
    let after = after_sign_in(users, sub, email);
    let j = find_index(after, sub@)->0;
    assert(after[j] == sign_in(users, sub, email).spec_user());
}

/// Signing in never takes admin rights away: once an admin exists, one still
/// does, and a newly created user is an admin exactly when none existed.
pub proof fn lemma_sign_in_keeps_an_admin(users: Seq<UserDoc>, sub: String, email: String)
    ensures
        has_admin(users) ==> has_admin(after_sign_in(users, sub, email)),
        sign_in(users, sub, email) matches Upsert::Created(u) ==> (u.is_admin <==> !has_admin(
            users,
        )),
        find_index(users, sub@) is None ==> has_admin(after_sign_in(users, sub, email)),
{
    let after = after_sign_in(users, sub, email);
    lemma_find_index(users, sub@);
    if has_admin(users) {
        let i = choose|i: int| 0 <= i < users.len() && #[trigger] users[i].is_admin;
        assert(after[i].is_admin);
    }
    if find_index(users, sub@) is None && !has_admin(users) {
        assert(after[users.len() as int].is_admin);
    }
}

} // verus!
