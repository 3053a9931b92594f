use vstd::prelude::*;
use crate::http::HttpError;
use crate::models::user::{User, UserUpdate, updated};
use crate::models::privacy::UsersPrivacy;
use crate::repository::Database;
use crate::repository::privacy::privacy_of;
use crate::repository::user::{UserRepository, first_with_email, is_empty_update, other_than_user, page,
    user_not_added_message, user_not_found_message, user_not_updated_message, user_of};
use crate::http::{BAD_REQUEST, CONFLICT};

verus! {

/// The most users a page holds.
pub const MAX_PAGE_SIZE: u8 = 25;

/// Users, as the service offers them.
pub struct UserService;

impl UserService {
    /// Adds a user, as `UserRepository::add_user` does.
    pub fn add_user(db: &mut Database, user: User) -> (r: Result<User, HttpError>)
        requires
            old(db).wf(),
        ensures
            final(db).wf(),
            final(db).friendships == old(db).friendships,
            r is Err <==> user_of(old(db).users@, user.id) is Some,
            r matches Err(e) ==> e.is(CONFLICT, user_not_added_message()) && final(db).users@ == old(db).users@
                && final(db).privacy@ == old(db).privacy@,
            r matches Ok(u) ==> u@ == user@ && final(db).users@ == old(db).users@.push(user@)
                && final(db).privacy@ == (if privacy_of(old(db).privacy@, user.id) is Some { old(db).privacy@ }
                    else { old(db).privacy@.push(UsersPrivacy::initial(user.id)) }),
    {
        UserRepository::add_user(db, user)
    }

    /// The user `id`, as `UserRepository::get_user` gives it.
    pub fn get_user(db: &Database, id: i32) -> (r: Result<User, HttpError>)
        requires
            db.wf(),
        ensures
            match user_of(db.users@, id) {
                Some(u) => r matches Ok(x) && x@ == u,
                None => r matches Err(e) && e.is(BAD_REQUEST, user_not_found_message()),
            },
    {
        UserRepository::get_user(db, id)
    }

    /// The first user with that email, as `UserRepository::find_by_email`
    /// gives it.
    pub fn get_by_email(db: &Database, email: String) -> (r: Result<User, HttpError>)
        ensures
            match first_with_email(db.users@, email@) {
                Some(u) => r matches Ok(x) && x@ == u,
                None => r matches Err(e) && e.is(BAD_REQUEST, user_not_found_message()),
            },
    {
        UserRepository::find_by_email(db, email)
    }

    /// A page of users, of `limit` users at most but never more than
    /// `MAX_PAGE_SIZE`, after the first `offset`.
    pub fn get_users(db: &Database, limit: u8, offset: u32) -> (r: Vec<User>)
        ensures
            r@.map_values(|u: User| u@) == page(db.users@, if limit < MAX_PAGE_SIZE { limit as int } else { MAX_PAGE_SIZE as int }, offset as int),
    {
        let limit = if limit < MAX_PAGE_SIZE { limit } else { MAX_PAGE_SIZE };
        UserRepository::get_users(db, limit, offset)
    }

    /// Changes user `id`, as `UserRepository::patch_user` does.
    pub fn patch_user(db: &mut Database, id: i32, update: UserUpdate) -> (r: Result<User, HttpError>)
        requires
            old(db).wf(),
        ensures
            final(db).wf(),
            final(db).privacy == old(db).privacy,
            final(db).friendships == old(db).friendships,
            r is Err <==> user_of(old(db).users@, id) is None || is_empty_update(update),
            r matches Err(e) ==> e.is(BAD_REQUEST, user_not_updated_message()) && final(db).users@ == old(db).users@,
            r matches Ok(u) ==> exists|i: int|
                0 <= i < old(db).users@.len() && #[trigger] old(db).users@[i].id == id
                    && u@ == updated(old(db).users@[i], update)
                    && final(db).users@ == old(db).users@.update(i, u@),
    {
        UserRepository::patch_user(db, id, update)
    }

    /// Deletes user `id`, as `UserRepository::delete_user` does.
    pub fn delete_user(db: &mut Database, id: i32)
        requires
            old(db).wf(),
        ensures
            final(db).wf(),
            final(db).privacy == old(db).privacy,
            final(db).friendships == old(db).friendships,
            final(db).users@ == old(db).users@.filter(other_than_user(id)),
    {
        UserRepository::delete_user(db, id)
    }
}

} // verus!
