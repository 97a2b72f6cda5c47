use crate::api::new_id;
use crate::model::user::User;
use crate::repository::inmem::Inmem;
use crate::table::lists;
use vstd::prelude::*;

verus! {

/// What a request to create a user carries.
pub struct CreateUser {
    pub name: String,
}

/// All users of the store.
pub fn find_all(repo: &Inmem) -> (r: Vec<User>)
    ensures
        lists(repo@.users, r@),
{
    repo.get_users()
}

/// Creates a user with the given name under a fresh id, and returns it.
pub fn create(body: CreateUser, repo: &mut Inmem) -> (r: User)
    ensures
        r.id@.len() == 36,
        r.name == body.name,
        final(repo)@ == old(repo)@.put_user(r),
{
    let user = User { id: new_id(), name: body.name };
    repo.create_user(user.clone());
    user
}

} // verus!
