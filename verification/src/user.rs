//! Registered users of the service.

use vstd::prelude::*;

verus! {

pub struct User {
    pub user_id: i64,
    pub username: String,
    pub email: String,
    pub password_hash: String,
    pub voxel_id: i64,
    pub admin: bool,
    pub created_at: i64,
    pub last_connected_at: i64,
}

impl User {
    pub fn new(
        user_id: i64,
        username: &str,
        email: &str,
        password_hash: &str,
        voxel_id: i64,
        admin: bool,
        created_at: i64,
        last_connected_at: i64,
    ) -> (r: User)
        ensures
            r.user_id == user_id,
            r.username@ == username@,
            r.email@ == email@,
            r.password_hash@ == password_hash@,
            r.voxel_id == voxel_id,
            r.admin == admin,
            r.created_at == created_at,
            r.last_connected_at == last_connected_at,
    {
        User {
            user_id,
            username: username.to_owned(),
            email: email.to_owned(),
            password_hash: password_hash.to_owned(),
            voxel_id,
            admin,
            created_at,
            last_connected_at,
        }
    }
}

} // verus!
