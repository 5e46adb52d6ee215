//! Posts showcasing a voxel build.

use vstd::prelude::*;

verus! {

pub struct Post {
    pub id: i64,
    pub title: String,
    pub content: String,
    pub voxel_id: i64,
    pub votes: i64,
    pub author_id: i64,
    pub updated: bool,
    pub created_at: i64,
    pub updated_at: i64,
}

impl Post {
    pub fn new(
        id: i64,
        title: &str,
        content: &str,
        voxel_id: i64,
        votes: i64,
        author_id: i64,
        updated: bool,
        created_at: i64,
        updated_at: i64,
    ) -> (r: Post)
        ensures
            r.id == id,
            r.title@ == title@,
            r.content@ == content@,
            r.voxel_id == voxel_id,
            r.votes == votes,
            r.author_id == author_id,
            r.updated == updated,
            r.created_at == created_at,
            r.updated_at == updated_at,
    {
        Post {
            id,
            title: title.to_owned(),
            content: content.to_owned(),
            voxel_id,
            votes,
            author_id,
            updated,
            created_at,
            updated_at,
        }
    }
}

} // verus!
