//! Comments attached to a post or to a place.

use vstd::prelude::*;

verus! {

pub struct Comment {
    pub comment_id: i64,
    pub user_id: i64,
    pub place_id: Option<i64>,
    pub post_id: Option<i64>,
    pub content: String,
    pub created_at: i64,
}

impl Comment {
    pub fn new(
        comment_id: i64,
        user_id: i64,
        place_id: Option<i64>,
        post_id: Option<i64>,
        content: &str,
        created_at: i64,
    ) -> (r: Comment)
        ensures
            r.comment_id == comment_id,
            r.user_id == user_id,
            r.place_id == place_id,
            r.post_id == post_id,
            r.content@ == content@,
            r.created_at == created_at,
    {
        Comment {
            comment_id,
            user_id,
            place_id,
            post_id,
            content: content.to_owned(),
            created_at,
        }
    }
}

} // verus!
