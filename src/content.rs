//! Posts and the comments attached to them.
use vstd::prelude::*;
use crate::interest::InterestProfile;

verus! {

/// A post. Only `readers`, `comments` and `engagement_score` change after
/// it is made, and only through the engine.
#[derive(Clone, Debug)]
pub struct Content {
    pub id: usize,
    pub creator_id: usize,
    pub timestamp: i64,
    pub interest_profile: InterestProfile,
    pub length: u32,
    pub readers: Vec<usize>,
    pub comments: Vec<Comment>,
    pub engagement_score: u64,
}

/// Posts are content items.
pub type Post = Content;

/// A comment, owned by exactly one post.
#[derive(Clone, Debug)]
pub struct Comment {
    pub id: usize,
    pub commentor_id: usize,
    pub timestamp: i64,
    pub interest_profile: InterestProfile,
    pub length: u32,
    pub engagement_score: u64,
}

impl Content {
    /// A new post with no readers, comments or engagement.
    pub fn new(
        id: usize,
        creator_id: usize,
        timestamp: i64,
        interest_profile: InterestProfile,
        length: u32,
    ) -> (r: Self)
        ensures
            r.id == id,
            r.creator_id == creator_id,
            r.timestamp == timestamp,
            r.interest_profile == interest_profile,
            r.length == length,
            r.readers@.len() == 0,
            r.comments@.len() == 0,
            r.engagement_score == 0,
    {
        Content {
            id,
            creator_id,
            timestamp,
            interest_profile,
            length,
            readers: Vec::new(),
            comments: Vec::new(),
            engagement_score: 0,
        }
    }

    /// Raises the engagement by one unit (saturating at the largest value).
    pub fn increase_engagement(&mut self)
        ensures
            final(self).engagement_score == if old(self).engagement_score == u64::MAX {
                u64::MAX
            } else {
                (old(self).engagement_score + 1) as u64
            },
            final(self).id == old(self).id,
            final(self).creator_id == old(self).creator_id,
            final(self).timestamp == old(self).timestamp,
            final(self).interest_profile == old(self).interest_profile,
            final(self).length == old(self).length,
            final(self).readers == old(self).readers,
            final(self).comments == old(self).comments,
    {
        self.engagement_score = self.engagement_score.saturating_add(1);
    }
}

impl Comment {
    /// A new comment with no engagement.
    pub fn new(
        id: usize,
        commentor_id: usize,
        timestamp: i64,
        interest_profile: InterestProfile,
        length: u32,
    ) -> (r: Self)
        ensures
            r.id == id,
            r.commentor_id == commentor_id,
            r.timestamp == timestamp,
            r.interest_profile == interest_profile,
            r.length == length,
            r.engagement_score == 0,
    {
        Comment { id, commentor_id, timestamp, interest_profile, length, engagement_score: 0 }
    }
}

} // verus!
