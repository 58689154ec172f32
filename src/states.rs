//! Agent states, the decisions a transition policy can make, and the
//! default policy.
use vstd::prelude::*;
use crate::numeric::SCALE;

verus! {

/// The roles an agent can play.
#[derive(Clone, Copy, Debug, PartialEq, Eq, Structural)]
pub enum AgentType {
    Individual,
    Bot,
    Organisation,
}

/// What an agent is doing. Tick counters count whole ticks; the interest
/// gain is on the fixed-point scale.
#[derive(Clone, Debug)]
pub enum AgentState {
    Offline,
    Scrolling { recommended_post_ids: Vec<usize> },
    ReadingPost {
        post_id: usize,
        creator_id: usize,
        ticks_spent: u32,
        ticks_required: u32,
        potential_interest_gain: u64,
    },
    ReadingComments {
        post_id: usize,
        creator_id: usize,
        current_comment_ids: Vec<usize>,
        current_comment_index: usize,
        ticks_spent: u32,
        ticks_required: u32,
        potential_interest_gain: u64,
    },
    CreatingPost { post_id: usize, ticks_spent: u32, ticks_required: u32 },
    CreatingComment { post_id: usize, comment_id: usize, ticks_spent: u32, ticks_required: u32 },
}

impl AgentState {
    /// A reading-comments state points at one of its comments.
    pub open spec fn wf(&self) -> bool {
        match self {
            AgentState::ReadingComments { current_comment_ids, current_comment_index, .. } => {
                current_comment_index < current_comment_ids@.len()
            },
            _ => true,
        }
    }

    /// How far the current activity has got, on the fixed-point scale:
    /// ticks spent over ticks required (`SCALE` when none are required);
    /// offline and scrolling count as complete.
    pub fn progress(&self) -> (r: u64)
        ensures
            r as int == state_progress(*self),
    {
        let (spent, required) = match self {
            AgentState::Offline => {
                return SCALE;
            },
            AgentState::Scrolling { .. } => {
                return SCALE;
            },
            AgentState::ReadingPost { ticks_spent, ticks_required, .. } => (*ticks_spent, *ticks_required),
            AgentState::ReadingComments { ticks_spent, ticks_required, .. } => (
                *ticks_spent,
                *ticks_required,
            ),
            AgentState::CreatingPost { ticks_spent, ticks_required, .. } => (*ticks_spent, *ticks_required),
            AgentState::CreatingComment { ticks_spent, ticks_required, .. } => (
                *ticks_spent,
                *ticks_required,
            ),
        };
        if required == 0 {
            SCALE
        } else {
            proof {
                assert(spent * SCALE <= 0xFFFF_FFFF * SCALE) by (nonlinear_arith);
                assert((spent * SCALE) / (required as int) <= spent * SCALE) by (nonlinear_arith)
                    requires
                        required >= 1,
                ;
            }
            (spent as u64) * SCALE / (required as u64)
        }
    }

    /// The state's name for display.
    pub fn state_name(&self) -> (r: &'static str)
        ensures
            r@ == state_label(*self),
    {
        match self {
            AgentState::Offline => "Offline",
            AgentState::Scrolling { .. } => "Scrolling",
            AgentState::ReadingPost { .. } => "Reading Post",
            AgentState::ReadingComments { .. } => "Reading Comments",
            AgentState::CreatingPost { .. } => "Creating Post",
            AgentState::CreatingComment { .. } => "Creating Comment",
        }
    }
}

/// The display name of each state.
pub open spec fn state_label(s: AgentState) -> Seq<char> {
    match s {
        AgentState::Offline => "Offline"@,
        AgentState::Scrolling { .. } => "Scrolling"@,
        AgentState::ReadingPost { .. } => "Reading Post"@,
        AgentState::ReadingComments { .. } => "Reading Comments"@,
        AgentState::CreatingPost { .. } => "Creating Post"@,
        AgentState::CreatingComment { .. } => "Creating Comment"@,
    }
}

/// Ticks spent over ticks required on the fixed-point scale.
pub open spec fn fraction(spent: u32, required: u32) -> int {
    if required == 0 {
        SCALE as int
    } else {
        (spent * SCALE) / (required as int)
    }
}

pub open spec fn state_progress(s: AgentState) -> int {
    match s {
        AgentState::Offline => SCALE as int,
        AgentState::Scrolling { .. } => SCALE as int,
        AgentState::ReadingPost { ticks_spent, ticks_required, .. } => fraction(ticks_spent, ticks_required),
        AgentState::ReadingComments { ticks_spent, ticks_required, .. } => fraction(
            ticks_spent,
            ticks_required,
        ),
        AgentState::CreatingPost { ticks_spent, ticks_required, .. } => fraction(ticks_spent, ticks_required),
        AgentState::CreatingComment { ticks_spent, ticks_required, .. } => fraction(
            ticks_spent,
            ticks_required,
        ),
    }
}

#[derive(Clone, Copy, Debug, PartialEq, Eq, Structural)]
pub enum OfflineTransition {
    Stay,
    ToScrolling,
}

#[derive(Clone, Copy, Debug, PartialEq, Eq, Structural)]
pub enum ScrollingTransition {
    Refresh,
    ToReadingPost,
    ToReadingComments,
    ToCreatingPost,
    ToCreatingComment,
    ToOffline,
}

#[derive(Clone, Copy, Debug, PartialEq, Eq, Structural)]
pub enum ReadingPostTransition {
    Continue,
    ToScrolling,
    ToReadingComments,
    ToCreatingComment,
    ToOffline,
}

#[derive(Clone, Copy, Debug, PartialEq, Eq, Structural)]
pub enum ReadingCommentsTransition {
    Continue,
    ToScrolling,
    ToReadingPost,
    ToCreatingComment,
    ToOffline,
}

#[derive(Clone, Copy, Debug, PartialEq, Eq, Structural)]
pub enum CreatingPostTransition {
    Continue,
    ToScrolling,
    ToOffline,
}

#[derive(Clone, Copy, Debug, PartialEq, Eq, Structural)]
pub enum CreatingCommentTransition {
    Continue,
    ToScrolling,
    ToOffline,
}

/// The default transition policy. Each decision takes the agent's numbers
/// and draws on the fixed-point scale (uniform in `[0, SCALE)` when random).
#[derive(Clone, Copy, Debug, PartialEq, Eq, Structural)]
pub struct DefaultPolicy;

/// How an individual decides its next move in each state, from its
/// numbers and the draws of the tick. Each decision is a spec function and
/// the method that computes it.
pub trait TransitionPolicy {
    spec fn offline_decision(&self, next_post_likelihood: u32, draw: u64) -> OfflineTransition;

    fn decide_offline_transition(&self, next_post_likelihood: u32, draw: u64) -> (r: OfflineTransition)
        ensures
            r == self.offline_decision(next_post_likelihood, draw),
    ;

    spec fn scrolling_decision(&self, next_post_likelihood: u32, draw: u64) -> ScrollingTransition;

    fn decide_scrolling_transition(&self, next_post_likelihood: u32, draw: u64) -> (r: ScrollingTransition)
        ensures
            r == self.scrolling_decision(next_post_likelihood, draw),
    ;

    spec fn reading_post_decision(&self, ticks_spent: u32, ticks_required: u32, attention_span: u32, attention_draw: u64, draw: u64) -> ReadingPostTransition;

    fn decide_reading_post_transition(&self, ticks_spent: u32, ticks_required: u32, attention_span: u32, attention_draw: u64, draw: u64) -> (r: ReadingPostTransition)
        ensures
            r == self.reading_post_decision(ticks_spent, ticks_required, attention_span, attention_draw, draw),
    ;

    spec fn reading_comments_decision(&self, ticks_spent: u32, ticks_required: u32, current_comment_index: usize, comment_count: usize, draw: u64) -> ReadingCommentsTransition;

    fn decide_reading_comments_transition(&self, ticks_spent: u32, ticks_required: u32, current_comment_index: usize, comment_count: usize, draw: u64) -> (r: ReadingCommentsTransition)
        ensures
            r == self.reading_comments_decision(ticks_spent, ticks_required, current_comment_index, comment_count, draw),
    ;

    spec fn creating_post_decision(&self, ticks_spent: u32, ticks_required: u32, draw: u64) -> CreatingPostTransition;

    fn decide_creating_post_transition(&self, ticks_spent: u32, ticks_required: u32, draw: u64) -> (r: CreatingPostTransition)
        ensures
            r == self.creating_post_decision(ticks_spent, ticks_required, draw),
    ;

    spec fn creating_comment_decision(&self, ticks_spent: u32, ticks_required: u32, draw: u64) -> CreatingCommentTransition;

    fn decide_creating_comment_transition(&self, ticks_spent: u32, ticks_required: u32, draw: u64) -> (r: CreatingCommentTransition)
        ensures
            r == self.creating_comment_decision(ticks_spent, ticks_required, draw),
    ;
}

impl TransitionPolicy for DefaultPolicy {
    /// Go online when the draw falls below the likelihood of scrolling on.
    open spec fn offline_decision(&self, next_post_likelihood: u32, draw: u64) -> OfflineTransition {
        if (draw as int) < next_post_likelihood as int {
                OfflineTransition::ToScrolling
            } else {
                OfflineTransition::Stay
            }
    }

    fn decide_offline_transition(&self, next_post_likelihood: u32, draw: u64) -> (r: OfflineTransition) {
        if draw < next_post_likelihood as u64 {
            OfflineTransition::ToScrolling
        } else {
            OfflineTransition::Stay
        }
    }

    /// Read a post below 0.6 times the likelihood of scrolling on, else read
    /// comments below 0.8, create a post below 0.9, comment below 0.95, and
    /// otherwise go offline.
    open spec fn scrolling_decision(&self, next_post_likelihood: u32, draw: u64) -> ScrollingTransition {
        if (draw as int) * 10 < 6 * next_post_likelihood {
                ScrollingTransition::ToReadingPost
            } else if draw < 800_000 {
                ScrollingTransition::ToReadingComments
            } else if draw < 900_000 {
                ScrollingTransition::ToCreatingPost
            } else if draw < 950_000 {
                ScrollingTransition::ToCreatingComment
            } else {
                ScrollingTransition::ToOffline
            }
    }

    fn decide_scrolling_transition(&self, next_post_likelihood: u32, draw: u64) -> (r: ScrollingTransition) {
        if (draw as u128) * 10 < 6 * (next_post_likelihood as u128) {
            ScrollingTransition::ToReadingPost
        } else if draw < 800_000 {
            ScrollingTransition::ToReadingComments
        } else if draw < 900_000 {
            ScrollingTransition::ToCreatingPost
        } else if draw < 950_000 {
            ScrollingTransition::ToCreatingComment
        } else {
            ScrollingTransition::ToOffline
        }
    }

    /// Keep reading until the post is read or attention lapses (the
    /// attention draw exceeds the attention span); then read comments below
    /// 0.4, comment below 0.6, scroll below 0.95, and otherwise go offline.
    open spec fn reading_post_decision(&self, ticks_spent: u32, ticks_required: u32, attention_span: u32, attention_draw: u64, draw: u64) -> ReadingPostTransition {
        if ticks_spent < ticks_required && attention_draw <= attention_span {
                ReadingPostTransition::Continue
            } else if draw < 400_000 {
                ReadingPostTransition::ToReadingComments
            } else if draw < 600_000 {
                ReadingPostTransition::ToCreatingComment
            } else if draw < 950_000 {
                ReadingPostTransition::ToScrolling
            } else {
                ReadingPostTransition::ToOffline
            }
    }

    fn decide_reading_post_transition(&self, ticks_spent: u32, ticks_required: u32, attention_span: u32, attention_draw: u64, draw: u64) -> (r: ReadingPostTransition) {
        if ticks_spent < ticks_required && attention_draw <= attention_span as u64 {
            ReadingPostTransition::Continue
        } else if draw < 400_000 {
            ReadingPostTransition::ToReadingComments
        } else if draw < 600_000 {
            ReadingPostTransition::ToCreatingComment
        } else if draw < 950_000 {
            ReadingPostTransition::ToScrolling
        } else {
            ReadingPostTransition::ToOffline
        }
    }

    /// Keep reading the current comment until it is read, then go on to the
    /// next one; after the last, comment below 0.2, scroll below 0.9, and
    /// otherwise go offline.
    open spec fn reading_comments_decision(&self, ticks_spent: u32, ticks_required: u32, current_comment_index: usize, comment_count: usize, draw: u64) -> ReadingCommentsTransition {
        if ticks_spent < ticks_required || current_comment_index + 1 < comment_count {
                ReadingCommentsTransition::Continue
            } else if draw < 200_000 {
                ReadingCommentsTransition::ToCreatingComment
            } else if draw < 900_000 {
                ReadingCommentsTransition::ToScrolling
            } else {
                ReadingCommentsTransition::ToOffline
            }
    }

    fn decide_reading_comments_transition(&self, ticks_spent: u32, ticks_required: u32, current_comment_index: usize, comment_count: usize, draw: u64) -> (r: ReadingCommentsTransition) {
        if ticks_spent < ticks_required || (current_comment_index as u128) + 1
            < comment_count as u128 {
            ReadingCommentsTransition::Continue
        } else if draw < 200_000 {
            ReadingCommentsTransition::ToCreatingComment
        } else if draw < 900_000 {
            ReadingCommentsTransition::ToScrolling
        } else {
            ReadingCommentsTransition::ToOffline
        }
    }

    /// Keep writing until the post is done, then scroll below 0.8 and
    /// otherwise go offline.
    open spec fn creating_post_decision(&self, ticks_spent: u32, ticks_required: u32, draw: u64) -> CreatingPostTransition {
        if ticks_spent < ticks_required {
                CreatingPostTransition::Continue
            } else if draw < 800_000 {
                CreatingPostTransition::ToScrolling
            } else {
                CreatingPostTransition::ToOffline
            }
    }

    fn decide_creating_post_transition(&self, ticks_spent: u32, ticks_required: u32, draw: u64) -> (r: CreatingPostTransition) {
        if ticks_spent < ticks_required {
            CreatingPostTransition::Continue
        } else if draw < 800_000 {
            CreatingPostTransition::ToScrolling
        } else {
            CreatingPostTransition::ToOffline
        }
    }

    /// Keep writing until the comment is done, then scroll below 0.8 and
    /// otherwise go offline.
    open spec fn creating_comment_decision(&self, ticks_spent: u32, ticks_required: u32, draw: u64) -> CreatingCommentTransition {
        if ticks_spent < ticks_required {
                CreatingCommentTransition::Continue
            } else if draw < 800_000 {
                CreatingCommentTransition::ToScrolling
            } else {
                CreatingCommentTransition::ToOffline
            }
    }

    fn decide_creating_comment_transition(&self, ticks_spent: u32, ticks_required: u32, draw: u64) -> (r: CreatingCommentTransition) {
        if ticks_spent < ticks_required {
            CreatingCommentTransition::Continue
        } else if draw < 800_000 {
            CreatingCommentTransition::ToScrolling
        } else {
            CreatingCommentTransition::ToOffline
        }
    }
}

} // verus!
