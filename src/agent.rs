//! Agents: the core every role shares, and individuals with their
//! per-tick state machine step.
use vstd::prelude::*;
use crate::numeric::{MAX_DIMENSION, SCALE, similarity, vector_ok, vector_similarity};
use crate::interest::{
    InterestProfile, absorbed, filtered, has_tag, lemma_filtered_tags, lemma_normalised_tags, min_nat,
    normalised, normalises_to, saturate_u32,
};
use crate::content::{Comment, Content, Post};
use crate::engine::{
    RecommendationEngine, comment_ids_at, engagement_scores, first_index, has_id, ids_at,
    interest_gain, is_first_with_id, is_top_ranking, lemma_first_index, post_wf, required_ticks,
    unseen, unviewed,
};
use crate::states::{
    AgentState, CreatingCommentTransition, CreatingPostTransition, DefaultPolicy, TransitionPolicy,
    OfflineTransition, ReadingCommentsTransition, ReadingPostTransition, ScrollingTransition,
};
use crate::config::SimulationConfig;
use crate::errors::TransitionError;
use crate::chance::{now_millis, random_below};

verus! {

/// How many posts one recommendation batch holds.
pub const RECOMMENDATION_BATCH: usize = 10;

/// What every agent has, whatever its role.
#[derive(Clone, Debug)]
pub struct AgentCore {
    pub id: usize,
    /// `SCALE` posts most often, zero never.
    pub content_creation_frequency: u32,
    pub created_content: Vec<usize>,
    /// Fraction of the base content length spent writing, on the scale.
    pub create_speed: u32,
    /// Decides the profile of the content the agent creates.
    pub interest_profile: InterestProfile,
}

/// Content made by an agent in one tick, waiting to join the pool.
#[derive(Clone, Debug)]
pub enum NewContent {
    Post(Content),
    Comment { post_id: usize, comment: Comment },
}

impl AgentCore {
    pub open spec fn wf(&self) -> bool {
        &&& self.interest_profile.wf()
        &&& self.create_speed <= SCALE
        &&& self.content_creation_frequency <= SCALE
    }

    /// A core with an empty profile of the given dimension.
    pub fn new(
        id: usize,
        dimension_size: usize,
        content_creation_frequency: u32,
        create_speed: u32,
    ) -> (r: Self)
        requires
            dimension_size <= MAX_DIMENSION,
            content_creation_frequency <= SCALE,
            create_speed <= SCALE,
        ensures
            r.wf(),
            r.id == id,
            r.content_creation_frequency == content_creation_frequency,
            r.create_speed == create_speed,
            r.created_content@.len() == 0,
            r.interest_profile.interests@.len() == 0,
            r.interest_profile.vector_representation@.len() == dimension_size,
    {
        AgentCore {
            id,
            content_creation_frequency,
            created_content: Vec::new(),
            create_speed,
            interest_profile: InterestProfile::new(dimension_size),
        }
    }

    /// Ticks needed to write content of the base length.
    pub fn writing_ticks(&self, config: &SimulationConfig) -> (r: u32)
        requires
            self.create_speed <= SCALE,
        ensures
            r as int == (config.base_content_length * self.create_speed) / (SCALE as int),
    {
        proof {
            assert((config.base_content_length * self.create_speed) / (SCALE as int)
                <= config.base_content_length) by (nonlinear_arith)
                requires
                    self.create_speed <= SCALE,
            ;
        }
        ((config.base_content_length as u64) * (self.create_speed as u64) / SCALE) as u32
    }

    proof fn profile_of_tags(&self, tags: Seq<usize>, profile: InterestProfile, config: &SimulationConfig)
        requires
            self.wf(),
            config.wf(),
            tags.no_duplicates(),
            forall|t: usize| tags.contains(t) ==> has_tag(self.interest_profile.interests@, t as int),
            self.interest_profile.interests@.len() > 0 ==> 1 <= tags.len(),
            self.interest_profile.interests@.len() > 0 ==> tags.len() <= (if min_nat(
                config.max_content_tags as int,
                self.interest_profile.interests@.len() as int,
            ) == 0 {
                1
            } else {
                min_nat(config.max_content_tags as int, self.interest_profile.interests@.len() as int)
            }),
            self.interest_profile.interests@.len() == 0 ==> tags.len() == 0,
            profile.interests@ == normalised(filtered(self.interest_profile.interests@, tags)),
        ensures
            self.interest_profile.interests@.len() > 0 ==> profile.interests@.len() >= 1,
            profile.interests@.len() <= (if config.max_content_tags == 0 {
                1
            } else {
                config.max_content_tags as int
            }),
            forall|k: int|
                0 <= k < profile.interests@.len() ==> has_tag(
                    self.interest_profile.interests@,
                    (#[trigger] profile.interests@[k]).0 as int,
                ),
    {
        let s = self.interest_profile.interests@;
        assert forall|k: int| 0 <= k < tags.len() implies has_tag(s, #[trigger] tags[k] as int) by {
            assert(tags.contains(tags[k]));
        }
        lemma_filtered_tags(s, tags);
        lemma_normalised_tags(filtered(s, tags));
    }

    /// A new post by this agent: tags chosen from its interests, the
    /// profile cut down to them and normalised, a random length below the
    /// maximum. Its id is zero until the engine gives it one.
    pub fn generate_content(&self, config: &SimulationConfig, timestamp: i64) -> (r: Post)
        requires
            self.wf(),
            config.wf(),
        ensures
            r.creator_id == self.id,
            r.timestamp == timestamp,
            r.id == 0,
            r.length < config.max_post_length || r.length == 0,
            r.engagement_score == 0,
            r.comments@.len() == 0,
            r.readers@.len() == 0,
            r.interest_profile.wf(),
            r.interest_profile.vector_representation@.len()
                == self.interest_profile.vector_representation@.len(),
            self.interest_profile.interests@.len() > 0 ==> r.interest_profile.interests@.len() >= 1,
            r.interest_profile.interests@.len() <= (if config.max_content_tags == 0 {
                1
            } else {
                config.max_content_tags as int
            }),
            forall|k: int|
                0 <= k < r.interest_profile.interests@.len() ==> has_tag(
                    self.interest_profile.interests@,
                    (#[trigger] r.interest_profile.interests@[k]).0 as int,
                ),
            exists|tags: Seq<usize>|
                r.interest_profile.interests@ == normalised(filtered(self.interest_profile.interests@, tags)),
    {
        let tags = self.interest_profile.select_content_tags(
            config.min_content_tags,
            config.max_content_tags,
        );
        let profile = self.interest_profile.filtered_clone(&tags);
        proof {
            self.profile_of_tags(tags@, profile, config);
        }
        let length: u32 = if config.max_post_length > 0 {
            random_below(config.max_post_length as u128) as u32
        } else {
            0
        };
        Content::new(0, self.id, timestamp, profile, length)
    }

    /// A new comment by this agent, made like a post's content with a
    /// random length below the comment maximum.
    pub fn generate_comment(&self, config: &SimulationConfig, timestamp: i64) -> (r: Comment)
        requires
            self.wf(),
            config.wf(),
        ensures
            r.commentor_id == self.id,
            r.timestamp == timestamp,
            r.id == 0,
            r.length < config.max_comment_length || r.length == 0,
            r.engagement_score == 0,
            r.interest_profile.wf(),
            r.interest_profile.vector_representation@.len()
                == self.interest_profile.vector_representation@.len(),
            self.interest_profile.interests@.len() > 0 ==> r.interest_profile.interests@.len() >= 1,
            r.interest_profile.interests@.len() <= (if config.max_content_tags == 0 {
                1
            } else {
                config.max_content_tags as int
            }),
            forall|k: int|
                0 <= k < r.interest_profile.interests@.len() ==> has_tag(
                    self.interest_profile.interests@,
                    (#[trigger] r.interest_profile.interests@[k]).0 as int,
                ),
    {
        let tags = self.interest_profile.select_content_tags(
            config.min_content_tags,
            config.max_content_tags,
        );
        let profile = self.interest_profile.filtered_clone(&tags);
        proof {
            self.profile_of_tags(tags@, profile, config);
        }
        let length: u32 = if config.max_comment_length > 0 {
            random_below(config.max_comment_length as u128) as u32
        } else {
            0
        };
        Comment::new(0, self.id, timestamp, profile, length)
    }
}

/// What only individuals have. Probabilities are on the fixed-point scale.
#[derive(Clone, Debug)]
pub struct IndividualCore {
    /// `SCALE` keeps scrolling for sure, zero stops now.
    pub next_post_likelihood: u32,
    /// `SCALE` reads any length of post, zero just reads headlines.
    pub attention_span: u32,
    /// `SCALE` consumes instantly, zero never finishes.
    pub read_speed: u32,
    /// Posts the individual has started to read.
    pub viewed_content: Vec<usize>,
    /// Ticks of the current online session.
    pub session_length_ticks: u32,
}

/// The draws one tick of an individual uses, each uniform in `[0, SCALE)`
/// when random.
#[derive(Clone, Copy, Debug, PartialEq, Eq, Structural)]
pub struct TickDraws {
    pub decision: u64,
    pub attention: u64,
    pub selection: u64,
}

/// An individual: the shared core, its own traits and its current state.
#[derive(Clone, Debug)]
pub struct Individual {
    pub individual_core: IndividualCore,
    pub core: AgentCore,
    pub state: AgentState,
}

/// Which of the six states this is.
pub open spec fn kind(s: AgentState) -> int {
    match s {
        AgentState::Offline => 0,
        AgentState::Scrolling { .. } => 1,
        AgentState::ReadingPost { .. } => 2,
        AgentState::ReadingComments { .. } => 3,
        AgentState::CreatingPost { .. } => 4,
        AgentState::CreatingComment { .. } => 5,
    }
}

/// The moves the state machine allows in one tick. Reading a post or
/// writing goes on with the same item one tick further; reading comments
/// goes on with the same post.
pub open spec fn may_follow(from: AgentState, to: AgentState) -> bool {
    match from {
        AgentState::Offline => kind(to) == 0 || kind(to) == 1,
        AgentState::Scrolling { .. } => true,
        AgentState::ReadingPost { post_id, ticks_spent, .. } => match to {
            AgentState::ReadingPost { post_id: next_post, ticks_spent: next_spent, .. } => next_post == post_id && next_spent
                == ticks_spent + 1,
            _ => kind(to) != 4,
        },
        AgentState::ReadingComments { post_id, .. } => match to {
            AgentState::ReadingComments { post_id: next_post, .. } => next_post == post_id,
            _ => kind(to) == 5 || kind(to) == 1 || kind(to) == 0,
        },
        AgentState::CreatingPost { post_id, ticks_spent, .. } => match to {
            AgentState::CreatingPost { post_id: next_post, ticks_spent: next_spent, .. } => next_post == post_id && next_spent
                == ticks_spent + 1,
            _ => kind(to) == 1 || kind(to) == 0,
        },
        AgentState::CreatingComment { post_id, ticks_spent, .. } => match to {
            AgentState::CreatingComment { post_id: next_post, ticks_spent: next_spent, .. } => next_post == post_id && next_spent
                == ticks_spent + 1,
            _ => kind(to) == 1 || kind(to) == 0,
        },
    }
}

/// The weight of a recommended post for an agent with interest vector
/// `agent`: its similarity, or zero if the post is not in the pool.
pub open spec fn post_weight(pool: Seq<Content>, agent: Seq<u32>, id: usize) -> int {
    if has_id(pool, id) {
        similarity(agent, pool[first_index(pool, id)].interest_profile.vector_representation@)
    } else {
        0
    }
}

/// Total weight of the first `k` recommended posts.
pub open spec fn weight_prefix(pool: Seq<Content>, agent: Seq<u32>, ids: Seq<usize>, k: int) -> int
    decreases k,
{
    if k <= 0 {
        0
    } else {
        weight_prefix(pool, agent, ids, k - 1) + post_weight(pool, agent, ids[k - 1])
    }
}

/// The value walked down the list: the draw modulo the total weight.
pub open spec fn walk_value(pool: Seq<Content>, agent: Seq<u32>, ids: Seq<usize>, draw: u64) -> int {
    let t = weight_prefix(pool, agent, ids, ids.len() as int);
    if t > 0 {
        (draw as int) % t
    } else {
        0
    }
}

/// The walk stops at position `k`: the first at which the running weight
/// exceeds the value, or the last position if none does.
pub open spec fn walk_stops_at(pool: Seq<Content>, agent: Seq<u32>, ids: Seq<usize>, v: int, k: int) -> bool {
    &&& 0 <= k < ids.len()
    &&& forall|j: int| 0 <= j < k ==> v >= #[trigger] weight_prefix(pool, agent, ids, j + 1)
    &&& (v < weight_prefix(pool, agent, ids, k + 1) || k == ids.len() - 1)
}

/// The intensity absorbed on a tick of reading: the potential gain over
/// one more than the ticks already spent (front-loaded), saturating.
pub open spec fn tick_intensity(gain: u64, ticks_spent: u32) -> u32 {
    saturate_u32((gain as int) / (ticks_spent as int + 1))
}

/// `ids` is a fresh batch of recommendations for a viewer with this
/// profile and these viewed posts at time `now`.
pub open spec fn is_fresh_batch(
    engine: RecommendationEngine,
    profile: InterestProfile,
    viewed: Seq<usize>,
    now: i64,
    ids: Seq<usize>,
) -> bool {
    exists|idx: Seq<usize>|
        is_top_ranking(
            engine.post_scores(profile, now),
            unviewed(engine.content_pool@, viewed),
            RECOMMENDATION_BATCH as int,
            idx,
        ) && ids == ids_at(engine.content_pool@, idx)
}

/// With no posts in the pool, a fresh batch is empty.
pub proof fn lemma_fresh_batch_of_empty_pool(
    engine: RecommendationEngine,
    profile: InterestProfile,
    viewed: Seq<usize>,
    now: i64,
    ids: Seq<usize>,
)
    requires
        engine.content_pool@.len() == 0,
        is_fresh_batch(engine, profile, viewed, now, ids),
    ensures
        ids.len() == 0,
{
    let idx = choose|idx: Seq<usize>|
        is_top_ranking(
            engine.post_scores(profile, now),
            unviewed(engine.content_pool@, viewed),
            RECOMMENDATION_BATCH as int,
            idx,
        ) && ids == ids_at(engine.content_pool@, idx);
    if idx.len() > 0 {
        assert(idx[0] < engine.post_scores(profile, now).len());
    }
}

/// The individual goes back to scrolling a fresh batch, its interests and
/// viewed posts as they were at the start of the tick.
pub open spec fn scrolls_afresh(engine: RecommendationEngine, ind: Individual, now: i64, s: AgentState) -> bool {
    &&& s is Scrolling
    &&& is_fresh_batch(
        engine,
        ind.core.interest_profile,
        ind.individual_core.viewed_content@,
        now,
        s->Scrolling_recommended_post_ids@,
    )
}

pub open spec fn has_comment(cs: Seq<Comment>, id: usize) -> bool {
    exists|i: int| 0 <= i < cs.len() && cs[i].id == id
}

pub open spec fn is_first_comment(cs: Seq<Comment>, id: usize, i: int) -> bool {
    &&& 0 <= i < cs.len()
    &&& cs[i].id == id
    &&& forall|j: int| 0 <= j < i ==> cs[j].id != id
}

/// The first comment with this id (meaningful when there is one).
pub open spec fn comment_with_id(cs: Seq<Comment>, id: usize) -> Comment {
    cs[choose|i: int| is_first_comment(cs, id, i)]
}

/// The state of starting to read `post`.
pub open spec fn reading_post_state(ind: Individual, post: Content) -> AgentState {
    AgentState::ReadingPost {
        post_id: post.id,
        creator_id: post.creator_id,
        ticks_spent: 0,
        ticks_required: required_ticks(post.length, ind.individual_core.read_speed) as u32,
        potential_interest_gain: interest_gain(ind.core.interest_profile, post.interest_profile) as u64,
    }
}

/// `s` is the state of starting to read comment `index` of the batch `ids`
/// on `post`.
pub open spec fn reads_comment(ind: Individual, post: Content, ids: Seq<usize>, index: int, s: AgentState) -> bool {
    let c = comment_with_id(post.comments@, ids[index]);
    &&& s is ReadingComments
    &&& s->ReadingComments_post_id == post.id
    &&& s->ReadingComments_creator_id == post.creator_id
    &&& s->ReadingComments_current_comment_ids@ == ids
    &&& s->ReadingComments_current_comment_index == index
    &&& s->ReadingComments_ticks_spent == 0
    &&& s->ReadingComments_ticks_required == required_ticks(c.length, ind.individual_core.read_speed)
    &&& s->ReadingComments_potential_interest_gain == interest_gain(
        ind.core.interest_profile,
        c.interest_profile,
    )
}

/// `s` starts reading the best comments of `post`, from the first.
pub open spec fn reads_top_comments(ind: Individual, post: Content, s: AgentState) -> bool {
    let cs = post.comments@;
    exists|idx: Seq<usize>|
        #![trigger comment_ids_at(cs, idx)]
        is_top_ranking(
            engagement_scores(cs),
            unseen(cs, Seq::<usize>::empty()),
            RECOMMENDATION_BATCH as int,
            idx,
        ) && idx.len() > 0 && reads_comment(ind, post, comment_ids_at(cs, idx), 0, s)
}

/// Ticks an agent with this core needs to write content of the base length.
pub open spec fn writing_ticks_of(core: AgentCore, config: SimulationConfig) -> u32 {
    ((config.base_content_length * core.create_speed) / (SCALE as int)) as u32
}

/// The state of starting a comment on the post with this id.
pub open spec fn commenting_state(
    ind: Individual,
    engine: RecommendationEngine,
    config: SimulationConfig,
    post_id: usize,
) -> AgentState {
    AgentState::CreatingComment {
        post_id,
        comment_id: engine.next_id,
        ticks_spent: 0,
        ticks_required: writing_ticks_of(ind.core, config),
    }
}

proof fn lemma_comment_with_id(cs: Seq<Comment>, id: usize, i: int)
    requires
        is_first_comment(cs, id, i),
    ensures
        comment_with_id(cs, id) == cs[i],
{
    let c = choose|k: int| is_first_comment(cs, id, k);
    assert(is_first_comment(cs, id, c));
    if c < i {
        assert(cs[c].id != id);
    } else if i < c {
        assert(cs[i].id != id);
    }
}

/// `item` was made by the agent with this id.
pub open spec fn made_by(item: NewContent, creator: usize) -> bool {
    match item {
        NewContent::Post(p) => p.creator_id == creator,
        NewContent::Comment { comment, .. } => comment.commentor_id == creator,
    }
}

/// The `Offline` part of `steps_under`.
pub open spec fn step_from_offline<P: TransitionPolicy>(
    policy: P,
    before: Individual,
    after: Individual,
    engine: RecommendationEngine,
    config: SimulationConfig,
    now: i64,
    draws: TickDraws,
    r: Option<NewContent>,
) -> bool {
    let pool = engine.content_pool@;
    let fresh = scrolls_afresh(engine, before, now, after.state);
    r.is_none() && (if policy.offline_decision(
        before.individual_core.next_post_likelihood,
        draws.decision,
    ) == OfflineTransition::ToScrolling {
        fresh
    } else {
        after.state is Offline
    })
}

/// The `Scrolling` part of `steps_under`.
pub open spec fn step_from_scrolling<P: TransitionPolicy>(
    policy: P,
    before: Individual,
    after: Individual,
    engine: RecommendationEngine,
    config: SimulationConfig,
    now: i64,
    draws: TickDraws,
    r: Option<NewContent>,
) -> bool {
    let pool = engine.content_pool@;
    let fresh = scrolls_afresh(engine, before, now, after.state);
    r.is_none() && ({
        let dec = policy.scrolling_decision(
            before.individual_core.next_post_likelihood,
            draws.decision,
        );
        let recs = before.state->Scrolling_recommended_post_ids@;
        let v = walk_value(
            pool,
            before.core.interest_profile.vector_representation@,
            recs,
            draws.selection,
        );
        let picks = dec == ScrollingTransition::ToReadingPost || dec
            == ScrollingTransition::ToReadingComments || dec == ScrollingTransition::ToCreatingComment;
        &&& dec == ScrollingTransition::ToCreatingPost ==> after.state == (
        AgentState::CreatingPost {
            post_id: engine.next_id,
            ticks_spent: 0,
            ticks_required: writing_ticks_of(before.core, config),
        })
        &&& dec == ScrollingTransition::ToOffline ==> after.state is Offline
        &&& dec == ScrollingTransition::Refresh ==> fresh
        &&& picks && recs.len() == 0 ==> fresh
        &&& picks ==> forall|k: int|
            #[trigger] walk_stops_at(
                pool,
                before.core.interest_profile.vector_representation@,
                recs,
                v,
                k,
            ) ==> {
                let found = has_id(pool, recs[k]);
                let post = pool[first_index(pool, recs[k])];
                &&& !found ==> fresh
                &&& found && dec == ScrollingTransition::ToReadingPost ==> after.state
                    == reading_post_state(before, post) && after.individual_core.viewed_content@
                    == before.individual_core.viewed_content@.push(recs[k])
                &&& found && dec == ScrollingTransition::ToReadingComments ==> (if post.comments@.len()
                    > 0 {
                    reads_top_comments(before, post, after.state)
                } else {
                    fresh
                })
                &&& found && dec == ScrollingTransition::ToCreatingComment ==> after.state
                    == commenting_state(before, engine, config, recs[k])
            }
    })
}

/// The `ReadingPost` part of `steps_under`.
pub open spec fn step_from_reading_post<P: TransitionPolicy>(
    policy: P,
    before: Individual,
    after: Individual,
    engine: RecommendationEngine,
    config: SimulationConfig,
    now: i64,
    draws: TickDraws,
    r: Option<NewContent>,
) -> bool {
    let pool = engine.content_pool@;
    let fresh = scrolls_afresh(engine, before, now, after.state);
    r.is_none() && ({
        let s = before.state;
        let spent = s->ReadingPost_ticks_spent;
        let dec = policy.reading_post_decision(
            spent,
            s->ReadingPost_ticks_required,
            before.individual_core.attention_span,
            draws.attention,
            draws.decision,
        );
        let found = has_id(pool, s->ReadingPost_post_id);
        let post = pool[first_index(pool, s->ReadingPost_post_id)];
        &&& dec == ReadingPostTransition::Continue && found && spent < u32::MAX ==> {
            &&& after.state == (AgentState::ReadingPost {
                post_id: s->ReadingPost_post_id,
                creator_id: s->ReadingPost_creator_id,
                ticks_spent: (spent + 1) as u32,
                ticks_required: s->ReadingPost_ticks_required,
                potential_interest_gain: s->ReadingPost_potential_interest_gain,
            })
            &&& normalises_to(
                absorbed(
                    before.core.interest_profile.interests@,
                    post.interest_profile.interests@,
                    tick_intensity(s->ReadingPost_potential_interest_gain, spent),
                ),
                before.core.interest_profile.vector_representation@,
                after.core.interest_profile,
            )
        }
        &&& dec == ReadingPostTransition::Continue && !(found && spent < u32::MAX) ==> fresh
        &&& dec == ReadingPostTransition::ToOffline ==> after.state is Offline
        &&& dec == ReadingPostTransition::ToScrolling ==> fresh
        &&& dec == ReadingPostTransition::ToReadingComments ==> (if found && post.comments@.len() > 0 {
            reads_top_comments(before, post, after.state)
        } else {
            fresh
        })
        &&& dec == ReadingPostTransition::ToCreatingComment ==> (if found {
            after.state == commenting_state(before, engine, config, s->ReadingPost_post_id)
        } else {
            fresh
        })
    })
}

/// The `ReadingComments` part of `steps_under`.
pub open spec fn step_from_reading_comments<P: TransitionPolicy>(
    policy: P,
    before: Individual,
    after: Individual,
    engine: RecommendationEngine,
    config: SimulationConfig,
    now: i64,
    draws: TickDraws,
    r: Option<NewContent>,
) -> bool {
    let pool = engine.content_pool@;
    let fresh = scrolls_afresh(engine, before, now, after.state);
    r.is_none() && ({
        let s = before.state;
        let ids = s->ReadingComments_current_comment_ids@;
        let index = s->ReadingComments_current_comment_index as int;
        let spent = s->ReadingComments_ticks_spent;
        let dec = policy.reading_comments_decision(
            spent,
            s->ReadingComments_ticks_required,
            s->ReadingComments_current_comment_index,
            s->ReadingComments_current_comment_ids@.len() as usize,
            draws.decision,
        );
        let found = has_id(pool, s->ReadingComments_post_id);
        let post = pool[first_index(pool, s->ReadingComments_post_id)];
        let going_on = dec == ReadingCommentsTransition::Continue;
        &&& going_on && found && spent < s->ReadingComments_ticks_required ==> (if has_comment(
            post.comments@,
            ids[index],
        ) {
            &&& after.state == (AgentState::ReadingComments {
                post_id: s->ReadingComments_post_id,
                creator_id: s->ReadingComments_creator_id,
                current_comment_ids: s->ReadingComments_current_comment_ids,
                current_comment_index: s->ReadingComments_current_comment_index,
                ticks_spent: (spent + 1) as u32,
                ticks_required: s->ReadingComments_ticks_required,
                potential_interest_gain: s->ReadingComments_potential_interest_gain,
            })
            &&& normalises_to(
                absorbed(
                    before.core.interest_profile.interests@,
                    comment_with_id(post.comments@, ids[index]).interest_profile.interests@,
                    tick_intensity(s->ReadingComments_potential_interest_gain, spent),
                ),
                before.core.interest_profile.vector_representation@,
                after.core.interest_profile,
            )
        } else {
            fresh
        })
        &&& going_on && found && spent >= s->ReadingComments_ticks_required ==> (if index + 1
            < ids.len() && has_comment(post.comments@, ids[index + 1]) {
            reads_comment(before, post, ids, index + 1, after.state)
        } else {
            fresh
        })
        &&& going_on && !found ==> fresh
        &&& dec == ReadingCommentsTransition::ToOffline ==> after.state is Offline
        &&& dec == ReadingCommentsTransition::ToScrolling ==> fresh
        &&& dec == ReadingCommentsTransition::ToReadingPost ==> fresh
        &&& dec == ReadingCommentsTransition::ToCreatingComment ==> (if found {
            after.state == commenting_state(before, engine, config, s->ReadingComments_post_id)
        } else {
            fresh
        })
    })
}

/// The `CreatingPost` part of `steps_under`.
pub open spec fn step_from_creating_post<P: TransitionPolicy>(
    policy: P,
    before: Individual,
    after: Individual,
    engine: RecommendationEngine,
    config: SimulationConfig,
    now: i64,
    draws: TickDraws,
    r: Option<NewContent>,
) -> bool {
    let pool = engine.content_pool@;
    let fresh = scrolls_afresh(engine, before, now, after.state);
    ({
        let s = before.state;
        let spent = s->CreatingPost_ticks_spent;
        let dec = policy.creating_post_decision(spent, s->CreatingPost_ticks_required, draws.decision);
        &&& dec == CreatingPostTransition::Continue ==> r.is_none() && (if spent < u32::MAX {
            after.state == (AgentState::CreatingPost {
                post_id: s->CreatingPost_post_id,
                ticks_spent: (spent + 1) as u32,
                ticks_required: s->CreatingPost_ticks_required,
            })
        } else {
            fresh
        })
        &&& dec != CreatingPostTransition::Continue ==> {
            &&& r.is_some()
            &&& match r.unwrap() {
                NewContent::Post(p) => p.creator_id == before.core.id && p.timestamp == now,
                _ => false,
            }
            &&& dec == CreatingPostTransition::ToScrolling ==> fresh
            &&& dec == CreatingPostTransition::ToOffline ==> after.state is Offline
        }
    })
}

/// The `CreatingComment` part of `steps_under`.
pub open spec fn step_from_creating_comment<P: TransitionPolicy>(
    policy: P,
    before: Individual,
    after: Individual,
    engine: RecommendationEngine,
    config: SimulationConfig,
    now: i64,
    draws: TickDraws,
    r: Option<NewContent>,
) -> bool {
    let pool = engine.content_pool@;
    let fresh = scrolls_afresh(engine, before, now, after.state);
    ({
        let s = before.state;
        let spent = s->CreatingComment_ticks_spent;
        let dec = policy.creating_comment_decision(
            spent,
            s->CreatingComment_ticks_required,
            draws.decision,
        );
        &&& dec == CreatingCommentTransition::Continue ==> r.is_none() && (if spent < u32::MAX {
            after.state == (AgentState::CreatingComment {
                post_id: s->CreatingComment_post_id,
                comment_id: s->CreatingComment_comment_id,
                ticks_spent: (spent + 1) as u32,
                ticks_required: s->CreatingComment_ticks_required,
            })
        } else {
            fresh
        })
        &&& dec != CreatingCommentTransition::Continue ==> {
            &&& r.is_some()
            &&& match r.unwrap() {
                NewContent::Comment { post_id, comment } => post_id == s->CreatingComment_post_id
                    && comment.commentor_id == before.core.id && comment.timestamp == now,
                _ => false,
            }
            &&& dec == CreatingCommentTransition::ToScrolling ==> fresh
            &&& dec == CreatingCommentTransition::ToOffline ==> after.state is Offline
        }
    })
}

/// One tick of an individual under `policy`: from `before`, reading
/// `engine` as it stood at the start of the tick, with the time `now` and
/// the draws `draws`, it becomes `after` and hands back `r`. A post or
/// comment that is gone, or a post without comments, sends it back to
/// scrolling a fresh batch.
pub open spec fn steps_under<P: TransitionPolicy>(
    policy: P,
    before: Individual,
    after: Individual,
    engine: RecommendationEngine,
    config: SimulationConfig,
    now: i64,
    draws: TickDraws,
    r: Option<NewContent>,
) -> bool {
    &&& after.wf()
    &&& after.core.id == before.core.id
    &&& may_follow(before.state, after.state)
    &&& r.is_some() ==> (before.state is CreatingPost || before.state is CreatingComment)
    &&& r.is_some() ==> new_content_wf(r.unwrap())
    &&& r.is_some() ==> made_by(r.unwrap(), before.core.id)
    &&& before.state is Offline ==> step_from_offline(policy, before, after, engine, config, now, draws, r)
    &&& before.state is Scrolling ==> step_from_scrolling(policy, before, after, engine, config, now, draws, r)
    &&& before.state is ReadingPost ==> step_from_reading_post(policy, before, after, engine, config, now, draws, r)
    &&& before.state is ReadingComments ==> step_from_reading_comments(policy, before, after, engine, config, now, draws, r)
    &&& before.state is CreatingPost ==> step_from_creating_post(policy, before, after, engine, config, now, draws, r)
    &&& before.state is CreatingComment ==> step_from_creating_comment(policy, before, after, engine, config, now, draws, r)
}

/// One tick of an individual under the default policy; content comes out
/// only when writing is done.
pub open spec fn steps_to(
    before: Individual,
    after: Individual,
    engine: RecommendationEngine,
    config: SimulationConfig,
    now: i64,
    draws: TickDraws,
    r: Option<NewContent>,
) -> bool {
    &&& steps_under(DefaultPolicy, before, after, engine, config, now, draws, r)
    &&& r.is_some() ==> finishes_writing(before.state)
}

/// Content comes out only when writing is done.
pub open spec fn finishes_writing(from: AgentState) -> bool {
    match from {
        AgentState::CreatingPost { ticks_spent, ticks_required, .. } => ticks_spent >= ticks_required,
        AgentState::CreatingComment { ticks_spent, ticks_required, .. } => ticks_spent
            >= ticks_required,
        _ => false,
    }
}

/// New content fits the engine's arithmetic and a new post has no comments.
pub open spec fn new_content_wf(c: NewContent) -> bool {
    match c {
        NewContent::Post(p) => post_wf(p) && p.comments@.len() == 0,
        NewContent::Comment { comment, .. } => vector_ok(comment.interest_profile.vector_representation@),
    }
}

impl Individual {
    pub open spec fn wf(&self) -> bool {
        &&& self.core.wf()
        &&& vector_ok(self.core.interest_profile.vector_representation@)
        &&& self.individual_core.next_post_likelihood <= SCALE
        &&& self.individual_core.attention_span <= SCALE
        &&& self.individual_core.read_speed <= SCALE
        &&& self.state.wf()
    }

    /// An offline individual with the given traits and an empty profile.
    pub fn new(
        id: usize,
        dimension_size: usize,
        next_post_likelihood: u32,
        attention_span: u32,
        read_speed: u32,
        create_speed: u32,
    ) -> (r: Self)
        requires
            dimension_size <= MAX_DIMENSION,
            next_post_likelihood <= SCALE,
            attention_span <= SCALE,
            read_speed <= SCALE,
            create_speed <= SCALE,
        ensures
            r.wf(),
            r.core.id == id,
            r.state is Offline,
            r.individual_core.next_post_likelihood == next_post_likelihood,
            r.individual_core.attention_span == attention_span,
            r.individual_core.read_speed == read_speed,
            r.core.create_speed == create_speed,
            r.individual_core.viewed_content@.len() == 0,
    {
        Individual {
            individual_core: IndividualCore {
                next_post_likelihood,
                attention_span,
                read_speed,
                viewed_content: Vec::new(),
                session_length_ticks: 0,
            },
            core: AgentCore::new(id, dimension_size, 0, create_speed),
            state: AgentState::Offline,
        }
    }

    /// An offline individual whose traits are drawn at random.
    pub fn random(id: usize, dimension_size: usize) -> (r: Self)
        requires
            dimension_size <= MAX_DIMENSION,
        ensures
            r.wf(),
            r.core.id == id,
            r.state is Offline,
    {
        let a = random_below(SCALE as u128 + 1) as u32;
        let b = random_below(SCALE as u128 + 1) as u32;
        let c = random_below(SCALE as u128 + 1) as u32;
        let d = random_below(SCALE as u128 + 1) as u32;
        Individual::new(id, dimension_size, a, b, c, d)
    }

    pub fn id(&self) -> (r: usize)
        ensures
            r == self.core.id,
    {
        self.core.id
    }

    pub fn interests(&self) -> (r: &InterestProfile)
        ensures
            *r == self.core.interest_profile,
    {
        &self.core.interest_profile
    }

    /// A fresh batch of recommended posts for this individual.
    fn fresh_recommendations(&self, engine: &RecommendationEngine, now: i64) -> (r: Vec<usize>)
        requires
            self.wf(),
            engine.wf(),
        ensures
            r@.len() <= RECOMMENDATION_BATCH,
            is_fresh_batch(
                *engine,
                self.core.interest_profile,
                self.individual_core.viewed_content@,
                now,
                r@,
            ),
    {
        engine.get_post_recommendations(
            &self.core.interest_profile,
            &self.individual_core.viewed_content,
            RECOMMENDATION_BATCH,
            now,
        )
    }

    /// Picks one of the recommended posts by a weighted draw: each weighs
    /// its similarity to this individual's interests (zero if no longer in
    /// the pool). A value `draw mod total` in `[0, total)` is walked down the
    /// list, taking the first post whose running weight exceeds it, so a post
    /// of weight zero is never taken while the total is positive; the last
    /// post if the total is zero.
    pub fn select_post(&self, engine: &RecommendationEngine, recommended: &Vec<usize>, draw: u64) -> (r:
        Option<usize>)
        requires
            self.wf(),
            engine.wf(),
        ensures
            r.is_none() <==> recommended@.len() == 0,
            r.is_some() ==> walk_stops_at(
                engine.content_pool@,
                self.core.interest_profile.vector_representation@,
                recommended@,
                walk_value(
                    engine.content_pool@,
                    self.core.interest_profile.vector_representation@,
                    recommended@,
                    draw,
                ),
                r.unwrap() as int,
            ),
    {
        let n = recommended.len();
        if n == 0 {
            return None;
        }
        let mut weights: Vec<u64> = Vec::new();
        let mut total: u128 = 0;
        let mut i: usize = 0;
        while i < n
            invariant
                engine.wf(),
                self.wf(),
                n == recommended@.len(),
                i <= n,
                weights@.len() == i,
                forall|j: int| 0 <= j < i ==> weights@[j] <= SCALE,
                forall|j: int| 0 <= j < i ==> weights@[j] == post_weight(
                    engine.content_pool@,
                    self.core.interest_profile.vector_representation@,
                    recommended@[j],
                ),
                total == weight_prefix(
                    engine.content_pool@,
                    self.core.interest_profile.vector_representation@,
                    recommended@,
                    i as int,
                ),
                total <= i * SCALE,
            decreases n - i,
        {
            let w: u64 = match engine.find_post_index(recommended[i]) {
                Some(p) => {
                    assert(post_wf(engine.content_pool@[p as int]));
                    vector_similarity(
                        &self.core.interest_profile.vector_representation,
                        &engine.content_pool[p].interest_profile.vector_representation,
                    )
                },
                None => 0,
            };
            weights.push(w);
            total = total + w as u128;
            i = i + 1;
        }
        let ghost pool = engine.content_pool@;
        let ghost agent = self.core.interest_profile.vector_representation@;
        let value: u128 = if total > 0 { (draw as u128) % total } else { 0 };
        assert(value as int == walk_value(pool, agent, recommended@, draw));
        let mut acc: u128 = 0;
        let mut k: usize = 0;
        while k < n
            invariant
                n == recommended@.len(),
                n == weights@.len(),
                n > 0,
                k <= n,
                pool == engine.content_pool@,
                agent == self.core.interest_profile.vector_representation@,
                forall|j: int| 0 <= j < n ==> weights@[j] <= SCALE,
                forall|j: int| 0 <= j < n ==> weights@[j] == post_weight(pool, agent, recommended@[j]),
                acc == weight_prefix(pool, agent, recommended@, k as int),
                value as int == walk_value(pool, agent, recommended@, draw),
                forall|j: int| 0 <= j < k ==> value >= #[trigger] weight_prefix(pool, agent, recommended@, j + 1),
                acc <= k * SCALE,
            decreases n - k,
        {
            acc = acc + weights[k] as u128;
            assert(acc == weight_prefix(pool, agent, recommended@, k as int + 1));
            if value < acc {
                return Some(k);
            }
            k = k + 1;
        }
        Some(n - 1)
    }

    /// The reading state for the post at this pool position.
    fn start_reading_post(&self, engine: &RecommendationEngine, p: usize) -> (r: AgentState)
        requires
            self.wf(),
            engine.wf(),
            p < engine.content_pool@.len(),
        ensures
            r == reading_post_state(*self, engine.content_pool@[p as int]),
    {
        let post = &engine.content_pool[p];
        assert(post_wf(engine.content_pool@[p as int]));
        AgentState::ReadingPost {
            post_id: post.id,
            creator_id: post.creator_id,
            ticks_spent: 0,
            ticks_required: RecommendationEngine::calculate_required_ticks(
                post.length,
                self.individual_core.read_speed,
            ),
            potential_interest_gain: engine.calculate_interest_gain(
                &self.core.interest_profile,
                &post.interest_profile,
            ),
        }
    }

    /// The position of the comment with this id among a post's comments.
    fn find_comment(comments: &Vec<Comment>, id: usize) -> (r: Option<usize>)
        ensures
            r.is_none() <==> !has_comment(comments@, id),
            r.is_some() ==> is_first_comment(comments@, id, r.unwrap() as int),
    {
        let n = comments.len();
        let mut i: usize = 0;
        while i < n
            invariant
                n == comments@.len(),
                i <= n,
                forall|j: int| 0 <= j < i ==> comments@[j].id != id,
            decreases n - i,
        {
            if comments[i].id == id {
                return Some(i);
            }
            i = i + 1;
        }
        None
    }

    /// Reading state for comment `index` of the batch `ids` on the post at
    /// pool position `p`; `None` if that comment is gone.
    fn reading_comment(
        &self,
        engine: &RecommendationEngine,
        p: usize,
        ids: Vec<usize>,
        index: usize,
    ) -> (r: Option<AgentState>)
        requires
            self.wf(),
            engine.wf(),
            p < engine.content_pool@.len(),
            index < ids@.len(),
        ensures
            r.is_none() <==> !has_comment(engine.content_pool@[p as int].comments@, ids@[index as int]),
            r.is_some() ==> r.unwrap().wf() && reads_comment(
                *self,
                engine.content_pool@[p as int],
                ids@,
                index as int,
                r.unwrap(),
            ),
    {
        let post = &engine.content_pool[p];
        assert(post_wf(engine.content_pool@[p as int]));
        match Self::find_comment(&post.comments, ids[index]) {
            Some(c) => {
                proof {
                    lemma_comment_with_id(post.comments@, ids@[index as int], c as int);
                }
                let comment = &post.comments[c];
                assert(vector_ok(comment.interest_profile.vector_representation@));
                Some(
                    AgentState::ReadingComments {
                        post_id: post.id,
                        creator_id: post.creator_id,
                        current_comment_ids: ids,
                        current_comment_index: index,
                        ticks_spent: 0,
                        ticks_required: RecommendationEngine::calculate_required_ticks(
                            comment.length,
                            self.individual_core.read_speed,
                        ),
                        potential_interest_gain: engine.calculate_interest_gain(
                            &self.core.interest_profile,
                            &comment.interest_profile,
                        ),
                    },
                )
            },
            None => None,
        }
    }

    /// Reading state for the best comments of the post at pool position
    /// `p`; `None` if it has none.
    fn start_reading_comments(&self, engine: &RecommendationEngine, p: usize) -> (r: Option<AgentState>)
        requires
            self.wf(),
            engine.wf(),
            p < engine.content_pool@.len(),
            is_first_with_id(engine.content_pool@, engine.content_pool@[p as int].id, p as int),
        ensures
            r.is_none() <==> engine.content_pool@[p as int].comments@.len() == 0,
            r.is_some() ==> r.unwrap().wf() && reads_top_comments(
                *self,
                engine.content_pool@[p as int],
                r.unwrap(),
            ),
    {
        let post_id = engine.content_pool[p].id;
        let seen: Vec<usize> = Vec::new();
        let ghost cs = engine.content_pool@[p as int].comments@;
        match engine.get_comment_recommendations(post_id, &seen, RECOMMENDATION_BATCH) {
            Some(ids) => {
                let ghost (i, idx) = choose|i: int, idx: Seq<usize>|
                    #![trigger is_first_with_id(engine.content_pool@, post_id, i), comment_ids_at(engine.content_pool@[i].comments@, idx)]
                    is_first_with_id(engine.content_pool@, post_id, i) && is_top_ranking(
                        engagement_scores(engine.content_pool@[i].comments@),
                        unseen(engine.content_pool@[i].comments@, seen@),
                        RECOMMENDATION_BATCH as int,
                        idx,
                    ) && ids@ == comment_ids_at(engine.content_pool@[i].comments@, idx);
                proof {
                    lemma_first_index(engine.content_pool@, post_id, i);
                    lemma_first_index(engine.content_pool@, post_id, p as int);
                    assert(i == p);
                    assert(seen@ =~= Seq::<usize>::empty());
                    if cs.len() > 0 {
                        assert(unseen(cs, seen@)[0]);
                        if idx.len() < RECOMMENDATION_BATCH {
                            assert(idx.contains(0usize));
                        }
                    }
                    if idx.len() > 0 {
                        assert(idx[0] < cs.len());
                        assert(ids@[0] == cs[idx[0] as int].id);
                        assert(has_comment(cs, ids@[0]));
                    }
                }
                if ids.len() == 0 {
                    None
                } else {
                    let r = self.reading_comment(engine, p, ids, 0);
                    proof {
                        assert(reads_top_comments(*self, engine.content_pool@[p as int], r.unwrap()));
                    }
                    r
                }
            },
            None => None,
        }
    }

    /// The transition from reading a post to reading its best comments.
    /// Fails with `PostNotFound` if the post is no longer in the pool, and
    /// with `NoCommentsAvailable` if it has no comments.
    pub fn comments_of_post(&self, engine: &RecommendationEngine, post_id: usize) -> (r: Result<
        AgentState,
        TransitionError,
    >)
        requires
            self.wf(),
            engine.wf(),
        ensures
            !has_id(engine.content_pool@, post_id) ==> r == Err::<AgentState, TransitionError>(
                TransitionError::PostNotFound { id: post_id },
            ),
            has_id(engine.content_pool@, post_id) && engine.content_pool@[first_index(
                engine.content_pool@,
                post_id,
            )].comments@.len() == 0 ==> r == Err::<AgentState, TransitionError>(
                TransitionError::NoCommentsAvailable,
            ),
            r.is_ok() ==> r.unwrap().wf() && reads_top_comments(
                *self,
                engine.content_pool@[first_index(engine.content_pool@, post_id)],
                r.unwrap(),
            ),
            r.is_ok() <==> has_id(engine.content_pool@, post_id) && engine.content_pool@[first_index(
                engine.content_pool@,
                post_id,
            )].comments@.len() > 0,
    {
        match engine.find_post_index(post_id) {
            Some(p) => match self.start_reading_comments(engine, p) {
                Some(s) => Ok(s),
                None => Err(TransitionError::NoCommentsAvailable),
            },
            None => Err(TransitionError::PostNotFound { id: post_id }),
        }
    }

    /// The transition to writing a comment on a post. Fails with
    /// `PostNotFound` if the post is no longer in the pool.
    pub fn comment_on_post(
        &self,
        engine: &RecommendationEngine,
        config: &SimulationConfig,
        post_id: usize,
    ) -> (r: Result<AgentState, TransitionError>)
        requires
            self.wf(),
        ensures
            !has_id(engine.content_pool@, post_id) ==> r == Err::<AgentState, TransitionError>(
                TransitionError::PostNotFound { id: post_id },
            ),
            has_id(engine.content_pool@, post_id) ==> r == Ok::<AgentState, TransitionError>(
                commenting_state(*self, *engine, *config, post_id),
            ),
    {
        match engine.find_post_index(post_id) {
            Some(_) => {
                let ticks = self.core.writing_ticks(config);
                Ok(
                    AgentState::CreatingComment {
                        post_id,
                        comment_id: engine.next_id,
                        ticks_spent: 0,
                        ticks_required: ticks,
                    },
                )
            },
            None => Err(TransitionError::PostNotFound { id: post_id }),
        }
    }

    /// Absorbs this tick's share of a reading's interest gain: the gain
    /// over one more than the ticks already spent.
    fn absorb(&mut self, source: &InterestProfile, gain: u64, ticks_spent: u32)
        requires
            old(self).wf(),
        ensures
            final(self).core.interest_profile.interests@ == normalised(
                absorbed(
                    old(self).core.interest_profile.interests@,
                    source.interests@,
                    tick_intensity(gain, ticks_spent),
                ),
            ),
            normalises_to(
                absorbed(
                    old(self).core.interest_profile.interests@,
                    source.interests@,
                    tick_intensity(gain, ticks_spent),
                ),
                old(self).core.interest_profile.vector_representation@,
                final(self).core.interest_profile,
            ),
            final(self).core.interest_profile.wf(),
            final(self).core.interest_profile.vector_representation@.len()
                == old(self).core.interest_profile.vector_representation@.len(),
            final(self).core.id == old(self).core.id,
            final(self).core.created_content == old(self).core.created_content,
            final(self).core.create_speed == old(self).core.create_speed,
            final(self).core.content_creation_frequency == old(self).core.content_creation_frequency,
            final(self).state == old(self).state,
            final(self).individual_core == old(self).individual_core,
    {
        let share: u64 = gain / (ticks_spent as u64 + 1);
        let intensity: u32 = if share > u32::MAX as u64 { u32::MAX } else { share as u32 };
        self.core.interest_profile.update_interest_from_profile(source, intensity);
    }

    /// One tick of the state machine under the default policy.
    pub fn step(
        &mut self,
        engine: &RecommendationEngine,
        config: &SimulationConfig,
        now: i64,
        draws: TickDraws,
    ) -> (r: Option<NewContent>)
        requires
            old(self).wf(),
            engine.wf(),
            config.wf(),
        ensures
            steps_to(*old(self), *final(self), *engine, *config, now, draws, r),
            final(self).core.created_content == old(self).core.created_content,
    {
        self.step_with(&DefaultPolicy, engine, config, now, draws)
    }

    /// Draws this tick's randomness and the time, then takes one step.
    pub fn tick(&mut self, engine: &RecommendationEngine, config: &SimulationConfig) -> (r: Option<
        NewContent,
    >)
        requires
            old(self).wf(),
            engine.wf(),
            config.wf(),
        ensures
            exists|now: i64, draws: TickDraws|
                #![trigger steps_to(*old(self), *final(self), *engine, *config, now, draws, r)]
                draws.decision < SCALE && draws.attention < SCALE && steps_to(
                    *old(self),
                    *final(self),
                    *engine,
                    *config,
                    now,
                    draws,
                    r,
                ),
            final(self).wf(),
            final(self).core.id == old(self).core.id,
            may_follow(old(self).state, final(self).state),
            r.is_some() ==> finishes_writing(old(self).state),
            r.is_some() ==> new_content_wf(r.unwrap()),
            r.is_some() ==> made_by(r.unwrap(), old(self).core.id),
            final(self).core.created_content == old(self).core.created_content,
    {
        let draws = TickDraws {
            decision: random_below(SCALE as u128) as u64,
            attention: random_below(SCALE as u128) as u64,
            selection: random_below(0x1_0000_0000_0000_0000) as u64,
        };
        let now = now_millis() / 1000;
        self.step(engine, config, now, draws)
    }

    /// One tick of the state machine under `policy`, reading the engine as
    /// it stood at the start of the tick. Lookups that fail fall back to
    /// scrolling a fresh batch; finished writing hands back the new content.
    pub fn step_with<P: TransitionPolicy>(
        &mut self,
        policy: &P,
        engine: &RecommendationEngine,
        config: &SimulationConfig,
        now: i64,
        draws: TickDraws,
    ) -> (r: Option<NewContent>)
        requires
            old(self).wf(),
            engine.wf(),
            config.wf(),
        ensures
            steps_under(*policy, *old(self), *final(self), *engine, *config, now, draws, r),
            final(self).core.created_content == old(self).core.created_content,
    {
        let mut state = AgentState::Offline;
        std::mem::swap(&mut state, &mut self.state);
        match state {
            AgentState::Offline => {
                match policy.decide_offline_transition(
                    self.individual_core.next_post_likelihood,
                    draws.decision,
                ) {
                    OfflineTransition::ToScrolling => {
                        let recs = self.fresh_recommendations(engine, now);
                        self.state = AgentState::Scrolling { recommended_post_ids: recs };
                    },
                    OfflineTransition::Stay => {
                        self.state = AgentState::Offline;
                    },
                }
                None
            },
            AgentState::Scrolling { recommended_post_ids } => {
                let decision = policy.decide_scrolling_transition(
                    self.individual_core.next_post_likelihood,
                    draws.decision,
                );
                let picked = match decision {
                    ScrollingTransition::ToReadingPost | ScrollingTransition::ToReadingComments
                    | ScrollingTransition::ToCreatingComment => {
                        match self.select_post(engine, &recommended_post_ids, draws.selection) {
                            Some(k) => engine.find_post_index(recommended_post_ids[k]),
                            None => None,
                        }
                    },
                    _ => None,
                };
                match decision {
                    ScrollingTransition::ToOffline => {
                        self.state = AgentState::Offline;
                    },
                    ScrollingTransition::ToCreatingPost => {
                        let ticks = self.core.writing_ticks(config);
                        self.state = AgentState::CreatingPost {
                            post_id: engine.next_id,
                            ticks_spent: 0,
                            ticks_required: ticks,
                        };
                    },
                    ScrollingTransition::ToReadingPost => {
                        match picked {
                            Some(p) => {
                                let s = self.start_reading_post(engine, p);
                                self.individual_core.viewed_content.push(
                                    engine.content_pool[p].id,
                                );
                                self.state = s;
                            },
                            None => {
                                let recs = self.fresh_recommendations(engine, now);
                                self.state = AgentState::Scrolling { recommended_post_ids: recs };
                            },
                        }
                    },
                    ScrollingTransition::ToReadingComments => {
                        let next = match picked {
                            Some(p) => self.start_reading_comments(engine, p),
                            None => None,
                        };
                        match next {
                            Some(s) => {
                                self.state = s;
                            },
                            None => {
                                let recs = self.fresh_recommendations(engine, now);
                                self.state = AgentState::Scrolling { recommended_post_ids: recs };
                            },
                        }
                    },
                    ScrollingTransition::ToCreatingComment => {
                        match picked {
                            Some(p) => {
                                let ticks = self.core.writing_ticks(config);
                                self.state = AgentState::CreatingComment {
                                    post_id: engine.content_pool[p].id,
                                    comment_id: engine.next_id,
                                    ticks_spent: 0,
                                    ticks_required: ticks,
                                };
                            },
                            None => {
                                let recs = self.fresh_recommendations(engine, now);
                                self.state = AgentState::Scrolling { recommended_post_ids: recs };
                            },
                        }
                    },
                    ScrollingTransition::Refresh => {
                        let recs = self.fresh_recommendations(engine, now);
                        self.state = AgentState::Scrolling { recommended_post_ids: recs };
                    },
                }
                None
            },
            AgentState::ReadingPost {
                post_id,
                creator_id,
                ticks_spent,
                ticks_required,
                potential_interest_gain,
            } => {
                let decision = policy.decide_reading_post_transition(
                    ticks_spent,
                    ticks_required,
                    self.individual_core.attention_span,
                    draws.attention,
                    draws.decision,
                );
                let found = engine.find_post_index(post_id);
                match (decision, found) {
                    (ReadingPostTransition::Continue, Some(p)) => {
                        assert(post_wf(engine.content_pool@[p as int]));
                        if ticks_spent < u32::MAX {
                            self.absorb(
                                &engine.content_pool[p].interest_profile,
                                potential_interest_gain,
                                ticks_spent,
                            );
                            self.state = AgentState::ReadingPost {
                                post_id,
                                creator_id,
                                ticks_spent: ticks_spent + 1,
                                ticks_required,
                                potential_interest_gain,
                            };
                        } else {
                            let recs = self.fresh_recommendations(engine, now);
                            self.state = AgentState::Scrolling { recommended_post_ids: recs };
                        }
                    },
                    (ReadingPostTransition::ToReadingComments, _) => {
                        match self.comments_of_post(engine, post_id) {
                            Ok(s) => {
                                self.state = s;
                            },
                            Err(_) => {
                                let recs = self.fresh_recommendations(engine, now);
                                self.state = AgentState::Scrolling { recommended_post_ids: recs };
                            },
                        }
                    },
                    (ReadingPostTransition::ToCreatingComment, _) => {
                        match self.comment_on_post(engine, config, post_id) {
                            Ok(s) => {
                                self.state = s;
                            },
                            Err(_) => {
                                let recs = self.fresh_recommendations(engine, now);
                                self.state = AgentState::Scrolling { recommended_post_ids: recs };
                            },
                        }
                    },
                    (ReadingPostTransition::ToOffline, _) => {
                        self.state = AgentState::Offline;
                    },
                    _ => {
                        let recs = self.fresh_recommendations(engine, now);
                        self.state = AgentState::Scrolling { recommended_post_ids: recs };
                    },
                }
                None
            },
            AgentState::ReadingComments {
                post_id,
                creator_id,
                current_comment_ids,
                current_comment_index,
                ticks_spent,
                ticks_required,
                potential_interest_gain,
            } => {
                let decision = policy.decide_reading_comments_transition(
                    ticks_spent,
                    ticks_required,
                    current_comment_index,
                    current_comment_ids.len(),
                    draws.decision,
                );
                let found = engine.find_post_index(post_id);
                match (decision, found) {
                    (ReadingCommentsTransition::Continue, Some(p)) => {
                        if ticks_spent < ticks_required {
                            let post = &engine.content_pool[p];
                            assert(post_wf(engine.content_pool@[p as int]));
                            match Self::find_comment(
                                &post.comments,
                                current_comment_ids[current_comment_index],
                            ) {
                                Some(c) => {
                                    assert(vector_ok(post.comments@[c as int].interest_profile.vector_representation@));
                                    self.absorb(
                                        &post.comments[c].interest_profile,
                                        potential_interest_gain,
                                        ticks_spent,
                                    );
                                    self.state = AgentState::ReadingComments {
                                        post_id,
                                        creator_id,
                                        current_comment_ids,
                                        current_comment_index,
                                        ticks_spent: ticks_spent + 1,
                                        ticks_required,
                                        potential_interest_gain,
                                    };
                                },
                                None => {
                                    let recs = self.fresh_recommendations(engine, now);
                                    self.state = AgentState::Scrolling {
                                        recommended_post_ids: recs,
                                    };
                                },
                            }
                        } else if current_comment_index + 1 >= current_comment_ids.len() {
                            let recs = self.fresh_recommendations(engine, now);
                            self.state = AgentState::Scrolling { recommended_post_ids: recs };
                        } else {
                            match self.reading_comment(
                                engine,
                                p,
                                current_comment_ids,
                                current_comment_index + 1,
                            ) {
                                Some(s) => {
                                    self.state = s;
                                },
                                None => {
                                    let recs = self.fresh_recommendations(engine, now);
                                    self.state = AgentState::Scrolling {
                                        recommended_post_ids: recs,
                                    };
                                },
                            }
                        }
                    },
                    (ReadingCommentsTransition::ToCreatingComment, _) => {
                        match self.comment_on_post(engine, config, post_id) {
                            Ok(s) => {
                                self.state = s;
                            },
                            Err(_) => {
                                let recs = self.fresh_recommendations(engine, now);
                                self.state = AgentState::Scrolling { recommended_post_ids: recs };
                            },
                        }
                    },
                    (ReadingCommentsTransition::ToOffline, _) => {
                        self.state = AgentState::Offline;
                    },
                    _ => {
                        let recs = self.fresh_recommendations(engine, now);
                        self.state = AgentState::Scrolling { recommended_post_ids: recs };
                    },
                }
                None
            },
            AgentState::CreatingPost { post_id, ticks_spent, ticks_required } => {
                match policy.decide_creating_post_transition(
                    ticks_spent,
                    ticks_required,
                    draws.decision,
                ) {
                    CreatingPostTransition::Continue => {
                        if ticks_spent < u32::MAX {
                            self.state = AgentState::CreatingPost {
                                post_id,
                                ticks_spent: ticks_spent + 1,
                                ticks_required,
                            };
                        } else {
                            let recs = self.fresh_recommendations(engine, now);
                            self.state = AgentState::Scrolling { recommended_post_ids: recs };
                        }
                        None
                    },
                    CreatingPostTransition::ToScrolling => {
                        let post = self.core.generate_content(config, now);
                        let recs = self.fresh_recommendations(engine, now);
                        self.state = AgentState::Scrolling { recommended_post_ids: recs };
                        Some(NewContent::Post(post))
                    },
                    CreatingPostTransition::ToOffline => {
                        let post = self.core.generate_content(config, now);
                        self.state = AgentState::Offline;
                        Some(NewContent::Post(post))
                    },
                }
            },
            AgentState::CreatingComment { post_id, comment_id, ticks_spent, ticks_required } => {
                match policy.decide_creating_comment_transition(
                    ticks_spent,
                    ticks_required,
                    draws.decision,
                ) {
                    CreatingCommentTransition::Continue => {
                        if ticks_spent < u32::MAX {
                            self.state = AgentState::CreatingComment {
                                post_id,
                                comment_id,
                                ticks_spent: ticks_spent + 1,
                                ticks_required,
                            };
                        } else {
                            let recs = self.fresh_recommendations(engine, now);
                            self.state = AgentState::Scrolling { recommended_post_ids: recs };
                        }
                        None
                    },
                    CreatingCommentTransition::ToScrolling => {
                        let comment = self.core.generate_comment(config, now);
                        let recs = self.fresh_recommendations(engine, now);
                        self.state = AgentState::Scrolling { recommended_post_ids: recs };
                        Some(NewContent::Comment { post_id, comment })
                    },
                    CreatingCommentTransition::ToOffline => {
                        let comment = self.core.generate_comment(config, now);
                        self.state = AgentState::Offline;
                        Some(NewContent::Comment { post_id, comment })
                    },
                }
            },
        }
    }
}

} // verus!
