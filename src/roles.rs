//! Agents that only write: bots and organisations. Each is always making
//! a post; when one is done it hands it over and starts the next.
use vstd::prelude::*;
use crate::numeric::{MAX_DIMENSION, SCALE, vector_ok};
use crate::interest::{
    Topic, lemma_normalised_ones, lemma_normalised_sum, lemma_normalised_tags, lemma_prefix_monotone, normalised,
    prefix_weight, total_weight, with_topic,
};
use crate::content::Post;
use crate::engine::{post_wf, DEFAULT_DIMENSION};
use crate::agent::AgentCore;
use crate::states::{AgentState, AgentType};
use crate::config::SimulationConfig;
use crate::chance::{now_millis, random_below};

verus! {

/// How many ticks at most an organisation spends on a post.
pub const ORGANISATION_MAX_POST_TICKS: u32 = 30;

/// A bot: posts at full speed, every `bot_creation_ticks` ticks.
#[derive(Clone, Debug)]
pub struct Bot {
    pub core: AgentCore,
    pub state: AgentState,
}

/// An organisation: one focused topic held strongly, posts at its own pace.
#[derive(Clone, Debug)]
pub struct Organisation {
    pub core: AgentCore,
    pub state: AgentState,
}

/// One tick of an agent that only writes: the post under way moves one
/// tick on; when that reaches the ticks it needs, the post is done.
pub open spec fn writing_done(state: AgentState) -> bool {
    match state {
        AgentState::CreatingPost { ticks_spent, ticks_required, .. } => ticks_spent + 1
            >= ticks_required,
        _ => false,
    }
}

/// Topic `t` of `s` has an equal share of the weight: `SCALE / |s|`, or one
/// more where the rounding carries.
pub open spec fn equal_share(s: Seq<(usize, Topic)>, t: (usize, Topic)) -> bool {
    (SCALE as int) / (s.len() as int) <= t.1.weighted_interest <= (SCALE as int) / (s.len() as int) + 1
}

/// Whether one of the first `n` starting entries gives this tag and agreement.
pub open spec fn started_with(starting: Seq<(usize, i32)>, n: int, t: (usize, Topic)) -> bool {
    exists|j: int| 0 <= j < n && starting[j].0 == t.0 && starting[j].1 == t.1.agreement
}

/// The topics that inserting each starting entry in order, with weight one,
/// gives.
pub open spec fn inserted(starting: Seq<(usize, i32)>) -> Seq<(usize, Topic)>
    decreases starting.len(),
{
    if starting.len() == 0 {
        seq![]
    } else {
        with_topic(
            inserted(starting.drop_last()),
            starting.last().0,
            Topic { weighted_interest: 1, agreement: starting.last().1 },
        )
    }
}

/// The state a writer is in one tick after `state`, when a finished post
/// is followed by one needing `next_ticks`.
pub open spec fn writer_next(state: AgentState, next_ticks: u32) -> AgentState {
    if state is CreatingPost && !writing_done(state) {
        AgentState::CreatingPost {
            post_id: state->CreatingPost_post_id,
            ticks_spent: (state->CreatingPost_ticks_spent + 1) as u32,
            ticks_required: state->CreatingPost_ticks_required,
        }
    } else {
        AgentState::CreatingPost { post_id: 0, ticks_spent: 0, ticks_required: next_ticks }
    }
}

/// An organisation's state one tick after `state`: a finished post is
/// followed by one needing fewer than `ORGANISATION_MAX_POST_TICKS` ticks.
pub open spec fn organisation_next(state: AgentState, next: AgentState) -> bool {
    exists|t: u32| t < ORGANISATION_MAX_POST_TICKS && next == writer_next(state, t)
}

pub open spec fn writer_wf(core: AgentCore, state: AgentState) -> bool {
    &&& core.wf()
    &&& vector_ok(core.interest_profile.vector_representation@)
    &&& state is CreatingPost
}

/// Moves a writer on by one tick. `next_ticks` is what the next post will
/// need if this one is done. Any state other than writing starts a post.
fn writer_step(
    core: &AgentCore,
    state: &mut AgentState,
    config: &SimulationConfig,
    now: i64,
    next_ticks: u32,
) -> (r: Option<Post>)
    requires
        core.wf(),
        vector_ok(core.interest_profile.vector_representation@),
        config.wf(),
    ensures
        r.is_some() <==> writing_done(*old(state)),
        r.is_some() ==> post_wf(r.unwrap()) && r.unwrap().creator_id == core.id
            && r.unwrap().timestamp == now && r.unwrap().comments@.len() == 0,
        *final(state) is CreatingPost,
        writing_done(*old(state)) || !(*old(state) is CreatingPost) ==> *final(state) == (
        AgentState::CreatingPost { post_id: 0, ticks_spent: 0, ticks_required: next_ticks }),
        !writing_done(*old(state)) && *old(state) is CreatingPost ==> *final(state) == (
        AgentState::CreatingPost {
            post_id: old(state)->CreatingPost_post_id,
            ticks_spent: (old(state)->CreatingPost_ticks_spent + 1) as u32,
            ticks_required: old(state)->CreatingPost_ticks_required,
        }),
{
    let (post_id, ticks_spent, ticks_required) = match state {
        AgentState::CreatingPost { post_id, ticks_spent, ticks_required } => (
            *post_id,
            *ticks_spent,
            *ticks_required,
        ),
        _ => {
            *state = AgentState::CreatingPost {
                post_id: 0,
                ticks_spent: 0,
                ticks_required: next_ticks,
            };
            return None;
        },
    };
    if (ticks_spent as u64) + 1 >= ticks_required as u64 {
        let post = core.generate_content(config, now);
        *state = AgentState::CreatingPost { post_id: 0, ticks_spent: 0, ticks_required: next_ticks };
        Some(post)
    } else {
        *state = AgentState::CreatingPost {
            post_id,
            ticks_spent: ticks_spent + 1,
            ticks_required,
        };
        None
    }
}

impl Bot {
    pub open spec fn wf(&self) -> bool {
        writer_wf(self.core, self.state)
    }

    /// A bot whose interests are the given tags, each with weight one and
    /// its agreement, then normalised; a later entry for a tag replaces an
    /// earlier one. It starts writing its first post.
    pub fn with_interests(id: usize, config: &SimulationConfig, starting: &Vec<(usize, i32)>) -> (r:
        Self)
        ensures
            r.wf(),
            r.core.id == id,
            r.core.create_speed == SCALE,
            r.core.content_creation_frequency == SCALE,
            r.core.created_content@.len() == 0,
            r.state == (AgentState::CreatingPost {
                post_id: 0,
                ticks_spent: 0,
                ticks_required: config.bot_creation_ticks,
            }),
            r.core.interest_profile.interests@ == normalised(inserted(starting@)),
            r.core.interest_profile.interests@.len() <= starting@.len(),
            starting@.len() > 0 ==> r.core.interest_profile.interests@.len() >= 1
                && total_weight(r.core.interest_profile.interests@) == SCALE,
            forall|k: int|
                0 <= k < r.core.interest_profile.interests@.len() ==> equal_share(
                    r.core.interest_profile.interests@,
                    #[trigger] r.core.interest_profile.interests@[k],
                ),
            forall|k: int|
                0 <= k < r.core.interest_profile.interests@.len() ==> started_with(
                    starting@,
                    starting@.len() as int,
                    #[trigger] r.core.interest_profile.interests@[k],
                ),
    {
        let mut core = AgentCore::new(id, DEFAULT_DIMENSION, SCALE as u32, SCALE as u32);
        let n = starting.len();
        let mut i: usize = 0;
        while i < n
            invariant
                n == starting@.len(),
                i <= n,
                core.wf(),
                core.id == id,
                core.create_speed == SCALE,
                core.content_creation_frequency == SCALE,
                core.created_content@.len() == 0,
                core.interest_profile.vector_representation@.len() == DEFAULT_DIMENSION,
                core.interest_profile.interests@ == inserted(starting@.take(i as int)),
                core.interest_profile.interests@.len() <= i,
                i > 0 ==> core.interest_profile.interests@.len() >= 1,
                forall|k: int|
                    0 <= k < core.interest_profile.interests@.len()
                        ==> (#[trigger] core.interest_profile.interests@[k]).1.weighted_interest == 1,
                forall|k: int|
                    0 <= k < core.interest_profile.interests@.len() ==> started_with(
                        starting@,
                        i as int,
                        #[trigger] core.interest_profile.interests@[k],
                    ),
            decreases n - i,
        {
            let (tag, agreement) = starting[i];
            let ghost prev = core.interest_profile.interests@;
            core.interest_profile.insert_topic(tag, Topic { weighted_interest: 1, agreement });
            proof {
                assert(starting@.take(i as int + 1).drop_last() =~= starting@.take(i as int));
                let cur = core.interest_profile.interests@;
                assert forall|k: int| 0 <= k < cur.len() implies started_with(
                    starting@,
                    i + 1,
                    #[trigger] cur[k],
                ) && cur[k].1.weighted_interest == 1 by {
                    if k < prev.len() && cur[k] == prev[k] {
                        assert(started_with(starting@, i as int, prev[k]));
                        let j = choose|j: int|
                            0 <= j < i && starting@[j].0 == prev[k].0 && starting@[j].1 == prev[k].1.agreement;
                        assert(0 <= j < i + 1 && starting@[j].0 == cur[k].0 && starting@[j].1 == cur[k].1.agreement);
                    } else {
                        assert(cur[k] == (tag, Topic { weighted_interest: 1u32, agreement }));
                        assert(starting@[i as int].0 == cur[k].0 && starting@[i as int].1 == cur[k].1.agreement);
                    }
                }
            }
            i = i + 1;
        }
        assert(starting@.take(n as int) =~= starting@);
        let ghost pre = core.interest_profile.interests@;
        proof {
            if n > 0 {
                lemma_prefix_monotone(pre, 1, pre.len() as int);
                assert(prefix_weight(pre, 1) == 1) by {
                    assert(prefix_weight(pre, 0) == 0);
                }
            }
        }
        core.interest_profile.normalise_weights();
        proof {
            lemma_normalised_tags(pre);
            lemma_normalised_sum(pre);
            if pre.len() > 0 {
                lemma_normalised_ones(pre);
            }
            let cur = core.interest_profile.interests@;
            assert forall|k: int| 0 <= k < cur.len() implies started_with(
                starting@,
                n as int,
                #[trigger] cur[k],
            ) by {
                assert(cur[k].0 == pre[k].0 && cur[k].1.agreement == pre[k].1.agreement);
                assert(started_with(starting@, n as int, pre[k]));
            }
        }
        Bot {
            core,
            state: AgentState::CreatingPost {
                post_id: 0,
                ticks_spent: 0,
                ticks_required: config.bot_creation_ticks,
            },
        }
    }

    /// A bot with `starting_tags.bot` tags drawn from the sample tags (some
    /// may repeat), each with a random agreement in `[-SCALE, SCALE]`. With
    /// no sample tags it has no interests.
    pub fn new(id: usize, config: &SimulationConfig) -> (r: Self)
        ensures
            r.wf(),
            r.core.id == id,
            r.core.create_speed == SCALE,
            r.core.content_creation_frequency == SCALE,
            r.core.created_content@.len() == 0,
            r.state == (AgentState::CreatingPost {
                post_id: 0,
                ticks_spent: 0,
                ticks_required: config.bot_creation_ticks,
            }),
            r.core.interest_profile.interests@.len() <= config.starting_tags.bot,
            config.sample_tags@.len() > 0 && config.starting_tags.bot > 0 ==> r.core.interest_profile.interests@.len() >= 1
                && total_weight(r.core.interest_profile.interests@) == SCALE,
            forall|k: int|
                0 <= k < r.core.interest_profile.interests@.len() ==> equal_share(
                    r.core.interest_profile.interests@,
                    #[trigger] r.core.interest_profile.interests@[k],
                ),
            forall|k: int|
                0 <= k < r.core.interest_profile.interests@.len() ==> {
                    let t = #[trigger] r.core.interest_profile.interests@[k];
                    &&& t.0 < config.sample_tags@.len()
                    &&& -(SCALE as int) <= t.1.agreement <= SCALE
                },
    {
        let mut starting: Vec<(usize, i32)> = Vec::new();
        let tags = config.sample_tags.len();
        if tags > 0 {
            let mut i: usize = 0;
            while i < config.starting_tags.bot
                invariant
                    i <= config.starting_tags.bot,
                    tags > 0,
                    tags == config.sample_tags@.len(),
                    starting@.len() == i,
                    forall|j: int| 0 <= j < i ==> (#[trigger] starting@[j]).0 < tags
                        && -(SCALE as int) <= starting@[j].1 <= SCALE,
                decreases config.starting_tags.bot - i,
            {
                let tag = random_below(tags as u128) as usize;
                let agreement = random_below(2 * SCALE as u128 + 1) as i32 - SCALE as i32;
                starting.push((tag, agreement));
                i = i + 1;
            }
        }
        let r = Bot::with_interests(id, config, &starting);
        proof {
            assert forall|k: int| 0 <= k < r.core.interest_profile.interests@.len() implies {
                let t = #[trigger] r.core.interest_profile.interests@[k];
                &&& t.0 < config.sample_tags@.len()
                &&& -(SCALE as int) <= t.1.agreement <= SCALE
            } by {
                let t = r.core.interest_profile.interests@[k];
                assert(started_with(starting@, starting@.len() as int, t));
                let j = choose|j: int|
                    0 <= j < starting@.len() && starting@[j].0 == t.0 && starting@[j].1 == t.1.agreement;
                assert(starting@[j].0 < tags);
            }
        }
        r
    }

    pub fn get_type(&self) -> (r: AgentType)
        ensures
            r == AgentType::Bot,
    {
        AgentType::Bot
    }

    /// One tick at time `now`: the post under way moves on, and a finished
    /// post is handed back while the next starts with `bot_creation_ticks`.
    pub fn step(&mut self, config: &SimulationConfig, now: i64) -> (r: Option<Post>)
        requires
            old(self).wf(),
            config.wf(),
        ensures
            final(self).wf(),
            final(self).core == old(self).core,
            final(self).state == writer_next(old(self).state, config.bot_creation_ticks),
            r.is_some() <==> writing_done(old(self).state),
            r.is_some() ==> post_wf(r.unwrap()) && r.unwrap().creator_id == old(self).core.id
                && r.unwrap().comments@.len() == 0 && r.unwrap().timestamp == now,
    {
        writer_step(&self.core, &mut self.state, config, now, config.bot_creation_ticks)
    }

    /// One tick now.
    pub fn tick(&mut self, config: &SimulationConfig) -> (r: Option<Post>)
        requires
            old(self).wf(),
            config.wf(),
        ensures
            final(self).wf(),
            final(self).core == old(self).core,
            final(self).state == writer_next(old(self).state, config.bot_creation_ticks),
            r.is_some() <==> writing_done(old(self).state),
            r.is_some() ==> post_wf(r.unwrap()) && r.unwrap().creator_id == old(self).core.id
                && r.unwrap().comments@.len() == 0,
    {
        let now = now_millis() / 1000;
        self.step(config, now)
    }
}

impl Organisation {
    pub open spec fn wf(&self) -> bool {
        writer_wf(self.core, self.state)
    }

    /// An organisation holding one tag with the given agreement, starting
    /// a post that needs `post_ticks` ticks.
    pub fn with_interest(id: usize, tag: usize, agreement: i32, post_ticks: u32) -> (r: Self)
        ensures
            r.wf(),
            r.core.id == id,
            r.core.create_speed == SCALE,
            r.core.content_creation_frequency == SCALE,
            r.core.created_content@.len() == 0,
            r.core.interest_profile.interests@ == seq![
                (tag, Topic { weighted_interest: SCALE as u32, agreement }),
            ],
            r.core.interest_profile.total_weight == SCALE,
            r.state == (AgentState::CreatingPost {
                post_id: 0,
                ticks_spent: 0,
                ticks_required: post_ticks,
            }),
    {
        let mut core = AgentCore::new(id, DEFAULT_DIMENSION, SCALE as u32, SCALE as u32);
        core.interest_profile.insert_topic(tag, Topic { weighted_interest: 1, agreement });
        let ghost s = seq![(tag, Topic { weighted_interest: 1u32, agreement })];
        assert(core.interest_profile.interests@ =~= s);
        core.interest_profile.normalise_weights();
        proof {
            assert(crate::interest::prefix_weight(s, 1) == 1) by {
                assert(crate::interest::prefix_weight(s, 0) == 0);
            }
            assert(crate::interest::normalised(s) =~= seq![
                (tag, Topic { weighted_interest: SCALE as u32, agreement }),
            ]);
        }
        Organisation {
            core,
            state: AgentState::CreatingPost { post_id: 0, ticks_spent: 0, ticks_required: post_ticks },
        }
    }

    /// An organisation focused on one random sample tag (tag 0 when there
    /// are none), with a strong agreement: from 0.7 to 1.0 or from -1.0 to
    /// -0.7 with even odds, and a random post length under 30 ticks.
    pub fn new(id: usize, config: &SimulationConfig) -> (r: Self)
        ensures
            r.wf(),
            r.core.id == id,
            r.core.create_speed == SCALE,
            r.core.content_creation_frequency == SCALE,
            r.core.created_content@.len() == 0,
            r.core.interest_profile.interests@.len() == 1,
            r.core.interest_profile.interests@[0].1.weighted_interest == SCALE,
            r.core.interest_profile.total_weight == SCALE,
            config.sample_tags@.len() > 0 ==> r.core.interest_profile.interests@[0].0
                < config.sample_tags@.len(),
            config.sample_tags@.len() == 0 ==> r.core.interest_profile.interests@[0].0 == 0,
            ({
                let a = r.core.interest_profile.interests@[0].1.agreement;
                (700_000 <= a <= 1_000_000) || (-1_000_000 <= a <= -700_000)
            }),
            r.state is CreatingPost,
            r.state->CreatingPost_ticks_spent == 0,
            r.state->CreatingPost_ticks_required < ORGANISATION_MAX_POST_TICKS,
    {
        let tags = config.sample_tags.len();
        let tag: usize = if tags > 0 { random_below(tags as u128) as usize } else { 0 };
        let strength = random_below(300_001) as i32;
        let agreement: i32 = if random_below(2) == 1 { 700_000 + strength } else { -1_000_000 + strength };
        let ticks = random_below(ORGANISATION_MAX_POST_TICKS as u128) as u32;
        Organisation::with_interest(id, tag, agreement, ticks)
    }

    pub fn get_type(&self) -> (r: AgentType)
        ensures
            r == AgentType::Organisation,
    {
        AgentType::Organisation
    }

    /// One tick at time `now`: the post under way moves on, and a finished
    /// post is handed back while the next starts needing `next_ticks`.
    pub fn step(&mut self, config: &SimulationConfig, now: i64, next_ticks: u32) -> (r: Option<Post>)
        requires
            old(self).wf(),
            config.wf(),
        ensures
            final(self).wf(),
            final(self).core == old(self).core,
            final(self).state == writer_next(old(self).state, next_ticks),
            r.is_some() <==> writing_done(old(self).state),
            r.is_some() ==> post_wf(r.unwrap()) && r.unwrap().creator_id == old(self).core.id
                && r.unwrap().comments@.len() == 0 && r.unwrap().timestamp == now,
    {
        writer_step(&self.core, &mut self.state, config, now, next_ticks)
    }

    /// One tick now; the next post's length is drawn under 30 ticks.
    pub fn tick(&mut self, config: &SimulationConfig) -> (r: Option<Post>)
        requires
            old(self).wf(),
            config.wf(),
        ensures
            final(self).wf(),
            final(self).core == old(self).core,
            organisation_next(old(self).state, final(self).state),
            r.is_some() <==> writing_done(old(self).state),
            r.is_some() ==> post_wf(r.unwrap()) && r.unwrap().creator_id == old(self).core.id
                && r.unwrap().comments@.len() == 0,
    {
        let now = now_millis() / 1000;
        let next = random_below(ORGANISATION_MAX_POST_TICKS as u128) as u32;
        self.step(config, now, next)
    }
}

} // verus!
