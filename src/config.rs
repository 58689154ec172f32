//! The configuration a simulation is built from.
use vstd::prelude::*;
use crate::numeric::SCALE;

verus! {

/// How many starting tags each kind of agent gets.
#[derive(Clone, Copy, Debug, PartialEq, Eq, Structural)]
pub struct StartingTags {
    pub individual: usize,
    pub bot: usize,
    pub organisation: usize,
}

/// Population, content sizes, cadence and weights of a simulation. Weights
/// and rates are on the fixed-point scale.
#[derive(Clone, Debug)]
pub struct SimulationConfig {
    pub num_individuals: usize,
    pub num_bots: usize,
    pub num_organisations: usize,
    pub max_post_length: u32,
    pub max_comment_length: u32,
    pub bot_creation_ticks: u32,
    pub sample_tags: Vec<String>,
    pub starting_tags: StartingTags,
    pub base_content_length: u32,
    pub diversity_weight: u32,
    pub recency_weight: u32,
    pub engagement_weight: u32,
    pub tick_rate_ms: u32,
    pub interest_decay_rate: u32,
    pub min_content_tags: usize,
    pub max_content_tags: usize,
}

impl SimulationConfig {
    pub open spec fn wf(&self) -> bool {
        &&& self.min_content_tags <= self.max_content_tags
        &&& self.interest_decay_rate <= SCALE
    }
}

impl Default for SimulationConfig {
    /// Three individuals, two bots and two organisations over eight sample
    /// tags, posts up to 60 long and comments up to 10, one to three tags per
    /// content item, ticks every 100 ms.
    fn default() -> (r: Self)
        ensures
            r.wf(),
            r.num_individuals == 3,
            r.num_bots == 2,
            r.num_organisations == 2,
            r.max_post_length == 60,
            r.max_comment_length == 10,
            r.bot_creation_ticks == 4,
            r.sample_tags@.len() == 8,
            r.sample_tags@[0]@ == "politics"@,
            r.sample_tags@[1]@ == "technology"@,
            r.sample_tags@[2]@ == "science"@,
            r.sample_tags@[3]@ == "entertainment"@,
            r.sample_tags@[4]@ == "sports"@,
            r.sample_tags@[5]@ == "health"@,
            r.sample_tags@[6]@ == "education"@,
            r.sample_tags@[7]@ == "business"@,
            r.starting_tags == (StartingTags { individual: 3, bot: 3, organisation: 3 }),
            r.diversity_weight == 200_000,
            r.recency_weight == 200_000,
            r.engagement_weight == 200_000,
            r.interest_decay_rate == 0,
            r.base_content_length == 20,
            r.tick_rate_ms == 100,
            r.min_content_tags == 1,
            r.max_content_tags == 3,
    {
        let mut sample_tags: Vec<String> = Vec::new();
        sample_tags.push("politics".to_owned());
        sample_tags.push("technology".to_owned());
        sample_tags.push("science".to_owned());
        sample_tags.push("entertainment".to_owned());
        sample_tags.push("sports".to_owned());
        sample_tags.push("health".to_owned());
        sample_tags.push("education".to_owned());
        sample_tags.push("business".to_owned());
        SimulationConfig {
            num_individuals: 3,
            num_bots: 2,
            num_organisations: 2,
            max_post_length: 60,
            max_comment_length: 10,
            bot_creation_ticks: 4,
            sample_tags,
            starting_tags: StartingTags { individual: 3, bot: 3, organisation: 3 },
            base_content_length: 20,
            diversity_weight: 200_000,
            recency_weight: 200_000,
            engagement_weight: 200_000,
            tick_rate_ms: 100,
            interest_decay_rate: 0,
            min_content_tags: 1,
            max_content_tags: 3,
        }
    }
}

} // verus!
