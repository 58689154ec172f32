//! The simulation driver: advances every individual once per tick against
//! the same engine snapshot, then merges what they made into the pool.
use vstd::prelude::*;
use crate::numeric::{MAX_DIMENSION, SCALE, vector_ok};
use crate::engine::{
    RecommendationEngine, DEFAULT_DIMENSION, comment_added, has_tag_name, tags_distinct, first_index, has_id, is_first_with_id,
    lemma_first_index, post_wf,
};
use crate::content::{Comment, Content};
use crate::agent::{Individual, NewContent, TickDraws, made_by, may_follow, new_content_wf, steps_to};
use crate::config::SimulationConfig;
use crate::states::AgentType;
use crate::chance::now_millis;
use crate::roles::{Bot, Organisation, organisation_next, writer_next, writing_done};

verus! {

/// A running simulation. Times are milliseconds since the Unix epoch.
#[derive(Clone, Debug)]
pub struct Simulation {
    pub config: SimulationConfig,
    pub engine: RecommendationEngine,
    pub individuals: Vec<Individual>,
    pub bots: Vec<Bot>,
    pub organisations: Vec<Organisation>,
    pub current_tick: i64,
    pub last_tick: i64,
}

/// `after` holds the posts of `before` at the same places, and maybe more.
pub open spec fn pool_grew(before: RecommendationEngine, after: RecommendationEngine) -> bool {
    &&& before.content_pool@.len() <= after.content_pool@.len()
    &&& forall|i: int| 0 <= i < before.content_pool@.len() ==> #[trigger] after.content_pool@[i].id
        == before.content_pool@[i].id
}

/// `after` is an outcome of one step of `before` under the default policy
/// against `engine`, for some time and draws, apart from the ids it
/// recorded.
pub open spec fn advanced(
    before: Individual,
    after: Individual,
    engine: RecommendationEngine,
    config: SimulationConfig,
) -> bool {
    exists|now: i64, draws: TickDraws, r: Option<NewContent>, stepped: Individual|
        #![trigger steps_to(before, stepped, engine, config, now, draws, r)]
        steps_to(before, stepped, engine, config, now, draws, r) && after.state == stepped.state
            && after.individual_core == stepped.individual_core && after.core.interest_profile
            == stepped.core.interest_profile && after.core.id == stepped.core.id
            && after.core.create_speed == stepped.core.create_speed
            && after.core.content_creation_frequency == stepped.core.content_creation_frequency
}

/// The ids an agent recorded over a tick: none, or the id of one item it
/// made, given id `base + j` at position `j` of what the tick made.
pub open spec fn recorded(before: Seq<usize>, after: Seq<usize>, made: Seq<NewContent>, base: int, creator: usize) -> bool {
    after == before || exists|j: int|
        0 <= j < made.len() && made_by(made[j], creator) && after == before.push((base + j) as usize)
}

proof fn lemma_recorded_grows(
    before: Seq<usize>,
    after: Seq<usize>,
    made: Seq<NewContent>,
    longer: Seq<NewContent>,
    base: int,
    creator: usize,
)
    requires
        recorded(before, after, made, base, creator),
        made.len() <= longer.len(),
        forall|j: int| 0 <= j < made.len() ==> longer[j] == made[j],
    ensures
        recorded(before, after, longer, base, creator),
{
    if after != before {
        let j = choose|j: int|
            0 <= j < made.len() && made_by(made[j], creator) && after == before.push((base + j) as usize);
        assert(longer[j] == made[j]);
    }
}

/// One item merged into the pool `before`, with id `id`, gives `after`.
pub open spec fn merge_one(before: Seq<Content>, item: NewContent, id: int, after: Seq<Content>) -> bool {
    match item {
        NewContent::Post(p) => after == before.push(Content { id: id as usize, ..p }),
        NewContent::Comment { post_id, comment } => if has_id(before, post_id) {
            comment_added(
                before,
                after,
                first_index(before, post_id),
                Comment { id: id as usize, ..comment },
            )
        } else {
            after == before
        },
    }
}

/// `trace` lists the pool before each item of `items` is merged in order
/// (item `j` with id `base + j`), and after the last.
pub open spec fn merge_trace(pool: Seq<Content>, items: Seq<NewContent>, base: int, trace: Seq<Seq<Content>>) -> bool {
    &&& trace.len() == items.len() + 1
    &&& trace[0] == pool
    &&& forall|j: int| 0 <= j < items.len() ==> merge_one(#[trigger] trace[j], items[j], base + j, trace[j + 1])
}

/// Merging `items` in order into `pool`, item `j` with id `base + j`,
/// gives `result`.
pub open spec fn merges(pool: Seq<Content>, items: Seq<NewContent>, base: int, result: Seq<Content>) -> bool {
    exists|trace: Seq<Seq<Content>>|
        #![trigger merge_trace(pool, items, base, trace)]
        merge_trace(pool, items, base, trace) && trace.last() == result
}

/// One call of `tick_at(now)` took `before` to `after`.
pub open spec fn ticked(before: Simulation, after: Simulation, now: i64) -> bool {
    &&& after.wf()
    &&& after.current_tick == now
    &&& after.individuals@.len() == before.individuals@.len()
    &&& after.bots@.len() == before.bots@.len()
    &&& after.organisations@.len() == before.organisations@.len()
    &&& pool_grew(before.engine, after.engine)
    &&& (now as int) - before.last_tick < before.config.tick_rate_ms ==> {
        &&& after.individuals == before.individuals
        &&& after.bots == before.bots
        &&& after.organisations == before.organisations
        &&& after.engine == before.engine
        &&& after.last_tick == before.last_tick
    }
    &&& (now as int) - before.last_tick >= before.config.tick_rate_ms ==> {
        &&& after.last_tick == now
        &&& forall|i: int|
            0 <= i < before.individuals@.len() ==> may_follow(
                #[trigger] before.individuals@[i].state,
                after.individuals@[i].state,
            ) && after.individuals@[i].core.id == before.individuals@[i].core.id
        &&& forall|i: int|
            0 <= i < before.individuals@.len() ==> advanced(
                before.individuals@[i],
                #[trigger] after.individuals@[i],
                before.engine,
                before.config,
            )
        &&& forall|i: int|
            0 <= i < before.bots@.len() ==> (#[trigger] after.bots@[i]).state
                == writer_next(before.bots@[i].state, before.config.bot_creation_ticks)
        &&& forall|i: int|
            0 <= i < before.organisations@.len() ==> organisation_next(before.organisations@[i].state, (#[trigger] after.organisations@[i]).state)
        &&& exists|made: Seq<NewContent>|
            #![trigger merges(before.engine.content_pool@, made, before.engine.next_id as int, after.engine.content_pool@)]
            {
            &&& merges(before.engine.content_pool@, made, before.engine.next_id as int, after.engine.content_pool@)
            &&& after.engine.next_id == before.engine.next_id + made.len()
            &&& forall|i: int|
                0 <= i < before.individuals@.len() ==> recorded(
                    before.individuals@[i].core.created_content@,
                    (#[trigger] after.individuals@[i]).core.created_content@,
                    made,
                    before.engine.next_id as int,
                    before.individuals@[i].core.id,
                )
            &&& forall|i: int|
                0 <= i < before.bots@.len() ==> recorded(
                    before.bots@[i].core.created_content@,
                    (#[trigger] after.bots@[i]).core.created_content@,
                    made,
                    before.engine.next_id as int,
                    before.bots@[i].core.id,
                ) && (writing_done(before.bots@[i].state) <==> after.bots@[i].core.created_content@
                    != before.bots@[i].core.created_content@)
            &&& forall|i: int|
                0 <= i < before.organisations@.len() ==> recorded(
                    before.organisations@[i].core.created_content@,
                    (#[trigger] after.organisations@[i]).core.created_content@,
                    made,
                    before.engine.next_id as int,
                    before.organisations@[i].core.id,
                ) && (writing_done(before.organisations@[i].state)
                    <==> after.organisations@[i].core.created_content@
                    != before.organisations@[i].core.created_content@)
        }
    }
}

impl Simulation {
    pub open spec fn wf(&self) -> bool {
        &&& self.config.wf()
        &&& self.engine.wf()
        &&& self.engine.vector_dimension <= MAX_DIMENSION
        &&& forall|i: int| 0 <= i < self.individuals@.len() ==> (#[trigger] self.individuals@[i]).wf()
        &&& forall|i: int| 0 <= i < self.bots@.len() ==> (#[trigger] self.bots@[i]).wf()
        &&& forall|i: int| 0 <= i < self.organisations@.len() ==> (#[trigger] self.organisations@[i]).wf()
    }

    /// A simulation with the configured tags in the engine and the
    /// configured numbers of individuals, bots and organisations, ids
    /// counting from zero in that order, traits drawn at random.
    pub fn new(config: SimulationConfig) -> (r: Self)
        requires
            config.wf(),
        ensures
            r.wf(),
            r.individuals@.len() == config.num_individuals,
            r.bots@.len() == config.num_bots,
            r.organisations@.len() == config.num_organisations,
            forall|i: int|
                0 <= i < config.sample_tags@.len() ==> has_tag_name(
                    r.engine.index_to_tag@,
                    #[trigger] config.sample_tags@[i]@,
                ),
            tags_distinct(config.sample_tags@) ==> r.engine.index_to_tag@ == config.sample_tags@,
            r.engine.content_pool@.len() == 0,
            r.current_tick == r.last_tick,
    {
        let engine = RecommendationEngine::with_tags(&config.sample_tags);
        let mut individuals: Vec<Individual> = Vec::new();
        let mut k: usize = 0;
        while k < config.num_individuals
            invariant
                k <= config.num_individuals,
                individuals@.len() == k,
                forall|j: int| 0 <= j < k ==> (#[trigger] individuals@[j]).wf(),
            decreases config.num_individuals - k,
        {
            individuals.push(Individual::random(k, DEFAULT_DIMENSION));
            k = k + 1;
        }
        let mut bots: Vec<Bot> = Vec::new();
        let mut b: usize = 0;
        while b < config.num_bots
            invariant
                b <= config.num_bots,
                bots@.len() == b,
                forall|j: int| 0 <= j < b ==> (#[trigger] bots@[j]).wf(),
            decreases config.num_bots - b,
        {
            bots.push(Bot::new(k.wrapping_add(b), &config));
            b = b + 1;
        }
        let mut organisations: Vec<Organisation> = Vec::new();
        let mut o: usize = 0;
        while o < config.num_organisations
            invariant
                o <= config.num_organisations,
                organisations@.len() == o,
                forall|j: int| 0 <= j < o ==> (#[trigger] organisations@[j]).wf(),
            decreases config.num_organisations - o,
        {
            organisations.push(Organisation::new(k.wrapping_add(b).wrapping_add(o), &config));
            o = o + 1;
        }
        let now = now_millis();
        Simulation {
            config,
            engine,
            individuals,
            bots,
            organisations,
            current_tick: now,
            last_tick: now,
        }
    }

    /// Advances the simulation if a tick is due by the clock.
    /// Nothing happens once content ids would run out.
    pub fn tick(&mut self)
        requires
            old(self).wf(),
        ensures
            final(self).wf(),
            old(self).engine.next_id + old(self).individuals@.len() + old(self).bots@.len()
                + old(self).organisations@.len() > usize::MAX ==> *final(self) == *old(self),
            old(self).engine.next_id + old(self).individuals@.len() + old(self).bots@.len()
                + old(self).organisations@.len() <= usize::MAX ==> exists|now: i64|
                #![trigger ticked(*old(self), *final(self), now)]
                ticked(*old(self), *final(self), now),
    {
        let room = (self.engine.next_id as u128) + (self.individuals.len() as u128)
            + (self.bots.len() as u128) + (self.organisations.len() as u128);
        if room > usize::MAX as u128 {
            return;
        }
        let now = now_millis();
        self.tick_at(now);
    }

    /// Advances every agent once when at least `tick_rate_ms` has passed
    /// since the last tick: individuals, then bots, then organisations,
    /// each seeing the engine as it stood before the tick. The content made
    /// gets ids counting up from the engine's next id, in that order; each
    /// id is recorded with its creator, and the content is merged into the
    /// pool afterwards. Otherwise only the current time is recorded.
    pub fn tick_at(&mut self, now: i64)
        requires
            old(self).wf(),
            old(self).engine.next_id + old(self).individuals@.len() + old(self).bots@.len()
                + old(self).organisations@.len() <= usize::MAX,
        ensures
            ticked(*old(self), *final(self), now),
    {
        self.current_tick = now;
        if (now as i128) - (self.last_tick as i128) < self.config.tick_rate_ms as i128 {
            return;
        }
        self.last_tick = now;
        let ghost before = self.individuals@;
        let ghost base = self.engine.next_id as int;
        let n = self.individuals.len();
        let mut made: Vec<NewContent> = Vec::new();
        let mut i: usize = 0;
        while i < n
            invariant
                self.config.wf(),
                self.config == old(self).config,
                self.current_tick == now,
                self.last_tick == now,
                self.engine.wf(),
                self.engine == old(self).engine,
                base == self.engine.next_id,
                base + old(self).individuals@.len() + old(self).bots@.len()
                    + old(self).organisations@.len() <= usize::MAX,
                n == self.individuals@.len(),
                n == before.len(),
                before == old(self).individuals@,
                i <= n,
                made@.len() <= i,
                forall|j: int| 0 <= j < n ==> (#[trigger] self.individuals@[j]).wf(),
                forall|j: int|
                    0 <= j < i ==> may_follow(#[trigger] before[j].state, self.individuals@[j].state)
                        && self.individuals@[j].core.id == before[j].core.id,
                forall|j: int|
                    0 <= j < i ==> advanced(
                        before[j],
                        #[trigger] self.individuals@[j],
                        old(self).engine,
                        old(self).config,
                    ),
                forall|j: int|
                    0 <= j < i ==> recorded(
                        before[j].core.created_content@,
                        (#[trigger] self.individuals@[j]).core.created_content@,
                        made@,
                        base,
                        before[j].core.id,
                    ),
                forall|j: int| i <= j < n ==> #[trigger] self.individuals@[j] == before[j],
                self.bots == old(self).bots,
                self.organisations == old(self).organisations,
                forall|j: int| 0 <= j < made@.len() ==> new_content_wf(#[trigger] made@[j]),
            decreases n - i,
        {
            let ghost prev_made = made@;
            let out = self.individuals[i].tick(&self.engine, &self.config);
            let ghost stepped = self.individuals@[i as int];
            proof {
                let (t, d) = choose|t: i64, d: TickDraws|
                    #![trigger steps_to(before[i as int], stepped, self.engine, self.config, t, d, out)]
                    d.decision < SCALE && d.attention < SCALE && steps_to(
                        before[i as int],
                        stepped,
                        self.engine,
                        self.config,
                        t,
                        d,
                        out,
                    );
                assert(steps_to(before[i as int], stepped, old(self).engine, old(self).config, t, d, out));
            }
            match out {
                Some(c) => {
                    let id = self.engine.next_id + made.len();
                    self.individuals[i].core.created_content.push(id);
                    made.push(c);
                    proof {
                        assert(made@[prev_made.len() as int] == c);
                    }
                },
                None => {},
            }
            proof {
                assert(advanced(before[i as int], self.individuals@[i as int], old(self).engine, old(self).config));
                assert forall|j: int| 0 <= j <= i implies recorded(
                    before[j].core.created_content@,
                    (#[trigger] self.individuals@[j]).core.created_content@,
                    made@,
                    base,
                    before[j].core.id,
                ) by {
                    if j < i {
                        lemma_recorded_grows(
                            before[j].core.created_content@,
                            self.individuals@[j].core.created_content@,
                            prev_made,
                            made@,
                            base,
                            before[j].core.id,
                        );
                    } else if made@.len() > prev_made.len() {
                        assert(made_by(made@[prev_made.len() as int], before[j].core.id));
                    }
                }
            }
            i = i + 1;
        }
        let ghost bots_before = self.bots@;
        let nb = self.bots.len();
        let mut b: usize = 0;
        while b < nb
            invariant
                self.config.wf(),
                self.config == old(self).config,
                self.current_tick == now,
                self.last_tick == now,
                self.engine.wf(),
                self.engine == old(self).engine,
                base == self.engine.next_id,
                base + old(self).individuals@.len() + old(self).bots@.len()
                    + old(self).organisations@.len() <= usize::MAX,
                made@.len() <= n + b,
                self.individuals@.len() == n,
                forall|j: int| 0 <= j < n ==> (#[trigger] self.individuals@[j]).wf(),
                forall|j: int|
                    0 <= j < n ==> may_follow(#[trigger] before[j].state, self.individuals@[j].state)
                        && self.individuals@[j].core.id == before[j].core.id,
                forall|j: int|
                    0 <= j < n ==> advanced(
                        before[j],
                        #[trigger] self.individuals@[j],
                        old(self).engine,
                        old(self).config,
                    ),
                forall|j: int|
                    0 <= j < n ==> recorded(
                        before[j].core.created_content@,
                        (#[trigger] self.individuals@[j]).core.created_content@,
                        made@,
                        base,
                        before[j].core.id,
                    ),
                nb == self.bots@.len(),
                n == before.len(),
                n == old(self).individuals@.len(),
                bots_before == old(self).bots@,
                self.organisations == old(self).organisations,
                b <= nb,
                self.bots@.len() == old(self).bots@.len(),
                forall|j: int| 0 <= j < nb ==> (#[trigger] self.bots@[j]).wf(),
                forall|j: int|
                    0 <= j < b ==> (#[trigger] self.bots@[j]).state == writer_next(
                        bots_before[j].state,
                        self.config.bot_creation_ticks,
                    ) && self.bots@[j].core.id == bots_before[j].core.id && recorded(
                        bots_before[j].core.created_content@,
                        self.bots@[j].core.created_content@,
                        made@,
                        base,
                        bots_before[j].core.id,
                    ) && (writing_done(bots_before[j].state) <==> self.bots@[j].core.created_content@
                        != bots_before[j].core.created_content@),
                forall|j: int| b <= j < nb ==> #[trigger] self.bots@[j] == bots_before[j],
                forall|j: int| 0 <= j < made@.len() ==> new_content_wf(#[trigger] made@[j]),
            decreases nb - b,
        {
            let ghost prev_made = made@;
            match self.bots[b].tick(&self.config) {
                Some(p) => {
                    let id = self.engine.next_id + made.len();
                    self.bots[b].core.created_content.push(id);
                    made.push(NewContent::Post(p));
                    proof {
                        assert(made@[prev_made.len() as int] == NewContent::Post(p));
                        assert(self.bots@[b as int].core.created_content@.len()
                            == bots_before[b as int].core.created_content@.len() + 1);
                    }
                },
                None => {},
            }
            proof {
                assert forall|j: int| 0 <= j < n implies recorded(
                    before[j].core.created_content@,
                    (#[trigger] self.individuals@[j]).core.created_content@,
                    made@,
                    base,
                    before[j].core.id,
                ) by {
                    lemma_recorded_grows(
                        before[j].core.created_content@,
                        self.individuals@[j].core.created_content@,
                        prev_made,
                        made@,
                        base,
                        before[j].core.id,
                    );
                }
                assert forall|j: int| 0 <= j <= b implies (#[trigger] self.bots@[j]).state == writer_next(
                    bots_before[j].state,
                    self.config.bot_creation_ticks,
                ) && self.bots@[j].core.id == bots_before[j].core.id && recorded(
                    bots_before[j].core.created_content@,
                    self.bots@[j].core.created_content@,
                    made@,
                    base,
                    bots_before[j].core.id,
                ) && (writing_done(bots_before[j].state) <==> self.bots@[j].core.created_content@
                    != bots_before[j].core.created_content@) by {
                    if j < b {
                        lemma_recorded_grows(
                            bots_before[j].core.created_content@,
                            self.bots@[j].core.created_content@,
                            prev_made,
                            made@,
                            base,
                            bots_before[j].core.id,
                        );
                    } else if made@.len() > prev_made.len() {
                        assert(made_by(made@[prev_made.len() as int], bots_before[j].core.id));
                    }
                }
            }
            b = b + 1;
        }
        let ghost orgs_before = self.organisations@;
        let no = self.organisations.len();
        let mut o: usize = 0;
        while o < no
            invariant
                self.config.wf(),
                self.config == old(self).config,
                self.current_tick == now,
                self.last_tick == now,
                self.engine.wf(),
                self.engine == old(self).engine,
                base == self.engine.next_id,
                base + old(self).individuals@.len() + old(self).bots@.len()
                    + old(self).organisations@.len() <= usize::MAX,
                made@.len() <= n + nb + o,
                nb == old(self).bots@.len(),
                self.individuals@.len() == n,
                forall|j: int| 0 <= j < n ==> (#[trigger] self.individuals@[j]).wf(),
                forall|j: int|
                    0 <= j < n ==> may_follow(#[trigger] before[j].state, self.individuals@[j].state)
                        && self.individuals@[j].core.id == before[j].core.id,
                forall|j: int|
                    0 <= j < n ==> advanced(
                        before[j],
                        #[trigger] self.individuals@[j],
                        old(self).engine,
                        old(self).config,
                    ),
                forall|j: int|
                    0 <= j < n ==> recorded(
                        before[j].core.created_content@,
                        (#[trigger] self.individuals@[j]).core.created_content@,
                        made@,
                        base,
                        before[j].core.id,
                    ),
                self.bots@.len() == nb,
                bots_before == old(self).bots@,
                forall|j: int| 0 <= j < nb ==> (#[trigger] self.bots@[j]).wf(),
                forall|j: int|
                    0 <= j < nb ==> (#[trigger] self.bots@[j]).state == writer_next(
                        bots_before[j].state,
                        self.config.bot_creation_ticks,
                    ) && recorded(
                        bots_before[j].core.created_content@,
                        self.bots@[j].core.created_content@,
                        made@,
                        base,
                        bots_before[j].core.id,
                    ) && (writing_done(bots_before[j].state) <==> self.bots@[j].core.created_content@
                        != bots_before[j].core.created_content@),
                no == self.organisations@.len(),
                no == old(self).organisations@.len(),
                no == orgs_before.len(),
                n == before.len(),
                n == old(self).individuals@.len(),
                orgs_before == old(self).organisations@,
                o <= no,
                forall|j: int| 0 <= j < no ==> (#[trigger] self.organisations@[j]).wf(),
                forall|j: int|
                    0 <= j < o ==> (organisation_next(orgs_before[j].state, (#[trigger] self.organisations@[j]).state)) && recorded(
                        orgs_before[j].core.created_content@,
                        self.organisations@[j].core.created_content@,
                        made@,
                        base,
                        orgs_before[j].core.id,
                    ) && (writing_done(orgs_before[j].state)
                        <==> self.organisations@[j].core.created_content@
                        != orgs_before[j].core.created_content@),
                forall|j: int| o <= j < no ==> #[trigger] self.organisations@[j] == orgs_before[j],
                forall|j: int| 0 <= j < made@.len() ==> new_content_wf(#[trigger] made@[j]),
            decreases no - o,
        {
            let ghost prev_made = made@;
            match self.organisations[o].tick(&self.config) {
                Some(p) => {
                    let id = self.engine.next_id + made.len();
                    self.organisations[o].core.created_content.push(id);
                    made.push(NewContent::Post(p));
                    proof {
                        assert(made@[prev_made.len() as int] == NewContent::Post(p));
                        assert(self.organisations@[o as int].core.created_content@.len()
                            == orgs_before[o as int].core.created_content@.len() + 1);
                    }
                },
                None => {},
            }
            proof {
                assert forall|j: int| 0 <= j < n implies recorded(
                    before[j].core.created_content@,
                    (#[trigger] self.individuals@[j]).core.created_content@,
                    made@,
                    base,
                    before[j].core.id,
                ) by {
                    lemma_recorded_grows(
                        before[j].core.created_content@,
                        self.individuals@[j].core.created_content@,
                        prev_made,
                        made@,
                        base,
                        before[j].core.id,
                    );
                }
                assert forall|j: int| 0 <= j < nb implies recorded(
                    bots_before[j].core.created_content@,
                    (#[trigger] self.bots@[j]).core.created_content@,
                    made@,
                    base,
                    bots_before[j].core.id,
                ) by {
                    lemma_recorded_grows(
                        bots_before[j].core.created_content@,
                        self.bots@[j].core.created_content@,
                        prev_made,
                        made@,
                        base,
                        bots_before[j].core.id,
                    );
                }
                assert forall|j: int| 0 <= j <= o implies (organisation_next(orgs_before[j].state, (#[trigger] self.organisations@[j]).state)) && recorded(
                    orgs_before[j].core.created_content@,
                    self.organisations@[j].core.created_content@,
                    made@,
                    base,
                    orgs_before[j].core.id,
                ) && (writing_done(orgs_before[j].state)
                    <==> self.organisations@[j].core.created_content@
                    != orgs_before[j].core.created_content@) by {
                    if j < o {
                        lemma_recorded_grows(
                            orgs_before[j].core.created_content@,
                            self.organisations@[j].core.created_content@,
                            prev_made,
                            made@,
                            base,
                            orgs_before[j].core.id,
                        );
                    } else if made@.len() > prev_made.len() {
                        assert(made_by(made@[prev_made.len() as int], orgs_before[j].core.id));
                    }
                }
            }
            o = o + 1;
        }
        let ghost all = made@;
        self.merge(made);
        assert(merges(old(self).engine.content_pool@, all, base, self.engine.content_pool@));
    }

    /// Puts the content made in a tick into the pool, in order: item `j`
    /// gets id `next_id + j`; a post joins the pool, a comment joins the
    /// first post with its post id (it is dropped if there is none).
    fn merge(&mut self, made: Vec<NewContent>)
        requires
            old(self).engine.wf(),
            old(self).engine.next_id + made@.len() <= usize::MAX,
            forall|j: int| 0 <= j < made@.len() ==> new_content_wf(#[trigger] made@[j]),
        ensures
            final(self).engine.wf(),
            merges(
                old(self).engine.content_pool@,
                made@,
                old(self).engine.next_id as int,
                final(self).engine.content_pool@,
            ),
            final(self).engine.next_id == old(self).engine.next_id + made@.len(),
            pool_grew(old(self).engine, final(self).engine),
            final(self).engine.vector_dimension == old(self).engine.vector_dimension,
            final(self).individuals == old(self).individuals,
            final(self).bots == old(self).bots,
            final(self).organisations == old(self).organisations,
            final(self).config == old(self).config,
            final(self).current_tick == old(self).current_tick,
            final(self).last_tick == old(self).last_tick,
    {
        let ghost all = made@;
        let ghost base = self.engine.next_id as int;
        let mut rest = made;
        let mut k: usize = 0;
        let ghost mut trace: Seq<Seq<Content>> = seq![self.engine.content_pool@];
        assert(all.take(0) =~= Seq::<NewContent>::empty());
        while rest.len() > 0
            invariant
                self.engine.wf(),
                rest@ == all.skip(k as int),
                k <= all.len(),
                base == old(self).engine.next_id as int,
                base + all.len() <= usize::MAX,
                self.engine.next_id == base + k,
                merge_trace(old(self).engine.content_pool@, all.take(k as int), base, trace),
                trace.last() == self.engine.content_pool@,
                pool_grew(old(self).engine, self.engine),
                self.engine.vector_dimension == old(self).engine.vector_dimension,
                self.individuals == old(self).individuals,
                self.bots == old(self).bots,
                self.organisations == old(self).organisations,
                self.config == old(self).config,
                self.current_tick == old(self).current_tick,
                self.last_tick == old(self).last_tick,
                forall|j: int| 0 <= j < all.len() ==> new_content_wf(#[trigger] all[j]),
            decreases rest@.len(),
        {
            let ghost pre = self.engine;
            assert(k < all.len());
            let c = rest.remove(0);
            assert(c == all[k as int]);
            assert(new_content_wf(all[k as int]));
            assert(rest@ =~= all.skip(k as int + 1));
            assert(all.take(k as int + 1).drop_last() =~= all.take(k as int));
            match c {
                NewContent::Post(mut post) => {
                    post.id = self.engine.next_content_id();
                    self.engine.create_post(post);
                    assert(forall|j: int|
                        0 <= j < pre.content_pool@.len() ==> #[trigger] self.engine.content_pool@[j]
                            == pre.content_pool@[j]);
                    assert(post_wf(self.engine.content_pool@[pre.content_pool@.len() as int]));
                    assert(merge_one(pre.content_pool@, all[k as int], base + k, self.engine.content_pool@));
                },
                NewContent::Comment { post_id, mut comment } => {
                    comment.id = self.engine.next_content_id();
                    let ghost mid = self.engine;
                    let _ = self.engine.add_comment_to_post(post_id, comment);
                    proof {
                        if has_id(mid.content_pool@, post_id) {
                            let p = choose|p: int|
                                is_first_with_id(mid.content_pool@, post_id, p) && comment_added(
                                    mid.content_pool@,
                                    self.engine.content_pool@,
                                    p,
                                    comment,
                                );
                            lemma_first_index(mid.content_pool@, post_id, p);
                            let cs = self.engine.content_pool@[p].comments@;
                            assert(cs == mid.content_pool@[p].comments@.push(comment));
                            assert(post_wf(mid.content_pool@[p]));
                            assert forall|j: int| 0 <= j < cs.len() implies vector_ok((#[trigger] cs[j]).interest_profile.vector_representation@) by {
                                if j < cs.len() - 1 {
                                    assert(cs[j] == mid.content_pool@[p].comments@[j]);
                                }
                            }
                            assert(post_wf(self.engine.content_pool@[p]));
                            assert(forall|j: int|
                                0 <= j < self.engine.content_pool@.len() && j != p ==> #[trigger] self.engine.content_pool@[j]
                                    == mid.content_pool@[j]);
                        }
                        assert(merge_one(pre.content_pool@, all[k as int], base + k, self.engine.content_pool@));
                    }
                },
            }
            proof {
                let t = all.take(k as int + 1);
                let old_trace = trace;
                trace = trace.push(self.engine.content_pool@);
                assert forall|j: int| 0 <= j < t.len() implies merge_one(
                    #[trigger] trace[j],
                    t[j],
                    base + j,
                    trace[j + 1],
                ) by {
                    if j < k {
                        assert(t[j] == all.take(k as int)[j]);
                        assert(trace[j] == old_trace[j] && trace[j + 1] == old_trace[j + 1]);
                    } else {
                        assert(trace[j] == pre.content_pool@);
                    }
                }
            }
            k = k + 1;
        }
        assert(all.take(all.len() as int) =~= all);
        assert(merge_trace(old(self).engine.content_pool@, all, base, trace));
    }

    /// Adds an agent of the given kind, with the next free id (the number
    /// of agents there are).
    pub fn add_agent(&mut self, agent_type: AgentType)
        requires
            old(self).wf(),
        ensures
            final(self).wf(),
            final(self).engine == old(self).engine,
            agent_type == AgentType::Individual ==> final(self).individuals@.len()
                == old(self).individuals@.len() + 1 && final(self).bots == old(self).bots
                && final(self).organisations == old(self).organisations,
            agent_type == AgentType::Bot ==> final(self).bots@.len() == old(self).bots@.len() + 1
                && final(self).individuals == old(self).individuals && final(self).organisations
                == old(self).organisations,
            agent_type == AgentType::Organisation ==> final(self).organisations@.len()
                == old(self).organisations@.len() + 1 && final(self).individuals
                == old(self).individuals && final(self).bots == old(self).bots,
    {
        let id = self.individuals.len().wrapping_add(self.bots.len()).wrapping_add(
            self.organisations.len(),
        );
        match agent_type {
            AgentType::Individual => {
                self.individuals.push(Individual::random(id, DEFAULT_DIMENSION));
            },
            AgentType::Bot => {
                self.bots.push(Bot::new(id, &self.config));
            },
            AgentType::Organisation => {
                self.organisations.push(Organisation::new(id, &self.config));
            },
        }
    }

    /// Removes the most recently added agent of the given kind, if any.
    pub fn remove_agent(&mut self, agent_type: AgentType)
        requires
            old(self).wf(),
        ensures
            final(self).wf(),
            final(self).engine == old(self).engine,
            agent_type == AgentType::Individual ==> final(self).individuals@ == (if old(
                self,
            ).individuals@.len() > 0 {
                old(self).individuals@.drop_last()
            } else {
                old(self).individuals@
            }) && final(self).bots == old(self).bots && final(self).organisations == old(
                self,
            ).organisations,
            agent_type == AgentType::Bot ==> final(self).bots@ == (if old(self).bots@.len() > 0 {
                old(self).bots@.drop_last()
            } else {
                old(self).bots@
            }) && final(self).individuals == old(self).individuals && final(self).organisations
                == old(self).organisations,
            agent_type == AgentType::Organisation ==> final(self).organisations@ == (if old(
                self,
            ).organisations@.len() > 0 {
                old(self).organisations@.drop_last()
            } else {
                old(self).organisations@
            }) && final(self).individuals == old(self).individuals && final(self).bots == old(
                self,
            ).bots,
    {
        match agent_type {
            AgentType::Individual => {
                if self.individuals.len() > 0 {
                    self.individuals.pop();
                }
            },
            AgentType::Bot => {
                if self.bots.len() > 0 {
                    self.bots.pop();
                }
            },
            AgentType::Organisation => {
                if self.organisations.len() > 0 {
                    self.organisations.pop();
                }
            },
        }
    }
}

} // verus!
