use social_sim::agent::{Individual, NewContent, TickDraws};
use social_sim::config::SimulationConfig;
use social_sim::content::{Comment, Content};
use social_sim::engine::{recency_after, RecommendationEngine};
use social_sim::errors::TransitionError;
use social_sim::interest::{InterestProfile, Topic};
use social_sim::numeric::SCALE;
use social_sim::roles::{Bot, Organisation};
use social_sim::simulation::Simulation;
use social_sim::states::{
    AgentState, AgentType, CreatingPostTransition, DefaultPolicy, OfflineTransition,
    ReadingCommentsTransition, ReadingPostTransition, ScrollingTransition, TransitionPolicy,
};

fn profile(weights: &[(usize, u32)]) -> InterestProfile {
    let mut p = InterestProfile::new(100);
    for (tag, w) in weights {
        p.interests.push((*tag, Topic { weighted_interest: *w, agreement: 0 }));
    }
    p.normalise_weights();
    p
}

fn post(id: usize, timestamp: i64, weights: &[(usize, u32)]) -> Content {
    Content::new(id, 100 + id, timestamp, profile(weights), 10)
}

fn weight_of(p: &InterestProfile, tag: usize) -> u32 {
    p.interests.iter().find(|(t, _)| *t == tag).map(|(_, topic)| topic.weighted_interest).unwrap()
}

fn weight_sum(p: &InterestProfile) -> u64 {
    p.interests.iter().map(|(_, t)| t.weighted_interest as u64).sum()
}

#[test]
fn normalise_two_equal_weights_gives_halves() {
    let p = profile(&[(0, 2), (1, 2)]);
    assert_eq!(weight_of(&p, 0), 500_000);
    assert_eq!(weight_of(&p, 1), 500_000);
    assert_eq!(p.total_weight, SCALE as u128);
    assert_eq!(p.vector_representation[0], 500_000);
    assert_eq!(p.vector_representation[1], 500_000);
    assert_eq!(p.vector_representation[2], 0);
}

#[test]
fn normalise_sums_to_exactly_one() {
    let p = profile(&[(3, 1), (5, 1), (7, 1)]);
    assert_eq!(weight_sum(&p), SCALE);
    assert_eq!(weight_of(&p, 3), 333_333);
    assert_eq!(weight_of(&p, 5), 333_333);
    assert_eq!(weight_of(&p, 7), 333_334);
}

#[test]
fn normalise_empty_profile_is_a_no_op() {
    let mut p = InterestProfile::new(100);
    p.normalise_weights();
    assert!(p.interests.is_empty());
    assert_eq!(p.total_weight, 0);
    let mut z = InterestProfile::new(10);
    z.interests.push((1, Topic { weighted_interest: 0, agreement: 5 }));
    z.normalise_weights();
    assert_eq!(z.interests, vec![(1, Topic { weighted_interest: 0, agreement: 5 })]);
    assert_eq!(z.total_weight, 0);
}

#[test]
fn normalise_twice_equals_once() {
    let mut p = InterestProfile::new(100);
    p.interests.push((0, Topic { weighted_interest: 7, agreement: 1 }));
    p.interests.push((4, Topic { weighted_interest: 11, agreement: -3 }));
    p.interests.push((9, Topic { weighted_interest: 13, agreement: 0 }));
    p.normalise_weights();
    let once = p.interests.clone();
    p.normalise_weights();
    assert_eq!(p.interests, once);
    assert_eq!(weight_sum(&p), SCALE);
}

#[test]
fn normalise_keeps_agreement() {
    let mut p = InterestProfile::new(10);
    p.interests.push((2, Topic { weighted_interest: 1, agreement: -400_000 }));
    p.interests.push((3, Topic { weighted_interest: 3, agreement: 900_000 }));
    p.normalise_weights();
    assert_eq!(p.interests[0], (2, Topic { weighted_interest: 250_000, agreement: -400_000 }));
    assert_eq!(p.interests[1], (3, Topic { weighted_interest: 750_000, agreement: 900_000 }));
}

#[test]
fn similarity_with_itself_is_one() {
    let engine = RecommendationEngine::new();
    let v = vec![3u32, 0, 7, 1];
    assert_eq!(engine.calculate_vector_similarity(&v, &v), SCALE);
    let w = profile(&[(0, 1), (1, 3)]).vector_representation;
    assert_eq!(engine.calculate_vector_similarity(&w, &w), SCALE);
}

#[test]
fn similarity_with_zero_vector_is_zero() {
    let engine = RecommendationEngine::new();
    let v = vec![3u32, 0, 7, 1];
    let z = vec![0u32; 4];
    assert_eq!(engine.calculate_vector_similarity(&v, &z), 0);
    assert_eq!(engine.calculate_vector_similarity(&z, &v), 0);
    assert_eq!(engine.calculate_vector_similarity(&z, &z), 0);
}

#[test]
fn similarity_exact_values() {
    let engine = RecommendationEngine::new();
    assert_eq!(engine.calculate_vector_similarity(&vec![3, 4], &vec![4, 3]), 960_000);
    assert_eq!(engine.calculate_vector_similarity(&vec![1, 0], &vec![0, 1]), 0);
}

#[test]
fn similarity_of_unequal_vectors_is_the_rounded_cosine() {
    let engine = RecommendationEngine::new();
    // cos = 1 / sqrt(2)
    assert_eq!(engine.calculate_vector_similarity(&vec![1, 1], &vec![1, 0]), 707_106);
    assert_eq!(engine.calculate_vector_similarity(&vec![1_000_000, 0], &vec![500_000, 500_000]), 707_106);
}

#[test]
fn recency_is_exponential_in_hours() {
    // e^-(0.05 * hours), rounded down on the scale
    assert_eq!(recency_after(0, 50_000), 1_000_000);
    assert_eq!(recency_after(3_600, 50_000), 951_229);
    assert_eq!(recency_after(7_200, 50_000), 904_837);
    assert_eq!(recency_after(360_000, 50_000), 6_737);
    // a rate of 1.0 per hour: e^-1 after one hour
    assert_eq!(recency_after(3_600, 1_000_000), 367_879);
    assert_eq!(recency_after(u64::MAX, 50_000), 0);
    assert_eq!(recency_after(1_000, 0), 1_000_000);
}

#[test]
fn content_score_exact_value() {
    let engine = RecommendationEngine::new();
    let viewer = profile(&[(0, 1)]);
    let aligned = post(1, 1_000, &[(0, 1)]);
    // alignment 1.0 * 0.5 + recency 1.0 * 0.3 + engagement 0 * 0.2
    assert_eq!(engine.calculate_content_score(&aligned, &viewer, 1_000), 800_000);
    // two hours later: 0.5 + e^-0.1 * 0.3
    assert_eq!(engine.calculate_content_score(&aligned, &viewer, 1_000 + 7_200), 771_451);
}

#[test]
fn content_score_is_clamped_to_one() {
    let mut engine = RecommendationEngine::new();
    engine.config.interest_weight = u32::MAX;
    engine.config.recency_weight = u32::MAX;
    engine.config.engagement_weight = u32::MAX;
    let viewer = profile(&[(0, 1)]);
    let mut p = post(1, 50, &[(0, 1)]);
    p.engagement_score = u64::MAX;
    let s = engine.calculate_content_score(&p, &viewer, 50);
    assert_eq!(s, SCALE);
    let empty = InterestProfile::new(100);
    let s0 = engine.calculate_content_score(&post(2, 0, &[]), &empty, 10_000_000);
    assert!(s0 <= SCALE);
}

#[test]
fn full_similarity_scores_higher_than_none() {
    let engine = RecommendationEngine::new();
    let viewer = profile(&[(0, 1)]);
    let same = post(1, 500, &[(0, 1)]);
    let other = post(2, 500, &[(1, 1)]);
    let a = engine.calculate_content_score(&same, &viewer, 600);
    let b = engine.calculate_content_score(&other, &viewer, 600);
    // 100 seconds old: recency 0.998612
    assert_eq!(a, 799_583);
    assert_eq!(b, 299_583);
    assert!(a > b);
}

fn engine_with_posts() -> RecommendationEngine {
    let mut engine = RecommendationEngine::new();
    engine.create_post(post(1, 0, &[(1, 1)]));
    engine.create_post(post(2, 0, &[(0, 1)]));
    engine.create_post(post(3, 0, &[(0, 1), (1, 1)]));
    engine.create_post(post(4, 0, &[(2, 1)]));
    engine
}

#[test]
fn recommendations_rank_by_score() {
    let engine = engine_with_posts();
    let viewer = profile(&[(0, 1)]);
    let r = engine.get_post_recommendations(&viewer, &vec![], 10, 0);
    // 2 fully aligned, 3 partly, 1 and 4 not at all (pool order among ties)
    assert_eq!(r, vec![2, 3, 1, 4]);
}

#[test]
fn recommendations_skip_viewed_and_respect_count() {
    let engine = engine_with_posts();
    let viewer = profile(&[(0, 1)]);
    let r = engine.get_post_recommendations(&viewer, &vec![2], 2, 0);
    assert_eq!(r, vec![3, 1]);
    assert!(!r.contains(&2));
    let none = engine.get_post_recommendations(&viewer, &vec![1, 2, 3, 4], 5, 0);
    assert!(none.is_empty());
    let zero = engine.get_post_recommendations(&viewer, &vec![], 0, 0);
    assert!(zero.is_empty());
}

#[test]
fn recommendations_from_empty_pool_are_empty() {
    let engine = RecommendationEngine::new();
    let viewer = profile(&[(0, 1)]);
    assert!(engine.get_post_recommendations(&viewer, &vec![], 10, 0).is_empty());
}

fn comment(id: usize, engagement: u64) -> Comment {
    let mut c = Comment::new(id, 9, 0, profile(&[(0, 1)]), 4);
    c.engagement_score = engagement;
    c
}

#[test]
fn comment_recommendations_by_engagement() {
    let mut engine = engine_with_posts();
    engine.add_comment_to_post(2, comment(20, 1)).unwrap();
    engine.add_comment_to_post(2, comment(21, 5)).unwrap();
    engine.add_comment_to_post(2, comment(22, 1)).unwrap();
    assert_eq!(engine.get_comment_recommendations(2, &vec![], 10), Some(vec![21, 20, 22]));
    assert_eq!(engine.get_comment_recommendations(2, &vec![21], 1), Some(vec![20]));
    assert_eq!(engine.get_comment_recommendations(1, &vec![], 10), Some(vec![]));
    assert_eq!(engine.get_comment_recommendations(99, &vec![], 10), None);
}

#[test]
fn lookups_by_id() {
    let engine = engine_with_posts();
    assert_eq!(engine.get_content_by_id(3).map(|p| p.creator_id), Some(103));
    assert!(engine.get_content_by_id(42).is_none());
    assert_eq!(engine.get_comments_by_post_id(3).map(|c| c.len()), Some(0));
    assert!(engine.get_comments_by_post_id(42).is_none());
}

#[test]
fn engagement_increase_and_missing_post() {
    let mut engine = engine_with_posts();
    assert_eq!(engine.increase_engagement_score(3), Ok(()));
    assert_eq!(engine.get_content_by_id(3).unwrap().engagement_score, 1);
    assert_eq!(engine.get_content_by_id(2).unwrap().engagement_score, 0);
    assert_eq!(
        engine.increase_engagement_score(77),
        Err(TransitionError::PostNotFound { id: 77 })
    );
}

#[test]
fn adding_comment_to_missing_post_fails() {
    let mut engine = engine_with_posts();
    assert_eq!(
        engine.add_comment_to_post(55, comment(1, 0)),
        Err(TransitionError::PostNotFound { id: 55 })
    );
    assert_eq!(engine.add_comment_to_post(4, comment(1, 0)), Ok(()));
    assert_eq!(engine.get_comments_by_post_id(4).unwrap()[0].id, 1);
}

#[test]
fn required_ticks_and_interest_gain() {
    assert_eq!(RecommendationEngine::calculate_required_ticks(100, 250_000), 75);
    assert_eq!(RecommendationEngine::calculate_required_ticks(10, 0), 10);
    assert_eq!(RecommendationEngine::calculate_required_ticks(10, SCALE as u32), 0);
    let engine = RecommendationEngine::new();
    let empty = InterestProfile::new(100);
    let a = profile(&[(0, 1)]);
    let b = profile(&[(1, 1)]);
    assert_eq!(engine.calculate_interest_gain(&empty, &a), 200_000);
    assert_eq!(engine.calculate_interest_gain(&a, &a), 400_000);
    assert_eq!(engine.calculate_interest_gain(&a, &b), 200_000);
}

#[test]
fn update_interest_blends_toward_source() {
    let mut p = profile(&[(0, 1)]);
    let source = profile(&[(1, 1)]);
    p.update_interest_from_profile(&source, 1_000_000);
    assert_eq!(weight_of(&p, 0), 500_000);
    assert_eq!(weight_of(&p, 1), 500_000);
    assert_eq!(p.interests[1].1.agreement, 0);
    assert_eq!(p.vector_representation[1], 500_000);
    let mut q = profile(&[(0, 1)]);
    q.update_interest_from_post(&post(1, 0, &[(0, 1)]), 250_000);
    assert_eq!(weight_of(&q, 0), SCALE as u32);
}

#[test]
fn filtered_clone_keeps_only_selected_tags() {
    let p = profile(&[(0, 1), (1, 1), (2, 2)]);
    let f = p.filtered_clone(&vec![2, 0, 2, 9]);
    assert_eq!(f.interests.len(), 2);
    assert_eq!(f.interests[0].0, 2);
    assert_eq!(f.interests[1].0, 0);
    assert_eq!(weight_of(&f, 2), 666_666);
    assert_eq!(weight_of(&f, 0), 333_334);
    assert_eq!(weight_sum(&f), SCALE);
}

#[test]
fn select_two_of_two_tags_returns_both_once() {
    let p = profile(&[(4, 1), (6, 3)]);
    for _ in 0..200 {
        let mut tags = p.select_content_tags(2, 2);
        tags.sort();
        assert_eq!(tags, vec![4, 6]);
    }
}

#[test]
fn select_tags_from_empty_profile_is_empty() {
    let p = InterestProfile::new(100);
    assert!(p.select_content_tags(1, 3).is_empty());
}

#[test]
fn select_tags_with_given_draws() {
    let p = profile(&[(4, 1), (6, 1), (8, 2)]);
    // weights 250000, 250000, 500000: a draw of 600000 lands on tag 8
    let r = p.select_content_tags_with(3, 600_000, &vec![1, 0]);
    assert_eq!(r, vec![8, 6, 4]);
    let r2 = p.select_content_tags_with(1, 0, &vec![]);
    assert_eq!(r2, vec![4]);
}

#[test]
fn policy_thresholds() {
    let policy = DefaultPolicy;
    assert_eq!(policy.decide_offline_transition(500_000, 499_999), OfflineTransition::ToScrolling);
    assert_eq!(policy.decide_offline_transition(500_000, 500_000), OfflineTransition::Stay);
    assert_eq!(policy.decide_scrolling_transition(1_000_000, 100_000), ScrollingTransition::ToReadingPost);
    assert_eq!(policy.decide_scrolling_transition(0, 700_000), ScrollingTransition::ToReadingComments);
    assert_eq!(policy.decide_scrolling_transition(0, 850_000), ScrollingTransition::ToCreatingPost);
    assert_eq!(policy.decide_scrolling_transition(0, 920_000), ScrollingTransition::ToCreatingComment);
    assert_eq!(policy.decide_scrolling_transition(0, 990_000), ScrollingTransition::ToOffline);
    assert_eq!(policy.decide_reading_post_transition(3, 10, 1_000_000, 5, 0), ReadingPostTransition::Continue);
    assert_eq!(policy.decide_reading_post_transition(3, 10, 0, 5, 0), ReadingPostTransition::ToReadingComments);
    assert_eq!(policy.decide_reading_post_transition(10, 10, 1_000_000, 0, 990_000), ReadingPostTransition::ToOffline);
    assert_eq!(policy.decide_reading_comments_transition(5, 5, 0, 3, 0), ReadingCommentsTransition::Continue);
    assert_eq!(policy.decide_reading_comments_transition(5, 5, 2, 3, 100_000), ReadingCommentsTransition::ToCreatingComment);
    assert_eq!(policy.decide_creating_post_transition(1, 2, 0), CreatingPostTransition::Continue);
    assert_eq!(policy.decide_creating_post_transition(2, 2, 850_000), CreatingPostTransition::ToOffline);
}

fn reader(attention_span: u32) -> Individual {
    let mut a = Individual::new(7, 100, SCALE as u32, attention_span, 0, SCALE as u32);
    a.core.interest_profile = profile(&[(0, 1)]);
    a
}

#[test]
fn no_attention_leaves_reading_early() {
    let mut engine = RecommendationEngine::new();
    engine.create_post(post(1, 0, &[(0, 1)]));
    let config = SimulationConfig::default();
    let trials = 300;
    let mut early = 0;
    for _ in 0..trials {
        let mut a = reader(0);
        a.state = AgentState::ReadingPost {
            post_id: 1,
            creator_id: 101,
            ticks_spent: 0,
            ticks_required: 10,
            potential_interest_gain: 200_000,
        };
        let mut ticks = 0;
        while let AgentState::ReadingPost { ticks_spent, .. } = a.state {
            if ticks_spent >= 10 {
                break;
            }
            a.tick(&engine, &config);
            ticks += 1;
        }
        if ticks < 10 {
            early += 1;
        }
    }
    assert!(early * 100 >= trials * 95);
}

#[test]
fn reading_a_post_absorbs_interest() {
    let mut engine = RecommendationEngine::new();
    engine.create_post(post(1, 0, &[(1, 1)]));
    let config = SimulationConfig::default();
    let mut a = reader(SCALE as u32);
    a.state = AgentState::ReadingPost {
        post_id: 1,
        creator_id: 101,
        ticks_spent: 0,
        ticks_required: 10,
        potential_interest_gain: 200_000,
    };
    let out = a.step(&engine, &config, 0, TickDraws { decision: 0, attention: 0, selection: 0 });
    assert!(out.is_none());
    assert!(matches!(a.state, AgentState::ReadingPost { ticks_spent: 1, .. }));
    // 0.2 of the post's tag joins the single existing tag, then renormalised
    assert_eq!(weight_of(&a.core.interest_profile, 0), 833_333);
    assert_eq!(weight_of(&a.core.interest_profile, 1), 166_667);
}

fn every_state() -> Vec<AgentState> {
    vec![
        AgentState::Offline,
        AgentState::Scrolling { recommended_post_ids: vec![] },
        AgentState::Scrolling { recommended_post_ids: vec![1, 2] },
        AgentState::ReadingPost {
            post_id: 1,
            creator_id: 0,
            ticks_spent: 0,
            ticks_required: 2,
            potential_interest_gain: 1,
        },
        AgentState::ReadingComments {
            post_id: 1,
            creator_id: 0,
            current_comment_ids: vec![5],
            current_comment_index: 0,
            ticks_spent: 3,
            ticks_required: 3,
            potential_interest_gain: 1,
        },
        AgentState::CreatingPost { post_id: 0, ticks_spent: 4, ticks_required: 4 },
        AgentState::CreatingComment { post_id: 1, comment_id: 0, ticks_spent: 0, ticks_required: 0 },
    ]
}

#[test]
fn every_state_steps_to_a_valid_state_with_empty_pool() {
    let engine = RecommendationEngine::new();
    let config = SimulationConfig::default();
    for start in every_state() {
        for decision in [0u64, 300_000, 500_000, 700_000, 850_000, 920_000, 999_999] {
            let mut a = reader(500_000);
            a.state = start.clone();
            let out = a.step(&engine, &config, 0, TickDraws { decision, attention: 999_999, selection: 3 });
            let name = a.state.state_name();
            assert!(["Offline", "Scrolling", "Reading Post", "Reading Comments", "Creating Post", "Creating Comment"].contains(&name));
            if let AgentState::ReadingComments { current_comment_ids, current_comment_index, .. } = &a.state {
                assert!(*current_comment_index < current_comment_ids.len());
            }
            if out.is_some() {
                assert!(matches!(start, AgentState::CreatingPost { .. } | AgentState::CreatingComment { .. }));
            }
        }
    }
}

#[test]
fn finishing_a_post_emits_it() {
    let engine = RecommendationEngine::new();
    let config = SimulationConfig::default();
    let mut a = reader(500_000);
    a.state = AgentState::CreatingPost { post_id: 0, ticks_spent: 4, ticks_required: 4 };
    let out = a.step(&engine, &config, 1234, TickDraws { decision: 0, attention: 0, selection: 0 });
    match out {
        Some(NewContent::Post(p)) => {
            assert_eq!(p.creator_id, 7);
            assert_eq!(p.timestamp, 1234);
            assert!(p.length < 60);
            assert_eq!(p.interest_profile.interests.len(), 1);
            assert_eq!(p.interest_profile.interests[0], (0, Topic { weighted_interest: 1_000_000, agreement: 0 }));
        }
        _ => panic!("expected a post"),
    }
    assert_eq!(a.state.state_name(), "Scrolling");
}

#[test]
fn scrolling_picks_a_post_to_read() {
    let mut engine = RecommendationEngine::new();
    engine.create_post(post(1, 0, &[(1, 1)]));
    engine.create_post(post(2, 0, &[(0, 1)]));
    let config = SimulationConfig::default();
    let a = reader(500_000);
    assert_eq!(a.select_post(&engine, &vec![1, 2], 5), Some(1));
    assert_eq!(a.select_post(&engine, &vec![], 5), None);
    let mut b = reader(500_000);
    b.state = AgentState::Scrolling { recommended_post_ids: vec![1, 2] };
    b.step(&engine, &config, 0, TickDraws { decision: 0, attention: 0, selection: 5 });
    assert!(matches!(b.state, AgentState::ReadingPost { post_id: 2, ticks_spent: 0, ticks_required: 10, .. }));
    assert_eq!(b.individual_core.viewed_content, vec![2]);
}

#[test]
fn simulation_ticks_and_merges_content() {
    let config = SimulationConfig::default();
    let mut sim = Simulation::new(config);
    assert_eq!(sim.individuals.len(), 3);
    assert_eq!(sim.engine.index_to_tag.len(), 8);
    assert!(sim.current_tick > 1_600_000_000_000);
    let mut bot = Individual::new(50, 100, 0, 0, 0, 0);
    bot.core.interest_profile = profile(&[(2, 1)]);
    bot.state = AgentState::CreatingPost { post_id: 0, ticks_spent: 0, ticks_required: 0 };
    sim.individuals.push(bot);
    let start = sim.last_tick;
    sim.tick_at(start + 10);
    assert_eq!(sim.last_tick, start);
    assert!(sim.engine.content_pool.is_empty());
    sim.tick_at(start + 100);
    assert_eq!(sim.last_tick, start + 100);
    assert!(sim.engine.content_pool.iter().any(|p| p.creator_id == 50));
    let ids: Vec<usize> = sim.engine.content_pool.iter().map(|p| p.id).collect();
    let mut unique = ids.clone();
    unique.sort();
    unique.dedup();
    assert_eq!(unique.len(), ids.len());
}

#[test]
fn adding_and_removing_agents() {
    let mut sim = Simulation::new(SimulationConfig::default());
    assert_eq!(sim.bots.len(), 2);
    assert_eq!(sim.organisations.len(), 2);
    sim.add_agent(AgentType::Individual);
    assert_eq!(sim.individuals.len(), 4);
    assert_eq!(sim.individuals[3].id(), 7);
    sim.add_agent(AgentType::Bot);
    assert_eq!(sim.bots.len(), 3);
    assert_eq!(sim.individuals.len(), 4);
    sim.remove_agent(AgentType::Individual);
    sim.remove_agent(AgentType::Organisation);
    assert_eq!(sim.individuals.len(), 3);
    assert_eq!(sim.organisations.len(), 1);
    sim.remove_agent(AgentType::Organisation);
    sim.remove_agent(AgentType::Organisation);
    assert_eq!(sim.organisations.len(), 0);
}

#[test]
fn bot_interests_from_starting_tags() {
    let config = SimulationConfig::default();
    let bot = Bot::with_interests(5, &config, &vec![(0, 100), (2, -5), (0, 7)]);
    assert_eq!(bot.core.id, 5);
    assert_eq!(bot.get_type(), AgentType::Bot);
    assert_eq!(
        bot.core.interest_profile.interests,
        vec![
            (0, Topic { weighted_interest: 500_000, agreement: 7 }),
            (2, Topic { weighted_interest: 500_000, agreement: -5 }),
        ]
    );
    assert!(matches!(bot.state, AgentState::CreatingPost { ticks_spent: 0, ticks_required: 4, .. }));
}

#[test]
fn bot_posts_every_few_ticks() {
    let config = SimulationConfig::default();
    let mut bot = Bot::with_interests(5, &config, &vec![(1, 0)]);
    for spent in 1..4u32 {
        assert!(bot.step(&config, 77).is_none());
        assert!(matches!(bot.state, AgentState::CreatingPost { ticks_spent, .. } if ticks_spent == spent));
    }
    let post = bot.step(&config, 77).unwrap();
    assert_eq!(post.creator_id, 5);
    assert_eq!(post.timestamp, 77);
    assert_eq!(post.interest_profile.interests, vec![(1, Topic { weighted_interest: 1_000_000, agreement: 0 })]);
    assert!(matches!(bot.state, AgentState::CreatingPost { ticks_spent: 0, ticks_required: 4, .. }));
}

#[test]
fn random_bot_uses_sample_tags() {
    let config = SimulationConfig::default();
    let bot = Bot::new(1, &config);
    assert!(!bot.core.interest_profile.interests.is_empty());
    assert!(bot.core.interest_profile.interests.iter().all(|(t, _)| *t < 8));
    let total: u64 = bot.core.interest_profile.interests.iter().map(|(_, t)| t.weighted_interest as u64).sum();
    assert_eq!(total, SCALE);
}

#[test]
fn organisation_holds_one_strong_topic() {
    let config = SimulationConfig::default();
    for id in 0..50 {
        let org = Organisation::new(id, &config);
        assert_eq!(org.get_type(), AgentType::Organisation);
        assert_eq!(org.core.interest_profile.interests.len(), 1);
        let (tag, topic) = org.core.interest_profile.interests[0];
        assert!(tag < 8);
        assert_eq!(topic.weighted_interest, 1_000_000);
        assert!(topic.agreement >= 700_000 || topic.agreement <= -700_000);
        assert!(topic.agreement.abs() <= 1_000_000);
    }
}

#[test]
fn organisation_posts_when_done() {
    let config = SimulationConfig::default();
    let mut org = Organisation::with_interest(9, 3, 800_000, 2);
    assert_eq!(org.core.interest_profile.interests, vec![(3, Topic { weighted_interest: 1_000_000, agreement: 800_000 })]);
    assert!(org.step(&config, 10, 5).is_none());
    let post = org.step(&config, 10, 5).unwrap();
    assert_eq!(post.creator_id, 9);
    assert!(matches!(org.state, AgentState::CreatingPost { ticks_spent: 0, ticks_required: 5, .. }));
}

#[test]
fn bots_fill_the_pool_over_ticks() {
    let mut sim = Simulation::new(SimulationConfig::default());
    let start = sim.last_tick;
    for k in 1..=5 {
        sim.tick_at(start + 100 * k);
    }
    assert!(sim.engine.content_pool.iter().any(|p| p.creator_id == 3));
    assert!(sim.engine.content_pool.iter().any(|p| p.creator_id == 4));
    // ids are handed out in order; comments take ids too
    for w in sim.engine.content_pool.windows(2) {
        assert!(w[0].id < w[1].id);
    }
}

#[test]
fn default_config_values() {
    let c = SimulationConfig::default();
    assert_eq!(c.num_individuals, 3);
    assert_eq!(c.max_post_length, 60);
    assert_eq!(c.sample_tags[0], "politics");
    assert_eq!(c.min_content_tags, 1);
    assert_eq!(c.max_content_tags, 3);
}

#[test]
fn progress_of_each_state() {
    assert_eq!(AgentState::Offline.progress(), SCALE);
    assert_eq!(AgentState::Scrolling { recommended_post_ids: vec![3] }.progress(), SCALE);
    let reading = AgentState::ReadingPost {
        post_id: 1,
        creator_id: 2,
        ticks_spent: 1,
        ticks_required: 4,
        potential_interest_gain: 0,
    };
    assert_eq!(reading.progress(), 250_000);
    assert_eq!(AgentState::CreatingPost { post_id: 0, ticks_spent: 2, ticks_required: 3 }.progress(), 666_666);
    assert_eq!(AgentState::CreatingComment { post_id: 0, comment_id: 0, ticks_spent: 0, ticks_required: 0 }.progress(), SCALE);
}

#[test]
fn normalising_an_empty_profile_resets_a_stale_total() {
    let mut p = InterestProfile::new(4);
    p.total_weight = 5;
    p.normalise_weights();
    assert_eq!(p.total_weight, 0);
    assert!(p.interests.is_empty());
    assert_eq!(p.vector_representation, vec![0, 0, 0, 0]);
}

#[test]
fn recency_counts_seconds() {
    assert_eq!(recency_after(59, 50_000), 999_181);
    assert_eq!(recency_after(30 * 60, 50_000), 975_309);
    let engine = RecommendationEngine::new();
    let viewer = profile(&[(0, 1)]);
    let aligned = post(1, 0, &[(0, 1)]);
    // 0.5 + e^-0.025 * 0.3
    assert_eq!(engine.calculate_content_score(&aligned, &viewer, 1_800), 792_592);
}

#[test]
fn reading_comments_of_a_picked_post() {
    let mut engine = RecommendationEngine::new();
    engine.create_post(post(1, 0, &[(0, 1)]));
    let mut c1 = Comment::new(30, 9, 0, profile(&[(0, 1)]), 8);
    c1.engagement_score = 1;
    let mut c2 = Comment::new(31, 9, 0, profile(&[(1, 1)]), 4);
    c2.engagement_score = 3;
    engine.add_comment_to_post(1, c1).unwrap();
    engine.add_comment_to_post(1, c2).unwrap();
    let config = SimulationConfig::default();
    let mut a = Individual::new(7, 100, 0, SCALE as u32, 250_000, SCALE as u32);
    a.core.interest_profile = profile(&[(0, 1)]);
    a.state = AgentState::Scrolling { recommended_post_ids: vec![1] };
    // a decision of 0.7 with no will to read posts picks reading comments
    a.step(&engine, &config, 0, TickDraws { decision: 700_000, attention: 0, selection: 0 });
    match &a.state {
        AgentState::ReadingComments {
            post_id,
            creator_id,
            current_comment_ids,
            current_comment_index,
            ticks_spent,
            ticks_required,
            potential_interest_gain,
        } => {
            assert_eq!(*post_id, 1);
            assert_eq!(*creator_id, 101);
            assert_eq!(current_comment_ids, &vec![31, 30]);
            assert_eq!(*current_comment_index, 0);
            assert_eq!(*ticks_spent, 0);
            assert_eq!(*ticks_required, 3);
            assert_eq!(*potential_interest_gain, 200_000);
        }
        other => panic!("unexpected state {:?}", other),
    }
}

#[test]
fn reading_comments_of_a_post_without_comments_falls_back() {
    let mut engine = RecommendationEngine::new();
    engine.create_post(post(1, 0, &[(0, 1)]));
    let config = SimulationConfig::default();
    let mut a = Individual::new(7, 100, 0, SCALE as u32, 0, SCALE as u32);
    a.core.interest_profile = profile(&[(0, 1)]);
    a.state = AgentState::Scrolling { recommended_post_ids: vec![1] };
    a.step(&engine, &config, 0, TickDraws { decision: 700_000, attention: 0, selection: 0 });
    match &a.state {
        AgentState::Scrolling { recommended_post_ids } => assert_eq!(recommended_post_ids, &vec![1]),
        other => panic!("unexpected state {:?}", other),
    }
    // a stale id falls back as well
    a.state = AgentState::Scrolling { recommended_post_ids: vec![42] };
    a.step(&engine, &config, 0, TickDraws { decision: 0, attention: 0, selection: 0 });
    assert!(matches!(a.state, AgentState::Scrolling { .. }));
}

#[test]
fn attention_lapse_leaves_reading_for_every_decision() {
    let mut engine = RecommendationEngine::new();
    engine.create_post(post(1, 0, &[(0, 1)]));
    let config = SimulationConfig::default();
    for decision in [0u64, 399_999, 500_000, 700_000, 999_999] {
        let mut a = reader(0);
        a.state = AgentState::ReadingPost {
            post_id: 1,
            creator_id: 101,
            ticks_spent: 0,
            ticks_required: 10,
            potential_interest_gain: 200_000,
        };
        a.step(&engine, &config, 0, TickDraws { decision, attention: 1, selection: 0 });
        assert!(!matches!(a.state, AgentState::ReadingPost { .. }));
    }
}

#[test]
fn organisation_posts_need_fewer_than_thirty_ticks() {
    let config = SimulationConfig::default();
    for id in 0..30 {
        let mut org = Organisation::new(id, &config);
        match org.state {
            AgentState::CreatingPost { ticks_required, ticks_spent, .. } => {
                assert!(ticks_required < 30);
                assert_eq!(ticks_spent, 0);
            }
            _ => panic!("expected writing"),
        }
        for _ in 0..31 {
            org.tick(&config);
            assert!(matches!(org.state, AgentState::CreatingPost { ticks_required, .. } if ticks_required < 30));
        }
    }
}

#[test]
fn ids_of_new_content_are_recorded_with_their_creators() {
    let mut config = SimulationConfig::default();
    config.num_individuals = 0;
    config.num_organisations = 0;
    config.num_bots = 2;
    config.bot_creation_ticks = 1;
    let mut sim = Simulation::new(config);
    let start = sim.last_tick;
    sim.tick_at(start + 100);
    assert_eq!(sim.engine.content_pool.len(), 2);
    assert_eq!(sim.bots[0].core.created_content, vec![0]);
    assert_eq!(sim.bots[1].core.created_content, vec![1]);
    assert_eq!(sim.engine.content_pool[0].creator_id, sim.bots[0].core.id);
    assert_eq!(sim.engine.content_pool[1].id, 1);
    assert_eq!(sim.engine.next_id, 2);
    sim.tick_at(start + 200);
    assert_eq!(sim.bots[0].core.created_content, vec![0, 2]);
    assert_eq!(sim.engine.content_pool.len(), 4);
}

#[test]
fn transitions_report_a_missing_post() {
    let mut engine = RecommendationEngine::new();
    engine.create_post(post(1, 0, &[(0, 1)]));
    let config = SimulationConfig::default();
    let a = reader(500_000);
    assert_eq!(a.comments_of_post(&engine, 9).err(), Some(TransitionError::PostNotFound { id: 9 }));
    assert_eq!(a.comments_of_post(&engine, 1).err(), Some(TransitionError::NoCommentsAvailable));
    assert_eq!(
        a.comment_on_post(&engine, &config, 9).err(),
        Some(TransitionError::PostNotFound { id: 9 })
    );
    match a.comment_on_post(&engine, &config, 1) {
        Ok(AgentState::CreatingComment { post_id, ticks_spent, ticks_required, .. }) => {
            assert_eq!(post_id, 1);
            assert_eq!(ticks_spent, 0);
            assert_eq!(ticks_required, 20);
        }
        other => panic!("unexpected {:?}", other),
    }
    engine.add_comment_to_post(1, Comment::new(5, 2, 0, profile(&[(0, 1)]), 6)).unwrap();
    assert!(matches!(
        a.comments_of_post(&engine, 1),
        Ok(AgentState::ReadingComments { post_id: 1, current_comment_index: 0, .. })
    ));
}

#[test]
fn tag_table_stays_one_to_one() {
    let tags = vec!["a".to_string(), "b".to_string(), "a".to_string(), "c".to_string()];
    let mut engine = RecommendationEngine::with_tags(&tags);
    assert_eq!(engine.index_to_tag, vec!["a".to_string(), "b".to_string(), "c".to_string()]);
    assert_eq!(engine.tag_index(&"c".to_string()), Some(2));
    assert_eq!(engine.tag_index(&"z".to_string()), None);
    assert_eq!(engine.add_tag("b".to_string()), 1);
    assert_eq!(engine.add_tag("d".to_string()), 3);
    assert_eq!(engine.index_to_tag.len(), 4);
}

#[test]
fn bot_topics_share_the_weight_equally() {
    let config = SimulationConfig::default();
    let bot = Bot::with_interests(1, &config, &vec![(0, 0), (1, 0), (2, 0)]);
    let w: Vec<u32> = bot.core.interest_profile.interests.iter().map(|(_, t)| t.weighted_interest).collect();
    assert_eq!(w, vec![333_333, 333_333, 333_334]);
}

#[test]
fn simulation_tick_keeps_agents() {
    let mut sim = Simulation::new(SimulationConfig::default());
    sim.tick();
    assert_eq!(sim.individuals.len(), 3);
    assert_eq!(sim.bots.len(), 2);
    assert_eq!(sim.organisations.len(), 2);
}
