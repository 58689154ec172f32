//! The recommendation engine: the content pool, scoring and ranking.
use vstd::prelude::*;
use crate::numeric::{min_int, similarity, vector_ok, vector_similarity, MAX_DIMENSION, SCALE};
use crate::interest::InterestProfile;
use crate::content::{Comment, Content, Post};
use crate::errors::TransitionError;

verus! {

/// Dimension of interest vectors in a new engine.
pub const DEFAULT_DIMENSION: usize = 100;

/// Interest gain of reading content with no similarity (0.2).
pub const BASE_INTEREST_GAIN: u64 = 200_000;

/// Weights of the three terms of a content score and the hourly recency
/// decay rate (recency is `e^-(rate * hours)`), all on the fixed-point scale. The weights need not sum to
/// `SCALE`: the score is clamped.
#[derive(Clone, Copy, Debug, PartialEq, Eq, Structural)]
pub struct RecommendationEngineConfig {
    pub interest_weight: u32,
    pub recency_weight: u32,
    pub engagement_weight: u32,
    pub recency_decay_rate: u32,
}

/// Owns the tag table and the content pool.
#[derive(Clone, Debug)]
pub struct RecommendationEngine {
    /// The tag at each index of the interest vectors.
    pub index_to_tag: Vec<String>,
    /// All posts, in the order they were added; the pool only grows.
    pub content_pool: Vec<Post>,
    pub vector_dimension: usize,
    pub config: RecommendationEngineConfig,
    /// The id that the next new content item gets.
    pub next_id: usize,
}

/// Fixed-point scale of the exponential's internals (10^-12).
pub const EXP_SCALE: u128 = 1_000_000_000_000;

/// e^-1 on `EXP_SCALE`, rounded down.
pub const EXP_NEG_ONE: u128 = 367_879_441_171;

/// Terms of the Taylor series of e^-x for `x = f / SCALE`, on `EXP_SCALE`:
/// each is the one before times `x / k`, rounded down.
pub open spec fn series_term(f: int, k: nat) -> int
    decreases k,
{
    if k == 0 {
        EXP_SCALE as int
    } else {
        (series_term(f, (k - 1) as nat) * f) / ((SCALE as int) * k)
    }
}

/// The alternating sum of the first `k + 1` terms.
pub open spec fn series_sum(f: int, k: nat) -> int
    decreases k,
{
    if k == 0 {
        EXP_SCALE as int
    } else if k % 2 == 1 {
        series_sum(f, (k - 1) as nat) - series_term(f, k)
    } else {
        series_sum(f, (k - 1) as nat) + series_term(f, k)
    }
}

/// e^-(f / SCALE) for `0 <= f < SCALE`, on `EXP_SCALE`: sixteen terms of the
/// series, kept within `[0, EXP_SCALE]`. The terms left out and the rounding
/// together come to less than 10^-11.
pub open spec fn exp_neg_fraction(f: int) -> int {
    let s = series_sum(f, 16);
    if s < 0 {
        0
    } else if s > EXP_SCALE {
        EXP_SCALE as int
    } else {
        s
    }
}

/// e^-n on `EXP_SCALE`, as the `n`-th power of `EXP_NEG_ONE`, each product
/// rounded down.
pub open spec fn exp_neg_whole(n: nat) -> int
    decreases n,
{
    if n == 0 {
        EXP_SCALE as int
    } else {
        (exp_neg_whole((n - 1) as nat) * EXP_NEG_ONE) / (EXP_SCALE as int)
    }
}

/// e^-(e / SCALE) on the fixed-point scale: the whole units of the exponent
/// by powers of e^-1, the rest by the series, rounded down. It is within
/// one unit of `SCALE * e^-(e / SCALE)`.
pub open spec fn exp_neg(e: nat) -> int {
    let w = exp_neg_whole(e / (SCALE as nat));
    let f = exp_neg_fraction((e % (SCALE as nat)) as int);
    ((w * f) / (EXP_SCALE as int)) / ((EXP_SCALE / (SCALE as u128)) as int)
}

/// Seconds from `timestamp` to `now`; zero for content from the future.
pub open spec fn seconds_since(timestamp: i64, now: i64) -> nat {
    if now > timestamp {
        (now - timestamp) as nat
    } else {
        0
    }
}

/// Recency after `seconds` at an hourly decay `rate` (on the fixed-point
/// scale): `SCALE * e^-(rate * hours)`, hours counted to the second.
pub open spec fn recency_at(seconds: nat, rate: nat) -> int {
    exp_neg((rate * seconds / 3600) as nat)
}

/// The score of a post for a viewer at time `now`, clamped to `[0, SCALE]`.
pub open spec fn score_of(cfg: RecommendationEngineConfig, post: Content, viewer: InterestProfile, now: i64) -> int {
    let alignment = similarity(
        viewer.vector_representation@,
        post.interest_profile.vector_representation@,
    );
    let rec = recency_at(seconds_since(post.timestamp, now), cfg.recency_decay_rate as nat);
    let eng = post.engagement_score * SCALE;
    min_int(
        SCALE as int,
        (alignment * cfg.interest_weight + rec * cfg.recency_weight + eng * cfg.engagement_weight)
            / (SCALE as int),
    )
}

/// Whether index `a` ranks before index `b`: a higher score, or an equal
/// score and an earlier position.
pub open spec fn ranks_before(scores: Seq<u64>, a: int, b: int) -> bool {
    scores[a] > scores[b] || (scores[a] == scores[b] && a <= b)
}

/// `r` lists the eligible indices in ranking order, as many as `count`
/// allows: each entry ranks before every eligible index not listed before it.
pub open spec fn is_top_ranking(scores: Seq<u64>, eligible: Seq<bool>, count: int, r: Seq<usize>) -> bool {
    &&& r.len() <= count
    &&& r.no_duplicates()
    &&& forall|k: int| 0 <= k < r.len() ==> #[trigger] r[k] < scores.len() && eligible[r[k] as int]
    &&& r.len() < count ==> forall|j: int|
        0 <= j < scores.len() && #[trigger] eligible[j] ==> r.contains(j as usize)
    &&& forall|k: int, j: int|
        0 <= k < r.len() && 0 <= j < scores.len() && eligible[j] && !#[trigger] r.take(k).contains(
            j as usize,
        ) ==> #[trigger] ranks_before(scores, r[k] as int, j)
}

/// No tag appears twice in the table.
pub open spec fn tags_distinct(t: Seq<String>) -> bool {
    forall|i: int, j: int| 0 <= i < j < t.len() ==> t[i]@ != t[j]@
}

pub open spec fn has_tag_name(t: Seq<String>, name: Seq<char>) -> bool {
    exists|k: int| 0 <= k < t.len() && t[k]@ == name
}

pub open spec fn has_id(pool: Seq<Content>, id: usize) -> bool {
    exists|i: int| 0 <= i < pool.len() && pool[i].id == id
}

/// `i` is the first position of a post with this id.
pub open spec fn is_first_with_id(pool: Seq<Content>, id: usize, i: int) -> bool {
    &&& 0 <= i < pool.len()
    &&& pool[i].id == id
    &&& forall|j: int| 0 <= j < i ==> pool[j].id != id
}

/// The first position of a post with this id (meaningful when there is one).
pub open spec fn first_index(pool: Seq<Content>, id: usize) -> int {
    choose|i: int| is_first_with_id(pool, id, i)
}

pub proof fn lemma_first_index(pool: Seq<Content>, id: usize, i: int)
    requires
        is_first_with_id(pool, id, i),
    ensures
        first_index(pool, id) == i,
{
    let c = first_index(pool, id);
    assert(is_first_with_id(pool, id, c));
    if c < i {
        assert(pool[c].id != id);
    } else if i < c {
        assert(pool[i].id != id);
    }
}

/// Which posts may be recommended: those whose ids were not viewed.
pub open spec fn unviewed(pool: Seq<Content>, viewed: Seq<usize>) -> Seq<bool> {
    Seq::new(pool.len(), |i: int| !viewed.contains(pool[i].id))
}

/// Which comments may be recommended: those whose ids were not seen.
pub open spec fn unseen(comments: Seq<Comment>, seen: Seq<usize>) -> Seq<bool> {
    Seq::new(comments.len(), |i: int| !seen.contains(comments[i].id))
}

pub open spec fn engagement_scores(comments: Seq<Comment>) -> Seq<u64> {
    Seq::new(comments.len(), |i: int| comments[i].engagement_score)
}

pub open spec fn ids_at(pool: Seq<Content>, idx: Seq<usize>) -> Seq<usize> {
    Seq::new(idx.len(), |k: int| pool[idx[k] as int].id)
}

pub open spec fn comment_ids_at(comments: Seq<Comment>, idx: Seq<usize>) -> Seq<usize> {
    Seq::new(idx.len(), |k: int| comments[idx[k] as int].id)
}

/// Whether `v` holds `x`.
pub fn contains_id(v: &Vec<usize>, x: usize) -> (r: bool)
    ensures
        r == v@.contains(x),
{
    let n = v.len();
    let mut i: usize = 0;
    while i < n
        invariant
            n == v@.len(),
            i <= n,
            forall|j: int| 0 <= j < i ==> v@[j] != x,
        decreases n - i,
    {
        if v[i] == x {
            assert(v@[i as int] == x);
            return true;
        }
        i = i + 1;
    }
    false
}

proof fn lemma_term_step(t: int, f: int, k: int)
    requires
        0 <= t <= EXP_SCALE,
        0 <= f < SCALE,
        k >= 1,
    ensures
        0 <= (t * f) / ((SCALE as int) * k) <= t,
{
    assert(0 <= t * f <= t * (SCALE as int) * k) by (nonlinear_arith)
        requires
            0 <= t,
            0 <= f < SCALE,
            k >= 1,
    ;
    assert((t * f) / ((SCALE as int) * k) <= t) by (nonlinear_arith)
        requires
            0 <= t * f <= t * (SCALE as int) * k,
            k >= 1,
    ;
    assert(0 <= (t * f) / ((SCALE as int) * k)) by (nonlinear_arith)
        requires
            0 <= t * f,
            k >= 1,
    ;
}

/// e^-(f / SCALE) on `EXP_SCALE`, for `f` below `SCALE`.
fn exp_neg_fraction_of(f: u128) -> (r: u128)
    requires
        f < SCALE,
    ensures
        r as int == exp_neg_fraction(f as int),
        r <= EXP_SCALE,
{
    let mut term: u128 = EXP_SCALE;
    let mut sum: i128 = EXP_SCALE as i128;
    let mut k: u128 = 1;
    while k <= 16
        invariant
            1 <= k <= 17,
            f < SCALE,
            term as int == series_term(f as int, (k - 1) as nat),
            term <= EXP_SCALE,
            sum as int == series_sum(f as int, (k - 1) as nat),
            -(k as int) * (EXP_SCALE as int) <= sum <= (k as int) * (EXP_SCALE as int),
        decreases 17 - k,
    {
        proof {
            lemma_term_step(term as int, f as int, k as int);
            assert(term * f <= EXP_SCALE * SCALE) by (nonlinear_arith)
                requires
                    term <= EXP_SCALE,
                    f < SCALE,
            ;
        }
        term = term * f / ((SCALE as u128) * k);
        if k % 2 == 1 {
            sum = sum - term as i128;
        } else {
            sum = sum + term as i128;
        }
        k = k + 1;
    }
    if sum < 0 {
        0
    } else if sum > EXP_SCALE as i128 {
        EXP_SCALE
    } else {
        sum as u128
    }
}

proof fn lemma_whole_stays_zero(h: nat, k: nat)
    requires
        h <= k,
        exp_neg_whole(h) == 0,
    ensures
        exp_neg_whole(k) == 0,
    decreases k,
{
    if h < k {
        lemma_whole_stays_zero(h, (k - 1) as nat);
    }
}

/// e^-n on `EXP_SCALE`; the powers stop once they reach zero.
fn exp_neg_whole_of(n: u128) -> (r: u128)
    ensures
        r as int == exp_neg_whole(n as nat),
        r <= EXP_SCALE,
{
    let mut w: u128 = EXP_SCALE;
    let mut i: u128 = 0;
    while i < n && w > 0
        invariant
            i <= n,
            w as int == exp_neg_whole(i as nat),
            w <= EXP_SCALE,
        decreases n - i,
    {
        proof {
            assert(w * EXP_NEG_ONE <= EXP_SCALE * EXP_NEG_ONE) by (nonlinear_arith)
                requires
                    w <= EXP_SCALE,
            ;
            assert((w * EXP_NEG_ONE) / (EXP_SCALE as int) <= w) by (nonlinear_arith)
                requires
                    w >= 0,
            ;
        }
        w = w * EXP_NEG_ONE / EXP_SCALE;
        i = i + 1;
    }
    proof {
        if i < n {
            lemma_whole_stays_zero(i as nat, n as nat);
        }
    }
    w
}

/// Recency after `seconds` at an hourly decay `rate`:
/// `SCALE * e^-(rate * hours)`.
pub fn recency_after(seconds: u64, rate: u32) -> (r: u64)
    ensures
        r as int == recency_at(seconds as nat, rate as nat),
        r <= SCALE,
{
    proof {
        assert(rate * seconds <= 0xFFFF_FFFF * 0xFFFF_FFFF_FFFF_FFFF) by (nonlinear_arith);
    }
    let e: u128 = (rate as u128) * (seconds as u128) / 3600;
    let w = exp_neg_whole_of(e / (SCALE as u128));
    let f = exp_neg_fraction_of(e % (SCALE as u128));
    proof {
        assert(w * f <= EXP_SCALE * EXP_SCALE) by (nonlinear_arith)
            requires
                w <= EXP_SCALE,
                f <= EXP_SCALE,
        ;
        assert((w * f) / (EXP_SCALE as int) <= EXP_SCALE) by (nonlinear_arith)
            requires
                0 <= w * f <= EXP_SCALE * EXP_SCALE,
        ;
        let q = (w * f) / (EXP_SCALE as int);
        assert(q / 1_000_000 <= SCALE) by (nonlinear_arith)
            requires
                0 <= q <= EXP_SCALE,
        ;
    }
    let q: u128 = w * f / EXP_SCALE;
    (q / (EXP_SCALE / (SCALE as u128))) as u64
}

/// Ranks the eligible indices by score, highest first and earlier first
/// among equal scores, and returns at most `count` of them.
#[verifier::loop_isolation(false)]
pub fn rank_top(scores: &Vec<u64>, eligible: &Vec<bool>, count: usize) -> (r: Vec<usize>)
    requires
        scores@.len() == eligible@.len(),
    ensures
        is_top_ranking(scores@, eligible@, count as int, r@),
{
    let n = scores.len();
    let mut taken: Vec<bool> = Vec::new();
    let mut i: usize = 0;
    while i < n
        invariant
            i <= n,
            taken@.len() == i,
            forall|j: int| 0 <= j < i ==> !taken@[j],
        decreases n - i,
    {
        taken.push(false);
        i = i + 1;
    }
    let mut out: Vec<usize> = Vec::new();
    let mut done = false;
    while out.len() < count && !done
        invariant
            n == scores@.len(),
            n == eligible@.len(),
            taken@.len() == n,
            out@.len() <= count,
            out@.no_duplicates(),
            forall|j: int| 0 <= j < n ==> (#[trigger] taken@[j] <==> out@.contains(j as usize)),
            forall|k: int| 0 <= k < out@.len() ==> #[trigger] out@[k] < n && eligible@[out@[k] as int],
            forall|k: int, j: int|
                0 <= k < out@.len() && 0 <= j < n && eligible@[j] && !#[trigger] out@.take(
                    k,
                ).contains(j as usize) ==> #[trigger] ranks_before(scores@, out@[k] as int, j),
            done ==> forall|j: int| 0 <= j < n && #[trigger] eligible@[j] ==> taken@[j],
        decreases count - out@.len() + (if done { 0int } else { 1int }),
    {
        let mut best: usize = n;
        let mut j: usize = 0;
        while j < n
            invariant
                n == scores@.len(),
                n == eligible@.len(),
                taken@.len() == n,
                j <= n,
                best == n || (best < j && eligible@[best as int] && !taken@[best as int]),
                best == n ==> forall|i: int| 0 <= i < j ==> !(#[trigger] eligible@[i] && !taken@[i]),
                best < n ==> forall|i: int|
                    0 <= i < j && #[trigger] eligible@[i] && !taken@[i] ==> ranks_before(
                        scores@,
                        best as int,
                        i,
                    ),
            decreases n - j,
        {
            if eligible[j] && !taken[j] && (best == n || scores[j] > scores[best]) {
                best = j;
            }
            j = j + 1;
        }
        if best == n {
            done = true;
        } else {
            let ghost prev = out@;
            let ghost old_taken = taken@;
            assert(!prev.contains(best));
            out.push(best);
            taken.set(best, true);
            proof {
                assert(out@.take(prev.len() as int) =~= prev);
                assert forall|k: int| 0 <= k < prev.len() implies #[trigger] out@.take(k) == prev.take(
                    k,
                ) by {
                    assert(out@.take(k) =~= prev.take(k));
                }
                assert forall|j: int| 0 <= j < n implies (#[trigger] taken@[j] <==> out@.contains(
                    j as usize,
                )) by {
                    if out@.contains(j as usize) && j != best {
                        let k = choose|k: int| 0 <= k < out@.len() && out@[k] == j as usize;
                        assert(prev[k] == j as usize);
                    }
                    if j != best && prev.contains(j as usize) {
                        let k = choose|k: int| 0 <= k < prev.len() && prev[k] == j as usize;
                        assert(out@[k] == j as usize);
                    }
                    if j == best {
                        assert(out@[prev.len() as int] == best);
                    }
                }
                assert forall|k: int| 0 <= k < out@.len() implies #[trigger] out@[k] < n && eligible@[out@[k] as int] by {
                    if k < prev.len() {
                        assert(out@[k] == prev[k]);
                    } else {
                        assert(out@[k] == best);

                    }
                }
                assert forall|a: int, b: int| 0 <= a < b < out@.len() implies out@[a] != out@[b] by {
                    if b == prev.len() {
                        assert(prev.contains(out@[a]));
                    }
                }
                assert forall|k: int, j: int|
                    0 <= k < out@.len() && 0 <= j < n && eligible@[j] && !#[trigger] out@.take(
                        k,
                    ).contains(j as usize) implies #[trigger] ranks_before(
                    scores@,
                    out@[k] as int,
                    j,
                ) by {
                    if k == prev.len() {
                        assert(out@.take(k) == prev);
                        assert(!old_taken[j]);
                    } else {
                        assert(out@.take(k) == prev.take(k));
                    }
                }
            }
        }
    }
    proof {
        assert forall|j: int| 0 <= j < n && #[trigger] eligible@[j] && out@.len() < count implies out@.contains(
            j as usize,
        ) by {
            assert(taken@[j]);
        }
    }
    out
}

impl RecommendationEngine {
    pub open spec fn wf(&self) -> bool {
        &&& self.vector_dimension <= MAX_DIMENSION
        &&& tags_distinct(self.index_to_tag@)
        &&& forall|i: int| 0 <= i < self.content_pool@.len() ==> #[trigger] post_wf(self.content_pool@[i])
    }

    /// The score of every post for a viewer at time `now`, by position.
    pub open spec fn post_scores(&self, viewer: InterestProfile, now: i64) -> Seq<u64> {
        Seq::new(
            self.content_pool@.len(),
            |i: int| score_of(self.config, self.content_pool@[i], viewer, now) as u64,
        )
    }

    /// An engine with no tags and no content, vectors of dimension 100,
    /// and weights 0.5 (interest), 0.3 (recency) and 0.2 (engagement) with
    /// a 5% hourly decay.
    pub fn new() -> (r: Self)
        ensures
            r.wf(),
            r.index_to_tag@.len() == 0,
            r.content_pool@.len() == 0,
            r.vector_dimension == DEFAULT_DIMENSION,
            r.config == (RecommendationEngineConfig {
                interest_weight: 500_000,
                recency_weight: 300_000,
                engagement_weight: 200_000,
                recency_decay_rate: 50_000,
            }),
            r.next_id == 0,
    {
        RecommendationEngine {
            index_to_tag: Vec::new(),
            content_pool: Vec::new(),
            vector_dimension: DEFAULT_DIMENSION,
            config: RecommendationEngineConfig {
                interest_weight: 500_000,
                recency_weight: 300_000,
                engagement_weight: 200_000,
                recency_decay_rate: 50_000,
            },
            next_id: 0,
        }
    }

    /// The vector index of a tag, if the table has it.
    pub fn tag_index(&self, tag: &String) -> (r: Option<usize>)
        ensures
            r.is_none() <==> !has_tag_name(self.index_to_tag@, tag@),
            r.is_some() ==> r.unwrap() < self.index_to_tag@.len() && self.index_to_tag@[r.unwrap() as int]@
                == tag@,
    {
        let n = self.index_to_tag.len();
        let mut i: usize = 0;
        while i < n
            invariant
                n == self.index_to_tag@.len(),
                i <= n,
                forall|j: int| 0 <= j < i ==> self.index_to_tag@[j]@ != tag@,
            decreases n - i,
        {
            if self.index_to_tag[i].eq(tag) {
                return Some(i);
            }
            i = i + 1;
        }
        None
    }

    /// Adds a tag at the next free vector index and returns that index; a
    /// tag the table already has keeps its index, so the table stays a
    /// one-to-one map between tags and indices.
    pub fn add_tag(&mut self, tag: String) -> (r: usize)
        ensures
            has_tag_name(old(self).index_to_tag@, tag@) ==> final(self).index_to_tag
                == old(self).index_to_tag && old(self).index_to_tag@[r as int]@ == tag@,
            !has_tag_name(old(self).index_to_tag@, tag@) ==> r == old(self).index_to_tag@.len()
                && final(self).index_to_tag@ == old(self).index_to_tag@.push(tag),
            tags_distinct(old(self).index_to_tag@) ==> tags_distinct(final(self).index_to_tag@),
            r < final(self).index_to_tag@.len(),
            final(self).content_pool == old(self).content_pool,
            final(self).vector_dimension == old(self).vector_dimension,
            final(self).config == old(self).config,
            final(self).next_id == old(self).next_id,
    {
        match self.tag_index(&tag) {
            Some(i) => i,
            None => {
                let r = self.index_to_tag.len();
                self.index_to_tag.push(tag);
                r
            },
        }
    }

    /// An engine as `new` makes it, with the given tags at indices from
    /// zero in order (a repeated tag keeps its first index).
    pub fn with_tags(tag_vocabulary: &Vec<String>) -> (r: Self)
        ensures
            r.wf(),
            r.content_pool@.len() == 0,
            r.next_id == 0,
            r.vector_dimension == DEFAULT_DIMENSION,
            r.index_to_tag@.len() <= tag_vocabulary@.len(),
            forall|i: int| 0 <= i < tag_vocabulary@.len() ==> has_tag_name(r.index_to_tag@, #[trigger] tag_vocabulary@[i]@),
            forall|i: int| 0 <= i < r.index_to_tag@.len() ==> has_tag_name(tag_vocabulary@, #[trigger] r.index_to_tag@[i]@),
            tags_distinct(tag_vocabulary@) ==> r.index_to_tag@ == tag_vocabulary@,
    {
        let mut engine = RecommendationEngine::new();
        let n = tag_vocabulary.len();
        let mut i: usize = 0;
        while i < n
            invariant
                engine.wf(),
                n == tag_vocabulary@.len(),
                i <= n,
                engine.content_pool@.len() == 0,
                engine.next_id == 0,
                engine.vector_dimension == DEFAULT_DIMENSION,
                engine.index_to_tag@.len() <= i,
                forall|j: int| 0 <= j < i ==> has_tag_name(engine.index_to_tag@, #[trigger] tag_vocabulary@[j]@),
                forall|j: int| 0 <= j < engine.index_to_tag@.len() ==> has_tag_name(
                    tag_vocabulary@.take(i as int),
                    #[trigger] engine.index_to_tag@[j]@,
                ),
                tags_distinct(tag_vocabulary@) ==> engine.index_to_tag@ == tag_vocabulary@.take(i as int),
            decreases n - i,
        {
            let ghost prev = engine.index_to_tag@;
            let t = tag_vocabulary[i].clone();
            engine.add_tag(t);
            proof {
                let cur = engine.index_to_tag@;
                let v = tag_vocabulary@;
                assert(v.take(i as int + 1).drop_last() =~= v.take(i as int));
                assert forall|j: int| 0 <= j <= i implies has_tag_name(cur, #[trigger] v[j]@) by {
                    if j < i {
                        let k = choose|k: int| 0 <= k < prev.len() && prev[k]@ == v[j]@;
                        assert(cur[k] == prev[k]);
                    } else if !has_tag_name(prev, v[j]@) {
                        assert(cur[prev.len() as int] == v[j]);
                    }
                }
                assert forall|j: int| 0 <= j < cur.len() implies has_tag_name(
                    v.take(i as int + 1),
                    #[trigger] cur[j]@,
                ) by {
                    if j < prev.len() {
                        assert(cur[j] == prev[j]);
                        assert(has_tag_name(v.take(i as int), prev[j]@));
                        let k = choose|k: int| 0 <= k < v.take(i as int).len() && v.take(i as int)[k]@ == prev[j]@;
                        assert(v.take(i as int + 1)[k] == v.take(i as int)[k]);
                    } else {
                        assert(cur[j] == v[i as int]);
                        assert(v.take(i as int + 1)[i as int] == v[i as int]);
                    }
                }
                if tags_distinct(v) {
                    if has_tag_name(prev, v[i as int]@) {
                        let k = choose|k: int| 0 <= k < prev.len() && prev[k]@ == v[i as int]@;
                        assert(prev[k] == v[k]);
                        assert(false);
                    }
                    assert(cur =~= v.take(i as int + 1));
                }
            }
            i = i + 1;
        }
        assert(tag_vocabulary@.take(n as int) =~= tag_vocabulary@);
        engine
    }

    /// Hands out a fresh content id: ids count up from zero.
    pub fn next_content_id(&mut self) -> (r: usize)
        requires
            old(self).next_id < usize::MAX,
        ensures
            r == old(self).next_id,
            final(self).next_id == old(self).next_id + 1,
            final(self).index_to_tag == old(self).index_to_tag,
            final(self).content_pool == old(self).content_pool,
            final(self).vector_dimension == old(self).vector_dimension,
            final(self).config == old(self).config,
    {
        let r = self.next_id;
        self.next_id = self.next_id + 1;
        r
    }

    /// The position of the first post with this id.
    pub fn find_post_index(&self, content_id: usize) -> (r: Option<usize>)
        ensures
            r.is_none() <==> !has_id(self.content_pool@, content_id),
            r.is_some() ==> is_first_with_id(self.content_pool@, content_id, r.unwrap() as int),
            r.is_some() ==> r.unwrap() as int == first_index(self.content_pool@, content_id),
    {
        let n = self.content_pool.len();
        let mut i: usize = 0;
        while i < n
            invariant
                n == self.content_pool@.len(),
                i <= n,
                forall|j: int| 0 <= j < i ==> self.content_pool@[j].id != content_id,
            decreases n - i,
        {
            if self.content_pool[i].id == content_id {
                proof {
                    lemma_first_index(self.content_pool@, content_id, i as int);
                }
                return Some(i);
            }
            i = i + 1;
        }
        None
    }

    /// The first post with this id, if any.
    pub fn get_content_by_id(&self, content_id: usize) -> (r: Option<&Post>)
        ensures
            r.is_none() <==> !has_id(self.content_pool@, content_id),
            r.is_some() ==> exists|i: int|
                is_first_with_id(self.content_pool@, content_id, i) && *r.unwrap()
                    == self.content_pool@[i],
    {
        match self.find_post_index(content_id) {
            Some(i) => Some(&self.content_pool[i]),
            None => None,
        }
    }

    /// The comments of the first post with this id, if any.
    pub fn get_comments_by_post_id(&self, content_id: usize) -> (r: Option<&Vec<Comment>>)
        ensures
            r.is_none() <==> !has_id(self.content_pool@, content_id),
            r.is_some() ==> exists|i: int|
                is_first_with_id(self.content_pool@, content_id, i) && *r.unwrap()
                    == self.content_pool@[i].comments,
    {
        match self.find_post_index(content_id) {
            Some(i) => Some(&self.content_pool[i].comments),
            None => None,
        }
    }

    /// Clamped cosine similarity of two interest vectors.
    pub fn calculate_vector_similarity(&self, vec1: &Vec<u32>, vec2: &Vec<u32>) -> (r: u64)
        requires
            vector_ok(vec1@),
            vector_ok(vec2@),
        ensures
            r as int == similarity(vec1@, vec2@),
            r <= SCALE,
    {
        vector_similarity(vec1, vec2)
    }

    /// The score of a post for a viewer at time `current_time`: interest
    /// alignment, recency and engagement weighted by the configuration,
    /// clamped to `[0, SCALE]`.
    pub fn calculate_content_score(
        &self,
        post: &Post,
        agent_interest_profile: &InterestProfile,
        current_time: i64,
    ) -> (r: u64)
        requires
            vector_ok(agent_interest_profile.vector_representation@),
            vector_ok(post.interest_profile.vector_representation@),
        ensures
            r as int == score_of(self.config, *post, *agent_interest_profile, current_time),
            r <= SCALE,
    {
        let alignment = vector_similarity(
            &agent_interest_profile.vector_representation,
            &post.interest_profile.vector_representation,
        );
        let seconds: u64 = if current_time > post.timestamp {
            (current_time as i128 - post.timestamp as i128) as u64
        } else {
            0
        };
        let rec = recency_after(seconds, self.config.recency_decay_rate);
        let eng: u128 = post.engagement_score as u128 * SCALE as u128;
        proof {
            assert(alignment * self.config.interest_weight <= SCALE * 0xFFFF_FFFF) by (nonlinear_arith)
                requires
                    alignment <= SCALE,
            ;
            assert(rec * self.config.recency_weight <= SCALE * 0xFFFF_FFFF) by (nonlinear_arith)
                requires
                    rec <= SCALE,
            ;
            assert(eng * self.config.engagement_weight <= 0xFFFF_FFFF_FFFF_FFFF * SCALE * 0xFFFF_FFFF)
                by (nonlinear_arith)
                requires
                    eng == post.engagement_score * SCALE,
                    post.engagement_score <= 0xFFFF_FFFF_FFFF_FFFF,
            ;
        }
        let total: u128 = (alignment as u128) * (self.config.interest_weight as u128) + (rec as u128)
            * (self.config.recency_weight as u128) + eng * (self.config.engagement_weight as u128);
        let q: u128 = total / (SCALE as u128);
        if q > SCALE as u128 {
            SCALE
        } else {
            q as u64
        }
    }

    /// The ids of up to `count` posts not in `viewed_posts`, best score
    /// first; equal scores keep pool order.
    pub fn get_post_recommendations(
        &self,
        interest_profile: &InterestProfile,
        viewed_posts: &Vec<usize>,
        count: usize,
        current_time: i64,
    ) -> (r: Vec<usize>)
        requires
            self.wf(),
            vector_ok(interest_profile.vector_representation@),
        ensures
            exists|idx: Seq<usize>|
                is_top_ranking(
                    self.post_scores(*interest_profile, current_time),
                    unviewed(self.content_pool@, viewed_posts@),
                    count as int,
                    idx,
                ) && r@ == ids_at(self.content_pool@, idx),
            r@.len() <= count,
            forall|k: int| 0 <= k < r@.len() ==> !viewed_posts@.contains(#[trigger] r@[k]),
            forall|k: int| 0 <= k < r@.len() ==> has_id(self.content_pool@, #[trigger] r@[k]),
    {
        let n = self.content_pool.len();
        let mut scores: Vec<u64> = Vec::new();
        let mut eligible: Vec<bool> = Vec::new();
        let mut i: usize = 0;
        while i < n
            invariant
                self.wf(),
                vector_ok(interest_profile.vector_representation@),
                n == self.content_pool@.len(),
                i <= n,
                scores@ == self.post_scores(*interest_profile, current_time).take(i as int),
                eligible@ == unviewed(self.content_pool@, viewed_posts@).take(i as int),
            decreases n - i,
        {
            let post = &self.content_pool[i];
            assert(post_wf(self.content_pool@[i as int]));
            let s = self.calculate_content_score(post, interest_profile, current_time);
            scores.push(s);
            eligible.push(!contains_id(viewed_posts, post.id));
            i = i + 1;
            assert(scores@ =~= self.post_scores(*interest_profile, current_time).take(i as int));
            assert(eligible@ =~= unviewed(self.content_pool@, viewed_posts@).take(i as int));
        }
        assert(scores@ =~= self.post_scores(*interest_profile, current_time));
        assert(eligible@ =~= unviewed(self.content_pool@, viewed_posts@));
        let idx = rank_top(&scores, &eligible, count);
        let mut out: Vec<usize> = Vec::new();
        let mut k: usize = 0;
        while k < idx.len()
            invariant
                n == self.content_pool@.len(),
                is_top_ranking(scores@, eligible@, count as int, idx@),
                scores@.len() == n,
                eligible@ == unviewed(self.content_pool@, viewed_posts@),
                k <= idx@.len(),
                out@ == ids_at(self.content_pool@, idx@.take(k as int)),
            decreases idx@.len() - k,
        {
            assert(eligible@[idx@[k as int] as int]);
            out.push(self.content_pool[idx[k]].id);
            k = k + 1;
            assert(out@ =~= ids_at(self.content_pool@, idx@.take(k as int)));
        }
        assert(idx@.take(k as int) =~= idx@);
        proof {
            assert forall|k: int| 0 <= k < out@.len() implies !viewed_posts@.contains(
                #[trigger] out@[k],
            ) && has_id(self.content_pool@, out@[k]) by {
                assert(eligible@[idx@[k] as int]);
                assert(0 <= idx@[k] < n);
            }
        }
        out
    }

    /// The ids of up to `count` comments of the first post with this id
    /// that are not in `current_comment_ids`, most engaged first; equal
    /// engagement keeps the order of the comments. `None` if the post is
    /// not in the pool.
    pub fn get_comment_recommendations(
        &self,
        post_id: usize,
        current_comment_ids: &Vec<usize>,
        count: usize,
    ) -> (r: Option<Vec<usize>>)
        ensures
            r.is_none() <==> !has_id(self.content_pool@, post_id),
            r.is_some() ==> exists|i: int, idx: Seq<usize>|
                is_first_with_id(self.content_pool@, post_id, i) && is_top_ranking(
                    engagement_scores(self.content_pool@[i].comments@),
                    unseen(self.content_pool@[i].comments@, current_comment_ids@),
                    count as int,
                    idx,
                ) && r.unwrap()@ == comment_ids_at(self.content_pool@[i].comments@, idx),
            r.is_some() ==> r.unwrap()@.len() <= count,
            r.is_some() ==> forall|k: int|
                0 <= k < r.unwrap()@.len() ==> !current_comment_ids@.contains(
                    #[trigger] r.unwrap()@[k],
                ),
    {
        let pi = match self.find_post_index(post_id) {
            Some(i) => i,
            None => {
                return None;
            },
        };
        let comments = &self.content_pool[pi].comments;
        let n = comments.len();
        let mut scores: Vec<u64> = Vec::new();
        let mut eligible: Vec<bool> = Vec::new();
        let mut i: usize = 0;
        while i < n
            invariant
                n == comments@.len(),
                i <= n,
                scores@ == engagement_scores(comments@).take(i as int),
                eligible@ == unseen(comments@, current_comment_ids@).take(i as int),
            decreases n - i,
        {
            scores.push(comments[i].engagement_score);
            eligible.push(!contains_id(current_comment_ids, comments[i].id));
            i = i + 1;
            assert(scores@ =~= engagement_scores(comments@).take(i as int));
            assert(eligible@ =~= unseen(comments@, current_comment_ids@).take(i as int));
        }
        assert(scores@ =~= engagement_scores(comments@));
        assert(eligible@ =~= unseen(comments@, current_comment_ids@));
        let idx = rank_top(&scores, &eligible, count);
        let mut out: Vec<usize> = Vec::new();
        let mut k: usize = 0;
        while k < idx.len()
            invariant
                n == comments@.len(),
                is_top_ranking(scores@, eligible@, count as int, idx@),
                scores@.len() == n,
                eligible@ == unseen(comments@, current_comment_ids@),
                k <= idx@.len(),
                out@ == comment_ids_at(comments@, idx@.take(k as int)),
            decreases idx@.len() - k,
        {
            assert(eligible@[idx@[k as int] as int]);
            out.push(comments[idx[k]].id);
            k = k + 1;
            assert(out@ =~= comment_ids_at(comments@, idx@.take(k as int)));
        }
        assert(idx@.take(k as int) =~= idx@);
        proof {
            assert forall|k: int| 0 <= k < out@.len() implies !current_comment_ids@.contains(
                #[trigger] out@[k],
            ) by {
                assert(eligible@[idx@[k] as int]);
            }
        }
        Some(out)
    }

    /// Raises the engagement of the first post with this id by one unit;
    /// fails with `PostNotFound` if there is none.
    pub fn increase_engagement_score(&mut self, content_id: usize) -> (r: Result<(), TransitionError>)
        ensures
            r.is_err() <==> !has_id(old(self).content_pool@, content_id),
            r.is_err() ==> r == Err::<(), TransitionError>(TransitionError::PostNotFound { id: content_id })
                && *final(self) == *old(self),
            r.is_ok() ==> exists|i: int|
                is_first_with_id(old(self).content_pool@, content_id, i) && engagement_bumped(
                    old(self).content_pool@,
                    final(self).content_pool@,
                    i,
                ),
            final(self).index_to_tag == old(self).index_to_tag,
            final(self).config == old(self).config,
            final(self).vector_dimension == old(self).vector_dimension,
            final(self).next_id == old(self).next_id,
    {
        match self.find_post_index(content_id) {
            Some(i) => {
                self.content_pool[i].increase_engagement();
                Ok(())
            },
            None => Err(TransitionError::PostNotFound { id: content_id }),
        }
    }

    /// Attaches a comment to the first post with this id; fails with
    /// `PostNotFound` if there is none.
    pub fn add_comment_to_post(&mut self, post_id: usize, comment: Comment) -> (r: Result<(), TransitionError>)
        ensures
            r.is_err() <==> !has_id(old(self).content_pool@, post_id),
            r.is_err() ==> r == Err::<(), TransitionError>(TransitionError::PostNotFound { id: post_id })
                && *final(self) == *old(self),
            r.is_ok() ==> exists|i: int|
                is_first_with_id(old(self).content_pool@, post_id, i) && comment_added(
                    old(self).content_pool@,
                    final(self).content_pool@,
                    i,
                    comment,
                ),
            final(self).index_to_tag == old(self).index_to_tag,
            final(self).config == old(self).config,
            final(self).vector_dimension == old(self).vector_dimension,
            final(self).next_id == old(self).next_id,
    {
        match self.find_post_index(post_id) {
            Some(i) => {
                self.content_pool[i].comments.push(comment);
                Ok(())
            },
            None => Err(TransitionError::PostNotFound { id: post_id }),
        }
    }

    /// Appends a post to the pool.
    pub fn create_post(&mut self, post: Post)
        ensures
            final(self).content_pool@ == old(self).content_pool@.push(post),
            final(self).index_to_tag == old(self).index_to_tag,
            final(self).config == old(self).config,
            final(self).vector_dimension == old(self).vector_dimension,
            final(self).next_id == old(self).next_id,
    {
        self.content_pool.push(post);
    }

    /// Ticks needed to read content of this length at this reading speed
    /// (on the fixed-point scale, `SCALE` reading instantly).
    pub fn calculate_required_ticks(length: u32, read_speed: u32) -> (r: u32)
        requires
            read_speed <= SCALE,
        ensures
            r as int == required_ticks(length, read_speed),
    {
        proof {
            assert(length * (SCALE - read_speed) <= 0xFFFF_FFFF * SCALE) by (nonlinear_arith)
                requires
                    read_speed <= SCALE,
            ;
            assert((length * (SCALE - read_speed)) / (SCALE as int) <= length) by (nonlinear_arith)
                requires
                    read_speed <= SCALE,
            ;
        }
        ((length as u64) * (SCALE - read_speed as u64) / SCALE) as u32
    }

    /// Interest a reader may gain from content: `BASE_INTEREST_GAIN` times
    /// one plus the similarity of the two profiles (zero when the reader has
    /// no interests yet).
    pub fn calculate_interest_gain(
        &self,
        agent_interest_profile: &InterestProfile,
        content_interest_profile: &InterestProfile,
    ) -> (r: u64)
        requires
            vector_ok(agent_interest_profile.vector_representation@),
            vector_ok(content_interest_profile.vector_representation@),
        ensures
            r as int == interest_gain(*agent_interest_profile, *content_interest_profile),
            BASE_INTEREST_GAIN <= r <= 2 * BASE_INTEREST_GAIN,
    {
        let sim: u64 = if agent_interest_profile.interests.len() == 0 {
            0
        } else {
            vector_similarity(
                &agent_interest_profile.vector_representation,
                &content_interest_profile.vector_representation,
            )
        };
        proof {
            assert(BASE_INTEREST_GAIN * (SCALE + sim) / (SCALE as int) >= BASE_INTEREST_GAIN) by (nonlinear_arith)
                requires
                    sim >= 0,
            ;
            assert(BASE_INTEREST_GAIN * (SCALE + sim) / (SCALE as int) <= 2 * BASE_INTEREST_GAIN) by (nonlinear_arith)
                requires
                    sim <= SCALE,
            ;
        }
        BASE_INTEREST_GAIN * (SCALE + sim) / SCALE
    }
}

pub open spec fn required_ticks(length: u32, read_speed: u32) -> int {
    (length * (SCALE - read_speed)) / (SCALE as int)
}

pub open spec fn interest_gain(agent: InterestProfile, content: InterestProfile) -> int {
    let sim = if agent.interests@.len() == 0 {
        0
    } else {
        similarity(agent.vector_representation@, content.vector_representation@)
    };
    (BASE_INTEREST_GAIN * (SCALE + sim)) / (SCALE as int)
}

/// Every profile in a post, its own and its comments', has a vector that
/// fits the engine's arithmetic.
pub open spec fn post_wf(p: Content) -> bool {
    &&& vector_ok(p.interest_profile.vector_representation@)
    &&& forall|j: int|
        0 <= j < p.comments@.len() ==> vector_ok((#[trigger] p.comments@[j]).interest_profile.vector_representation@)
}

/// `after` is `before` with the engagement of post `i` raised by one unit
/// (saturating) and nothing else changed.
pub open spec fn engagement_bumped(before: Seq<Content>, after: Seq<Content>, i: int) -> bool {
    &&& after.len() == before.len()
    &&& forall|j: int| 0 <= j < before.len() && j != i ==> after[j] == before[j]
    &&& after[i].engagement_score == (if before[i].engagement_score == u64::MAX {
        u64::MAX
    } else {
        (before[i].engagement_score + 1) as u64
    })
    &&& after[i].id == before[i].id
    &&& after[i].creator_id == before[i].creator_id
    &&& after[i].timestamp == before[i].timestamp
    &&& after[i].interest_profile == before[i].interest_profile
    &&& after[i].length == before[i].length
    &&& after[i].readers == before[i].readers
    &&& after[i].comments == before[i].comments
}

/// `after` is `before` with `comment` appended to the comments of post `i`
/// and nothing else changed.
pub open spec fn comment_added(before: Seq<Content>, after: Seq<Content>, i: int, comment: Comment) -> bool {
    &&& after.len() == before.len()
    &&& forall|j: int| 0 <= j < before.len() && j != i ==> after[j] == before[j]
    &&& after[i].comments@ == before[i].comments@.push(comment)
    &&& after[i].engagement_score == before[i].engagement_score
    &&& after[i].id == before[i].id
    &&& after[i].creator_id == before[i].creator_id
    &&& after[i].timestamp == before[i].timestamp
    &&& after[i].interest_profile == before[i].interest_profile
    &&& after[i].length == before[i].length
    &&& after[i].readers == before[i].readers
}

} // verus!
