//! Interest profiles: weighted topics keyed by tag index, with a dense
//! vector of the weights.
use vstd::prelude::*;
use vstd::arithmetic::div_mod::{
    lemma_div_is_ordered, lemma_div_multiples_vanish, lemma_div_pos_is_pos, lemma_fundamental_div_mod,
    lemma_fundamental_div_mod_converse, lemma_mod_pos_bound,
};
use crate::numeric::{MAX_DIMENSION, SCALE, vector_ok};
use crate::chance::random_below;

verus! {

/// A topic of interest. `weighted_interest` is on the fixed-point scale and
/// is meaningful relative to the other topics of its profile; `agreement`
/// runs from `-SCALE` to `SCALE` and is never normalised.
#[derive(Clone, Copy, Debug, PartialEq, Eq, Structural)]
pub struct Topic {
    pub weighted_interest: u32,
    pub agreement: i32,
}

/// A profile: topics keyed by tag index (each tag at most once), the total
/// of their weights, and the weights laid out by tag index in a vector.
#[derive(Clone, Debug)]
pub struct InterestProfile {
    pub interests: Vec<(usize, Topic)>,
    pub total_weight: u128,
    pub vector_representation: Vec<u32>,
}

/// Sum of the weights of the first `k` topics.
pub open spec fn prefix_weight(s: Seq<(usize, Topic)>, k: int) -> int
    decreases k,
{
    if k <= 0 {
        0
    } else {
        prefix_weight(s, k - 1) + s[k - 1].1.weighted_interest
    }
}

pub open spec fn total_weight(s: Seq<(usize, Topic)>) -> int {
    prefix_weight(s, s.len() as int)
}

/// Weight of topic `i` after normalisation by cumulative rounding: the
/// rounded running totals telescope, so the weights sum to exactly `SCALE`.
pub open spec fn normalised_weight(s: Seq<(usize, Topic)>, i: int) -> int {
    let t = total_weight(s);
    (SCALE * prefix_weight(s, i + 1)) / t - (SCALE * prefix_weight(s, i)) / t
}

/// The topics after normalisation; an all-zero profile is left as it is.
pub open spec fn normalised(s: Seq<(usize, Topic)>) -> Seq<(usize, Topic)> {
    if total_weight(s) == 0 {
        s
    } else {
        Seq::new(
            s.len(),
            |i: int|
                (
                    s[i].0,
                    Topic {
                        weighted_interest: normalised_weight(s, i) as u32,
                        agreement: s[i].1.agreement,
                    },
                ),
        )
    }
}

/// `new` is the profile that normalising topics `s` gives, where the
/// vector was `vector` before: the normalised topics, and, when any weight
/// is set, a total of `SCALE` and the vector rebuilt from the topics;
/// otherwise a total of zero and the vector kept.
pub open spec fn normalises_to(s: Seq<(usize, Topic)>, vector: Seq<u32>, new: InterestProfile) -> bool {
    &&& new.interests@ == normalised(s)
    &&& total_weight(s) == 0 ==> new.total_weight == 0 && new.vector_representation@ == vector
    &&& total_weight(s) > 0 ==> new.total_weight == SCALE && new.vector_representation@ == vector_of(
        new.interests@,
        vector.len(),
    )
}

/// Weight that the topics give tag `t` (the last entry for it counts).
pub open spec fn tag_weight(s: Seq<(usize, Topic)>, t: int) -> u32
    decreases s.len(),
{
    if s.len() == 0 {
        0
    } else if s.last().0 == t {
        s.last().1.weighted_interest
    } else {
        tag_weight(s.drop_last(), t)
    }
}

/// The dense vector of dimension `dim` for the topics; tags at or beyond
/// `dim` have no place in it.
pub open spec fn vector_of(s: Seq<(usize, Topic)>, dim: nat) -> Seq<u32> {
    Seq::new(dim, |i: int| tag_weight(s, i))
}

proof fn lemma_tag_weight_bound(s: Seq<(usize, Topic)>, t: int)
    requires
        forall|k: int| 0 <= k < s.len() ==> (#[trigger] s[k]).1.weighted_interest <= SCALE,
    ensures
        tag_weight(s, t) <= SCALE,
    decreases s.len(),
{
    if s.len() > 0 && s.last().0 != t {
        let init = s.drop_last();
        assert forall|k: int| 0 <= k < init.len() implies (#[trigger] init[k]).1.weighted_interest
            <= SCALE by {
            assert(init[k] == s[k]);
        }
        lemma_tag_weight_bound(init, t);
    }
}

pub open spec fn tags_unique(s: Seq<(usize, Topic)>) -> bool {
    forall|i: int, j: int| 0 <= i < j < s.len() ==> s[i].0 != s[j].0
}

pub open spec fn has_tag(s: Seq<(usize, Topic)>, t: int) -> bool {
    exists|i: int| 0 <= i < s.len() && s[i].0 == t
}

pub proof fn lemma_prefix_monotone(s: Seq<(usize, Topic)>, j: int, k: int)
    requires
        0 <= j <= k,
    ensures
        0 <= prefix_weight(s, j) <= prefix_weight(s, k),
    decreases k,
{
    if j < k {
        lemma_prefix_monotone(s, j, k - 1);
    } else if k > 0 {
        lemma_prefix_monotone(s, 0, k - 1);
    }
}

proof fn lemma_prefix_bound(s: Seq<(usize, Topic)>, k: int)
    requires
        0 <= k,
    ensures
        prefix_weight(s, k) <= k * 0xFFFF_FFFF,
    decreases k,
{
    if k > 0 {
        lemma_prefix_bound(s, k - 1);
    }
}

/// Running totals of the normalised weights are the rounded scaled running
/// totals of the given weights.
proof fn lemma_normalised_prefix(s: Seq<(usize, Topic)>, k: int)
    requires
        total_weight(s) > 0,
        0 <= k <= s.len(),
    ensures
        prefix_weight(normalised(s), k) == (SCALE * prefix_weight(s, k)) / total_weight(s),
    decreases k,
{
    let t = total_weight(s);
    if k == 0 {
        assert((SCALE * 0) / t == 0);
    } else {
        lemma_normalised_prefix(s, k - 1);
        lemma_normalised_weight_range(s, k - 1);
    }
}

proof fn lemma_normalised_weight_range(s: Seq<(usize, Topic)>, i: int)
    requires
        total_weight(s) > 0,
        0 <= i < s.len(),
    ensures
        0 <= normalised_weight(s, i) <= SCALE,
        normalised(s)[i].1.weighted_interest == normalised_weight(s, i),
{
    let t = total_weight(s);
    lemma_prefix_monotone(s, i, i + 1);
    lemma_prefix_monotone(s, i + 1, s.len() as int);
    let a = prefix_weight(s, i);
    let b = prefix_weight(s, i + 1);
    assert(SCALE * a <= SCALE * b) by (nonlinear_arith)
        requires
            a <= b,
    ;
    assert(SCALE * b <= SCALE * t) by (nonlinear_arith)
        requires
            b <= t,
    ;
    assert(0 <= SCALE * a) by (nonlinear_arith)
        requires
            0 <= a,
    ;
    lemma_div_is_ordered(SCALE * a, SCALE * b, t);
    lemma_div_is_ordered(SCALE * b, SCALE * t, t);
    lemma_div_pos_is_pos(SCALE * a, t);
    assert(SCALE * t == t * SCALE) by (nonlinear_arith);
    lemma_div_multiples_vanish(SCALE as int, t);
}

/// After normalisation a profile with any weight has weights summing to
/// exactly `SCALE` (1.0); an all-zero profile is left unchanged.
pub proof fn lemma_normalised_sum(s: Seq<(usize, Topic)>)
    ensures
        total_weight(s) > 0 ==> total_weight(normalised(s)) == SCALE,
        total_weight(s) == 0 ==> normalised(s) == s,
{
    if total_weight(s) > 0 {
        let t = total_weight(s);
        lemma_normalised_prefix(s, s.len() as int);
        assert(SCALE * t == t * SCALE) by (nonlinear_arith);
        lemma_div_multiples_vanish(SCALE as int, t);
    }
}

/// Normalisation keeps the tags, their order and their agreement.
pub proof fn lemma_normalised_tags(s: Seq<(usize, Topic)>)
    ensures
        normalised(s).len() == s.len(),
        forall|i: int| 0 <= i < s.len() ==> (#[trigger] normalised(s)[i]).0 == s[i].0
            && normalised(s)[i].1.agreement == s[i].1.agreement,
{
}

/// Filtering by distinct tags that the topics all hold keeps exactly those
/// tags, in their order.
pub proof fn lemma_filtered_tags(s: Seq<(usize, Topic)>, tags: Seq<usize>)
    requires
        tags.no_duplicates(),
        forall|k: int| 0 <= k < tags.len() ==> has_tag(s, #[trigger] tags[k] as int),
    ensures
        filtered(s, tags).len() == tags.len(),
        forall|k: int| 0 <= k < tags.len() ==> (#[trigger] filtered(s, tags)[k]).0 == tags[k],
    decreases tags.len(),
{
    if tags.len() > 0 {
        let init = tags.drop_last();
        assert forall|a: int, b: int| 0 <= a < b < init.len() implies init[a] != init[b] by {
            assert(init[a] == tags[a] && init[b] == tags[b]);
        }
        assert forall|k: int| 0 <= k < init.len() implies has_tag(s, #[trigger] init[k] as int) by {
            assert(init[k] == tags[k]);
        }
        lemma_filtered_tags(s, init);
        let acc = filtered(s, init);
        let t = tags.last();
        assert(has_tag(s, tags[tags.len() - 1] as int));
        if has_tag(acc, t as int) {
            let i = choose|i: int| 0 <= i < acc.len() && acc[i].0 == t;
            assert(acc[i].0 == init[i] && init[i] == tags[i]);
            assert(tags[i] == tags[tags.len() - 1]);
        }
    }
}

proof fn lemma_floor_step(a: int, b: int, n: int)
    requires
        a >= 0,
        b >= 0,
        n > 0,
    ensures
        b / n <= (a + b) / n - a / n <= b / n + 1,
{
    lemma_fundamental_div_mod(a, n);
    lemma_fundamental_div_mod(b, n);
    lemma_mod_pos_bound(a, n);
    lemma_mod_pos_bound(b, n);
    let qa = a / n;
    let qb = b / n;
    let ra = a % n;
    let rb = b % n;
    assert(a + b == (qa + qb) * n + (ra + rb)) by (nonlinear_arith)
        requires
            a == n * qa + ra,
            b == n * qb + rb,
    ;
    if ra + rb < n {
        lemma_fundamental_div_mod_converse(a + b, n, qa + qb, ra + rb);
    } else {
        assert(a + b == (qa + qb + 1) * n + (ra + rb - n)) by (nonlinear_arith)
            requires
                a + b == (qa + qb) * n + (ra + rb),
        ;
        lemma_fundamental_div_mod_converse(a + b, n, qa + qb + 1, ra + rb - n);
    }
}

proof fn lemma_prefix_of_ones(s: Seq<(usize, Topic)>, k: int)
    requires
        0 <= k <= s.len(),
        forall|j: int| 0 <= j < s.len() ==> (#[trigger] s[j]).1.weighted_interest == 1,
    ensures
        prefix_weight(s, k) == k,
    decreases k,
{
    if k > 0 {
        lemma_prefix_of_ones(s, k - 1);
    }
}

/// Normalising `n` topics of equal weight gives each `SCALE / n`, or one
/// more where the rounding carries.
pub proof fn lemma_normalised_ones(s: Seq<(usize, Topic)>)
    requires
        s.len() > 0,
        forall|j: int| 0 <= j < s.len() ==> (#[trigger] s[j]).1.weighted_interest == 1,
    ensures
        forall|k: int|
            0 <= k < s.len() ==> (SCALE as int) / (s.len() as int) <= (#[trigger] normalised(s)[k]).1.weighted_interest
                <= (SCALE as int) / (s.len() as int) + 1,
{
    let n = s.len() as int;
    lemma_prefix_of_ones(s, n);
    assert forall|k: int| 0 <= k < n implies (SCALE as int) / n <= (#[trigger] normalised(s)[k]).1.weighted_interest
        <= (SCALE as int) / n + 1 by {
        lemma_prefix_of_ones(s, k);
        lemma_prefix_of_ones(s, k + 1);
        lemma_normalised_weight_range(s, k);
        assert(SCALE * (k + 1) == SCALE * k + SCALE) by (nonlinear_arith);
        assert(SCALE * k >= 0) by (nonlinear_arith)
            requires
                k >= 0,
        ;
        lemma_floor_step(SCALE * k, SCALE as int, n);
    }
}

/// Normalising twice gives the same topics as normalising once.
pub proof fn lemma_normalise_idempotent(s: Seq<(usize, Topic)>)
    ensures
        normalised(normalised(s)) == normalised(s),
{
    lemma_normalised_sum(s);
    if total_weight(s) > 0 {
        let n = normalised(s);
        lemma_normalised_sum(s);
        assert forall|i: int| 0 <= i < n.len() implies #[trigger] normalised(n)[i] == n[i] by {
            lemma_normalised_prefix(s, i);
            lemma_normalised_prefix(s, i + 1);
            lemma_normalised_weight_range(s, i);
            let a = prefix_weight(n, i);
            let b = prefix_weight(n, i + 1);
            lemma_div_multiples_vanish(a, SCALE as int);
            lemma_div_multiples_vanish(b, SCALE as int);
            assert(SCALE * a == a * SCALE) by (nonlinear_arith);
            assert(SCALE * b == b * SCALE) by (nonlinear_arith);
            assert(normalised_weight(n, i) == b - a);
            assert(b - a == n[i].1.weighted_interest);
        }
        assert(normalised(n) =~= n);
    } else {
        lemma_prefix_monotone(s, 0, s.len() as int);
    }
}

impl InterestProfile {
    pub open spec fn wf(&self) -> bool {
        &&& tags_unique(self.interests@)
        &&& vector_ok(self.vector_representation@)
    }

    /// An empty profile with a zero vector of the given dimension.
    pub fn new(dimension_size: usize) -> (r: Self)
        requires
            dimension_size <= MAX_DIMENSION,
        ensures
            r.wf(),
            r.interests@.len() == 0,
            r.total_weight == 0,
            r.vector_representation@ == Seq::new(dimension_size as nat, |i: int| 0u32),
    {
        let mut v: Vec<u32> = Vec::new();
        let mut i: usize = 0;
        while i < dimension_size
            invariant
                i <= dimension_size,
                v@ == Seq::new(i as nat, |k: int| 0u32),
            decreases dimension_size - i,
        {
            v.push(0);
            i = i + 1;
            assert(v@ =~= Seq::new(i as nat, |k: int| 0u32));
        }
        InterestProfile { interests: Vec::new(), total_weight: 0, vector_representation: v }
    }

    /// Sum of the weights of all topics.
    fn weight_sum(&self) -> (r: u128)
        ensures
            r as int == total_weight(self.interests@),
    {
        let n = self.interests.len();
        let mut acc: u128 = 0;
        let mut i: usize = 0;
        while i < n
            invariant
                n == self.interests@.len(),
                i <= n,
                acc as int == prefix_weight(self.interests@, i as int),
            decreases n - i,
        {
            proof {
                lemma_prefix_bound(self.interests@, i as int + 1);
            }
            acc = acc + self.interests[i].1.weighted_interest as u128;
            i = i + 1;
        }
        acc
    }

    /// Lays the weights out by tag index in the vector, keeping its dimension.
    fn rebuild_vector(&mut self)
        ensures
            final(self).interests@ == old(self).interests@,
            final(self).total_weight == old(self).total_weight,
            final(self).vector_representation@ == vector_of(
                old(self).interests@,
                old(self).vector_representation@.len(),
            ),
    {
        let dim = self.vector_representation.len();
        let mut v: Vec<u32> = Vec::new();
        let mut i: usize = 0;
        while i < dim
            invariant
                i <= dim,
                v@ == Seq::new(i as nat, |k: int| 0u32),
            decreases dim - i,
        {
            v.push(0);
            i = i + 1;
            assert(v@ =~= Seq::new(i as nat, |k: int| 0u32));
        }
        let n = self.interests.len();
        let mut k: usize = 0;
        assert(v@ =~= vector_of(self.interests@.take(0), dim as nat));
        while k < n
            invariant
                n == self.interests@.len(),
                k <= n,
                v@.len() == dim,
                v@ == vector_of(self.interests@.take(k as int), dim as nat),
            decreases n - k,
        {
            let (tag, topic) = self.interests[k];
            let ghost prev = self.interests@.take(k as int);
            let ghost next = self.interests@.take(k as int + 1);
            assert(next.drop_last() =~= prev);
            if tag < dim {
                v.set(tag, topic.weighted_interest);
            }
            k = k + 1;
            assert(v@ =~= vector_of(next, dim as nat));
        }
        assert(self.interests@.take(n as int) =~= self.interests@);
        self.vector_representation = v;
    }

    /// Scales the weights to sum to exactly `SCALE` (1.0) and rebuilds the
    /// vector; a profile whose weights are all zero is left as it is.
    pub fn normalise_weights(&mut self)
        ensures
            normalises_to(old(self).interests@, old(self).vector_representation@, *final(self)),
            total_weight(old(self).interests@) == 0 ==> final(self).interests == old(self).interests
                && final(self).vector_representation == old(self).vector_representation
                && final(self).total_weight == 0,
            total_weight(old(self).interests@) > 0 ==> {
                &&& total_weight(final(self).interests@) == SCALE
                &&& final(self).total_weight == SCALE
                &&& final(self).vector_representation@ == vector_of(
                    final(self).interests@,
                    old(self).vector_representation@.len(),
                )
            },
            old(self).wf() ==> final(self).wf(),
            final(self).vector_representation@.len() == old(self).vector_representation@.len(),
    {
        let t = self.weight_sum();
        proof {
            lemma_prefix_monotone(self.interests@, 0, self.interests@.len() as int);
        }
        if t == 0 {
            self.total_weight = 0;
            proof {
                lemma_normalised_sum(self.interests@);
            }
            return;
        }
        proof {
            lemma_normalised_sum(self.interests@);
        }
        let ghost orig = self.interests@;
        let n = self.interests.len();
        let mut i: usize = 0;
        let mut running: u128 = 0;
        let mut last_scaled: u128 = 0;
        while i < n
            invariant
                n == orig.len(),
                self.interests@.len() == n,
                t as int == total_weight(orig),
                t > 0,
                i <= n,
                running as int == prefix_weight(orig, i as int),
                last_scaled as int == (SCALE * prefix_weight(orig, i as int)) / (t as int),
                forall|j: int| 0 <= j < i ==> #[trigger] self.interests@[j] == normalised(orig)[j],
                forall|j: int| i <= j < n ==> #[trigger] self.interests@[j] == orig[j],
                self.vector_representation == old(self).vector_representation,
            decreases n - i,
        {
            proof {
                lemma_prefix_monotone(orig, i as int + 1, n as int);
                lemma_normalised_weight_range(orig, i as int);
                assert(SCALE * prefix_weight(orig, i as int + 1) <= SCALE * t) by (nonlinear_arith)
                    requires
                        prefix_weight(orig, i as int + 1) <= t,
                ;
                lemma_prefix_bound(orig, n as int);
                assert(SCALE * t <= SCALE * (n * 0xFFFF_FFFF)) by (nonlinear_arith)
                    requires
                        t <= n * 0xFFFF_FFFF,
                ;
                assert(SCALE * (n * 0xFFFF_FFFF) <= SCALE * (0xFFFF_FFFF_FFFF_FFFF * 0xFFFF_FFFF)) by (nonlinear_arith)
                    requires
                        n <= 0xFFFF_FFFF_FFFF_FFFF,
                ;
            }
            let (tag, topic) = self.interests[i];
            running = running + topic.weighted_interest as u128;
            let scaled: u128 = (SCALE as u128) * running / t;
            let w: u32 = (scaled - last_scaled) as u32;
            self.interests.set(i, (tag, Topic { weighted_interest: w, agreement: topic.agreement }));
            last_scaled = scaled;
            i = i + 1;
        }
        assert(self.interests@ =~= normalised(orig));
        assert(forall|j: int| 0 <= j < n ==> #[trigger] normalised(orig)[j].0 == orig[j].0);
        self.total_weight = SCALE as u128;
        self.rebuild_vector();
        proof {
            let ns = self.interests@;
            assert forall|k: int| 0 <= k < ns.len() implies (#[trigger] ns[k]).1.weighted_interest
                <= SCALE by {
                lemma_normalised_weight_range(orig, k);
            }
            assert forall|i: int| 0 <= i < self.vector_representation@.len() implies #[trigger] self.vector_representation@[i]
                <= SCALE by {
                lemma_tag_weight_bound(ns, i);
            }
        }
        assert(total_weight(self.interests@) == SCALE);
        assert(self.total_weight == SCALE);

    }
}

pub open spec fn saturate_u32(x: int) -> u32 {
    if x > u32::MAX { u32::MAX } else { x as u32 }
}

/// The index of tag `t` in topics that hold it.
pub open spec fn tag_index(s: Seq<(usize, Topic)>, t: int) -> int {
    choose|k: int| 0 <= k < s.len() && s[k].0 == t
}

/// Adds `amount` to the weight of tag `t` (saturating), creating the topic
/// with zero agreement if the tag is new.
pub open spec fn with_added(s: Seq<(usize, Topic)>, t: usize, amount: int) -> Seq<(usize, Topic)> {
    if has_tag(s, t as int) {
        let k = tag_index(s, t as int);
        s.update(
            k,
            (
                t,
                Topic {
                    weighted_interest: saturate_u32(s[k].1.weighted_interest + amount),
                    agreement: s[k].1.agreement,
                },
            ),
        )
    } else {
        s.push((t, Topic { weighted_interest: saturate_u32(amount), agreement: 0 }))
    }
}

/// The share of a source weight absorbed at the given intensity.
pub open spec fn absorbed_amount(weight: u32, intensity: u32) -> int {
    (weight * intensity) / (SCALE as int)
}

/// The topics after absorbing each topic of `src` at `intensity`, in order.
pub open spec fn absorbed(s: Seq<(usize, Topic)>, src: Seq<(usize, Topic)>, intensity: u32) -> Seq<
    (usize, Topic),
>
    decreases src.len(),
{
    if src.len() == 0 {
        s
    } else {
        with_added(
            absorbed(s, src.drop_last(), intensity),
            src.last().0,
            absorbed_amount(src.last().1.weighted_interest, intensity),
        )
    }
}

/// The topics of `s` whose tags appear in `tags`, in the order of `tags`,
/// each once.
pub open spec fn filtered(s: Seq<(usize, Topic)>, tags: Seq<usize>) -> Seq<(usize, Topic)>
    decreases tags.len(),
{
    if tags.len() == 0 {
        seq![]
    } else {
        let acc = filtered(s, tags.drop_last());
        let t = tags.last();
        if has_tag(s, t as int) && !has_tag(acc, t as int) {
            acc.push((t, s[tag_index(s, t as int)].1))
        } else {
            acc
        }
    }
}

proof fn lemma_tag_index(s: Seq<(usize, Topic)>, k: int)
    requires
        tags_unique(s),
        0 <= k < s.len(),
    ensures
        has_tag(s, s[k].0 as int),
        tag_index(s, s[k].0 as int) == k,
{
    let t = s[k].0 as int;
    assert(has_tag(s, t));
    let c = tag_index(s, t);
    assert(0 <= c < s.len() && s[c].0 == t);
}

impl InterestProfile {
    /// Looks up the position of a tag among the topics.
    fn find_tag(&self, tag: usize) -> (r: Option<usize>)
        requires
            tags_unique(self.interests@),
        ensures
            r.is_none() <==> !has_tag(self.interests@, tag as int),
            r.is_some() ==> r.unwrap() as int == tag_index(self.interests@, tag as int)
                && r.unwrap() < self.interests@.len(),
    {
        let n = self.interests.len();
        let mut i: usize = 0;
        while i < n
            invariant
                n == self.interests@.len(),
                i <= n,
                tags_unique(self.interests@),
                forall|j: int| 0 <= j < i ==> self.interests@[j].0 != tag,
            decreases n - i,
        {
            if self.interests[i].0 == tag {
                proof {
                    lemma_tag_index(self.interests@, i as int);
                }
                return Some(i);
            }
            i = i + 1;
        }
        None
    }

    /// Adds `amount` to the weight of `tag`, or adds the tag with that
    /// weight and zero agreement.
    fn add_weight(&mut self, tag: usize, amount: u64)
        requires
            tags_unique(old(self).interests@),
            amount <= 0xFFFF_FFFF_FFFF,
        ensures
            final(self).interests@ == with_added(old(self).interests@, tag, amount as int),
            tags_unique(final(self).interests@),
            final(self).vector_representation == old(self).vector_representation,
            final(self).total_weight == old(self).total_weight,
    {
        match self.find_tag(tag) {
            Some(k) => {
                let topic = self.interests[k].1;
                let sum: u64 = topic.weighted_interest as u64 + amount;
                let w: u32 = if sum > u32::MAX as u64 { u32::MAX } else { sum as u32 };
                self.interests.set(
                    k,
                    (tag, Topic { weighted_interest: w, agreement: topic.agreement }),
                );
            },
            None => {
                let w: u32 = if amount > u32::MAX as u64 { u32::MAX } else { amount as u32 };
                self.interests.push((tag, Topic { weighted_interest: w, agreement: 0 }));
            },
        }
    }

    /// Moves this profile toward `source`: each of its topics adds its
    /// weight times `intensity` (on the fixed-point scale) to the same tag
    /// here, creating the tag with zero agreement if new; then the weights
    /// are normalised.
    pub fn update_interest_from_profile(&mut self, source: &InterestProfile, intensity: u32)
        requires
            old(self).wf(),
        ensures
            final(self).interests@ == normalised(
                absorbed(old(self).interests@, source.interests@, intensity),
            ),
            final(self).wf(),
            final(self).vector_representation@.len() == old(self).vector_representation@.len(),
            normalises_to(
                absorbed(old(self).interests@, source.interests@, intensity),
                old(self).vector_representation@,
                *final(self),
            ),
    {
        let n = source.interests.len();
        let mut i: usize = 0;
        let ghost orig = self.interests@;
        while i < n
            invariant
                n == source.interests@.len(),
                i <= n,
                self.interests@ == absorbed(orig, source.interests@.take(i as int), intensity),
                tags_unique(self.interests@),
                self.vector_representation == old(self).vector_representation,
            decreases n - i,
        {
            let (tag, topic) = source.interests[i];
            assert(source.interests@.take(i as int + 1).drop_last() =~= source.interests@.take(
                i as int,
            ));
            proof {
                assert(topic.weighted_interest as u64 * intensity as u64 <= 0xFFFF_FFFE_0000_0001)
                    by (nonlinear_arith);
            }
            let amount: u64 = (topic.weighted_interest as u64) * (intensity as u64) / SCALE;
            self.add_weight(tag, amount);
            i = i + 1;
        }
        assert(source.interests@.take(n as int) =~= source.interests@);
        self.normalise_weights();
    }

    /// Moves this profile toward the profile of a post it consumed.
    pub fn update_interest_from_post(&mut self, post: &crate::content::Content, intensity: u32)
        requires
            old(self).wf(),
        ensures
            final(self).interests@ == normalised(
                absorbed(old(self).interests@, post.interest_profile.interests@, intensity),
            ),
            final(self).wf(),
            final(self).vector_representation@.len() == old(self).vector_representation@.len(),
            normalises_to(
                absorbed(old(self).interests@, post.interest_profile.interests@, intensity),
                old(self).vector_representation@,
                *final(self),
            ),
    {
        self.update_interest_from_profile(&post.interest_profile, intensity);
    }

    /// A separately normalised profile holding only the given tags that
    /// this profile has, with the same vector dimension.
    pub fn filtered_clone(&self, selected_tags: &Vec<usize>) -> (r: Self)
        requires
            self.wf(),
        ensures
            r.interests@ == normalised(filtered(self.interests@, selected_tags@)),
            r.wf(),
            r.vector_representation@.len() == self.vector_representation@.len(),
            normalises_to(
                filtered(self.interests@, selected_tags@),
                Seq::new(self.vector_representation@.len(), |i: int| 0u32),
                r,
            ),
    {
        let mut out = InterestProfile::new(self.vector_representation.len());
        let n = selected_tags.len();
        let mut i: usize = 0;
        while i < n
            invariant
                n == selected_tags@.len(),
                i <= n,
                out.interests@ == filtered(self.interests@, selected_tags@.take(i as int)),
                tags_unique(out.interests@),
                tags_unique(self.interests@),
                out.wf(),
                out.vector_representation@ == Seq::new(
                    self.vector_representation@.len(),
                    |i: int| 0u32,
                ),
            decreases n - i,
        {
            let tag = selected_tags[i];
            assert(selected_tags@.take(i as int + 1).drop_last() =~= selected_tags@.take(i as int));
            match self.find_tag(tag) {
                Some(k) => {
                    match out.find_tag(tag) {
                        None => {
                            out.interests.push((tag, self.interests[k].1));
                        },
                        Some(_) => {},
                    }
                },
                None => {},
            }
            i = i + 1;
        }
        assert(selected_tags@.take(n as int) =~= selected_tags@);
        out.normalise_weights();
        out
    }
}

/// Tags picked one after another from `rem`, each by a draw taken modulo
/// the number of tags still left, until `count` are picked or the draws or
/// tags run out.
pub open spec fn picks(rem: Seq<usize>, draws: Seq<u64>, count: int) -> Seq<usize>
    decreases count,
{
    if count <= 0 || rem.len() == 0 || draws.len() == 0 {
        seq![]
    } else {
        let j = (draws[0] as int) % (rem.len() as int);
        seq![rem[j]] + picks(rem.remove(j), draws.drop_first(), count - 1)
    }
}

/// Whether a roulette draw lands on topic `k`.
pub open spec fn lands_on(s: Seq<(usize, Topic)>, draw: int, k: int) -> bool {
    prefix_weight(s, k) <= draw < prefix_weight(s, k + 1)
}

/// The topic that a roulette draw lands on: the first whose running weight
/// total exceeds the draw, or the first topic when the draw is past the end.
pub open spec fn roulette_index(s: Seq<(usize, Topic)>, draw: int) -> int {
    if draw < total_weight(s) {
        choose|k: int| 0 <= k < s.len() && #[trigger] lands_on(s, draw, k)
    } else {
        0
    }
}

pub open spec fn tags_of(s: Seq<(usize, Topic)>) -> Seq<usize> {
    s.map_values(|e: (usize, Topic)| e.0)
}

/// The tags chosen for new content: the roulette pick first, then up to
/// `num_tags - 1` more picked from the others by the draws.
pub open spec fn selected_tags(
    s: Seq<(usize, Topic)>,
    num_tags: int,
    roulette_draw: int,
    pick_draws: Seq<u64>,
) -> Seq<usize> {
    if s.len() == 0 {
        seq![]
    } else {
        let first = roulette_index(s, roulette_draw);
        seq![s[first].0] + picks(tags_of(s).remove(first), pick_draws, num_tags - 1)
    }
}

proof fn lemma_picks_from(rem: Seq<usize>, draws: Seq<u64>, count: int)
    requires
        rem.no_duplicates(),
    ensures
        picks(rem, draws, count).no_duplicates(),
        forall|x: usize| picks(rem, draws, count).contains(x) ==> rem.contains(x),
        count >= 0 && draws.len() >= count ==> picks(rem, draws, count).len() == min_nat(
            count,
            rem.len() as int,
        ),
    decreases count,
{
    if !(count <= 0 || rem.len() == 0 || draws.len() == 0) {
        let j = (draws[0] as int) % (rem.len() as int);
        let rest = rem.remove(j);
        assert forall|a: int, b: int| 0 <= a < b < rest.len() implies rest[a] != rest[b] by {
            let ia = if a < j { a } else { a + 1 };
            let ib = if b < j { b } else { b + 1 };
            assert(rest[a] == rem[ia] && rest[b] == rem[ib]);
        }
        assert(rest.no_duplicates());
        lemma_picks_from(rest, draws.drop_first(), count - 1);
        let tail = picks(rest, draws.drop_first(), count - 1);
        let all = seq![rem[j]] + tail;
        assert forall|x: usize| tail.contains(x) implies rem.contains(x) && x != rem[j] by {
            assert(rest.contains(x));
            let a = choose|a: int| 0 <= a < rest.len() && rest[a] == x;
            let ia = if a < j { a } else { a + 1 };
            assert(rem[ia] == x);
        }
        assert forall|a: int, b: int| 0 <= a < b < all.len() implies all[a] != all[b] by {
            if a == 0 {
                assert(tail.contains(all[b]));
            } else {
                assert(all[a] == tail[a - 1] && all[b] == tail[b - 1]);
            }
        }
        assert forall|x: usize| all.contains(x) implies rem.contains(x) by {
            let a = choose|a: int| 0 <= a < all.len() && all[a] == x;
            if a > 0 {
                assert(tail[a - 1] == x);
                assert(tail.contains(x));
            }
        }
    }
}

pub open spec fn min_nat(a: int, b: int) -> int {
    if a <= b { a } else { b }
}

proof fn lemma_tags_of_distinct(s: Seq<(usize, Topic)>)
    requires
        tags_unique(s),
    ensures
        tags_of(s).no_duplicates(),
        tags_of(s).len() == s.len(),
{
}

proof fn lemma_roulette(s: Seq<(usize, Topic)>, draw: int, k: int)
    requires
        0 <= k < s.len(),
        lands_on(s, draw, k),
    ensures
        roulette_index(s, draw) == k,
{
    lemma_prefix_monotone(s, k + 1, s.len() as int);
    let c = choose|c: int| 0 <= c < s.len() && #[trigger] lands_on(s, draw, c);
    assert(0 <= c < s.len() && lands_on(s, draw, c));
    if c < k {
        lemma_prefix_monotone(s, c + 1, k);
    } else if k < c {
        lemma_prefix_monotone(s, k + 1, c);
    }
}

impl InterestProfile {
    /// The tags for new content, chosen by the given draws: a roulette pick
    /// over the weights first (by `roulette_draw` against the running
    /// totals), then up to `num_tags - 1` further tags, each taken from the
    /// ones left by a draw of `pick_draws` modulo their number.
    pub fn select_content_tags_with(
        &self,
        num_tags: usize,
        roulette_draw: u128,
        pick_draws: &Vec<u64>,
    ) -> (r: Vec<usize>)
        requires
            self.wf(),
        ensures
            r@ == selected_tags(self.interests@, num_tags as int, roulette_draw as int, pick_draws@),
    {
        let n = self.interests.len();
        if n == 0 {
            return Vec::new();
        }
        // The roulette walk.
        let mut k: usize = 0;
        let mut running: u128 = 0;
        let mut first: usize = 0;
        let mut hit = false;
        while k < n && !hit
            invariant
                n == self.interests@.len(),
                k <= n,
                !hit ==> running as int == prefix_weight(self.interests@, k as int),
                !hit ==> running as int <= roulette_draw,
                !hit ==> first == 0,
                hit ==> roulette_index(self.interests@, roulette_draw as int) == first as int,
                first < n,
            decreases n - k,
        {
            proof {
                lemma_prefix_bound(self.interests@, k as int + 1);
                lemma_prefix_monotone(self.interests@, 0, k as int + 1);
                assert((k + 1) * 0xFFFF_FFFF <= 0x1_0000_0000_0000_0000 * 0xFFFF_FFFF) by (nonlinear_arith)
                    requires
                        k < n,
                        n <= 0xFFFF_FFFF_FFFF_FFFF,
                ;
            }
            running = running + self.interests[k].1.weighted_interest as u128;
            if roulette_draw < running {
                proof {
                    lemma_roulette(self.interests@, roulette_draw as int, k as int);
                }
                first = k;
                hit = true;
            }
            k = k + 1;
        }
        let ghost s = self.interests@;
        assert(hit || roulette_index(s, roulette_draw as int) == 0);
        // The remaining tags, in order, without the first.
        let mut rem: Vec<usize> = Vec::new();
        let mut i: usize = 0;
        while i < n
            invariant
                n == s.len(),
                s == self.interests@,
                first < n,
                i <= n,
                rem@ == (if i <= first { tags_of(s).take(i as int) } else { tags_of(s).take(i as int).remove(first as int) }),
            decreases n - i,
        {
            if i != first {
                rem.push(self.interests[i].0);
            }
            i = i + 1;
            proof {
                if i <= first {
                    assert(rem@ =~= tags_of(s).take(i as int));
                } else {
                    assert(rem@ =~= tags_of(s).take(i as int).remove(first as int));
                }
            }
        }
        assert(tags_of(s).take(n as int) =~= tags_of(s));
        let ghost rem0 = rem@;
        let mut out: Vec<usize> = Vec::new();
        out.push(self.interests[first].0);
        let mut d: usize = 0;
        let count: usize = if num_tags == 0 { 0 } else { num_tags - 1 };
        assert(picks(rem0, pick_draws@.skip(0), count - 0) == picks(rem0, pick_draws@, count as int))
            by {
            assert(pick_draws@.skip(0) =~= pick_draws@);
        }
        assert(picks(rem0, pick_draws@, num_tags - 1) == picks(rem0, pick_draws@, count as int));
        while d < count && rem.len() > 0 && d < pick_draws.len()
            invariant
                d <= count,
                d <= pick_draws@.len(),
                out@ + picks(rem@, pick_draws@.skip(d as int), count - d) == seq![s[first as int].0]
                    + picks(rem0, pick_draws@, count as int),
            decreases count - d,
        {
            let ghost rest = pick_draws@.skip(d as int);
            let j: usize = (pick_draws[d] % (rem.len() as u64)) as usize;
            let ghost old_out = out@;
            let x = rem.remove(j);
            assert(rest.drop_first() =~= pick_draws@.skip(d as int + 1));
            assert(rest[0] == pick_draws@[d as int]);
            out.push(x);
            d = d + 1;
            assert(old_out + (seq![x] + picks(rem@, pick_draws@.skip(d as int), count - d)) =~= out@
                + picks(rem@, pick_draws@.skip(d as int), count - d));
        }
        assert(picks(rem@, pick_draws@.skip(d as int), count - d) =~= seq![]);
        assert(out@ + seq![] =~= out@);
        out
    }

    /// Chooses between `min_tags` and `max_tags` tags (bounded by the
    /// number of topics, and at least one when there is any) for new content:
    /// the first by a roulette draw over the weights, the rest uniformly from
    /// the others. An empty profile gives no tags.
    pub fn select_content_tags(&self, min_tags: usize, max_tags: usize) -> (r: Vec<usize>)
        requires
            self.wf(),
            min_tags <= max_tags,
        ensures
            r@.no_duplicates(),
            forall|t: usize| r@.contains(t) ==> has_tag(self.interests@, t as int),
            self.interests@.len() == 0 ==> r@.len() == 0,
            exists|num: int, roulette: int, picks: Seq<u64>|
                #![trigger selected_tags(self.interests@, num, roulette, picks)]
                {
                    let n = self.interests@.len() as int;
                    &&& min_nat(min_tags as int, n) <= num <= min_nat(max_tags as int, n)
                    &&& 0 <= roulette
                    &&& (total_weight(self.interests@) > 0 ==> roulette < total_weight(self.interests@))
                    &&& picks.len() == num
                    &&& r@ == selected_tags(self.interests@, num, roulette, picks)
                },
            self.interests@.len() > 0 ==> {
                let hi = min_nat(max_tags as int, self.interests@.len() as int);
                &&& 1 <= r@.len()
                &&& min_nat(min_tags as int, self.interests@.len() as int) <= r@.len()
                &&& r@.len() <= (if hi == 0 { 1 } else { hi })
            },
    {
        let n = self.interests.len();
        let hi: usize = if max_tags < n { max_tags } else { n };
        let lo: usize = if min_tags < hi { min_tags } else { hi };
        let num_tags: usize = lo + random_below((hi - lo) as u128 + 1) as usize;
        let total = self.weight_sum();
        let roulette_draw: u128 = if total > 0 { random_below(total) } else { 0 };
        let mut draws: Vec<u64> = Vec::new();
        let mut i: usize = 0;
        while i < num_tags
            invariant
                i <= num_tags,
                draws@.len() == i,
            decreases num_tags - i,
        {
            draws.push(random_below(0x1_0000_0000_0000_0000) as u64);
            i = i + 1;
        }
        let r = self.select_content_tags_with(num_tags, roulette_draw, &draws);
        assert(selected_tags(self.interests@, num_tags as int, roulette_draw as int, draws@) == r@);
        proof {
            let s = self.interests@;
            if n > 0 {
                lemma_tags_of_distinct(s);
                let first = roulette_index(s, roulette_draw as int);
                assert(0 <= first < n) by {
                    if (roulette_draw as int) < total_weight(s) {
                        lemma_roulette_exists(s, roulette_draw as int);
                    }
                }
                let rem0 = tags_of(s).remove(first);
                let ts = tags_of(s);
                assert forall|a: int, b: int| 0 <= a < b < rem0.len() implies rem0[a] != rem0[b] by {
                    let ia = if a < first { a } else { a + 1 };
                    let ib = if b < first { b } else { b + 1 };
                    assert(rem0[a] == ts[ia] && rem0[b] == ts[ib]);
                }
                lemma_picks_from(rem0, draws@, num_tags - 1);
                let tail = picks(rem0, draws@, num_tags - 1);
                assert forall|x: usize| tail.contains(x) implies x != s[first].0 && has_tag(s, x as int) by {
                    assert(rem0.contains(x));
                    let a = choose|a: int| 0 <= a < rem0.len() && rem0[a] == x;
                    let ia = if a < first { a } else { a + 1 };
                    assert(ts[ia] == x);
                    assert(s[ia].0 == x);
                }
                assert forall|a: int, b: int| 0 <= a < b < r@.len() implies r@[a] != r@[b] by {
                    if a == 0 {
                        assert(tail.contains(r@[b]));
                    } else {
                        assert(r@[a] == tail[a - 1] && r@[b] == tail[b - 1]);
                    }
                }
                assert forall|t: usize| r@.contains(t) implies has_tag(s, t as int) by {
                    let a = choose|a: int| 0 <= a < r@.len() && r@[a] == t;
                    if a > 0 {
                        assert(tail[a - 1] == t);
                        assert(tail.contains(t));
                    }
                }
                if num_tags > 0 {
                    assert(draws@.len() >= num_tags - 1);
                }
            }
        }
        r
    }
}

proof fn lemma_roulette_exists(s: Seq<(usize, Topic)>, draw: int)
    requires
        0 <= draw < total_weight(s),
    ensures
        exists|c: int| 0 <= c < s.len() && #[trigger] lands_on(s, draw, c),
    decreases s.len(),
{
    let n = s.len() as int;
    if draw < prefix_weight(s, n - 1) {
        let t = s.drop_last();
        lemma_prefix_drop_last(s, n - 1);
        lemma_roulette_exists(t, draw);
        let c = choose|c: int| 0 <= c < t.len() && #[trigger] lands_on(t, draw, c);
        lemma_prefix_drop_last(s, c);
        lemma_prefix_drop_last(s, c + 1);
        assert(lands_on(s, draw, c));
    } else {
        assert(lands_on(s, draw, n - 1));
    }
}

proof fn lemma_prefix_drop_last(s: Seq<(usize, Topic)>, k: int)
    requires
        0 <= k < s.len(),
    ensures
        prefix_weight(s.drop_last(), k) == prefix_weight(s, k),
    decreases k,
{
    if k > 0 {
        lemma_prefix_drop_last(s, k - 1);
    }
}

/// The topics with `tag` set to `topic`: replaced where the tag is held,
/// appended where it is new.
pub open spec fn with_topic(s: Seq<(usize, Topic)>, t: usize, topic: Topic) -> Seq<(usize, Topic)> {
    if has_tag(s, t as int) {
        s.update(tag_index(s, t as int), (t, topic))
    } else {
        s.push((t, topic))
    }
}

impl InterestProfile {
    /// Sets the topic of a tag, replacing any topic it had. The weights are
    /// left as they are until the next normalisation.
    pub fn insert_topic(&mut self, tag: usize, topic: Topic)
        requires
            old(self).wf(),
        ensures
            final(self).interests@ == with_topic(old(self).interests@, tag, topic),
            final(self).wf(),
            final(self).vector_representation == old(self).vector_representation,
            final(self).total_weight == old(self).total_weight,
    {
        match self.find_tag(tag) {
            Some(k) => {
                self.interests.set(k, (tag, topic));
            },
            None => {
                self.interests.push((tag, topic));
            },
        }
    }
}

} // verus!
