use vstd::prelude::*;

use crate::character::{CharView, Character, Rarity};
use crate::errors::RecruitError;
use crate::rng::rand_below;

verus! {

/// Probabilities are carried as parts per million: `SCALE` stands for 100%.
pub const SCALE: u32 = 1000000;

// ---------------------------------------------------------------------------
// Rarity model: per-tier draw weights and tier sampling.
// ---------------------------------------------------------------------------

/// The per-tier draw weights, in parts per million.  A well-formed model's
/// weights sum to exactly `SCALE`.
#[derive(Clone, Copy, Debug, PartialEq, Eq, Structural)]
pub struct RarityModel {
    pub one: u32,
    pub two: u32,
    pub three: u32,
}

pub open spec fn weights_valid(one: u32, two: u32, three: u32) -> bool {
    one + two + three == SCALE
}

pub open spec fn tier_weight(model: RarityModel, tier: Rarity) -> u32 {
    match tier {
        Rarity::One => model.one,
        Rarity::Two => model.two,
        Rarity::Three => model.three,
    }
}

/// Which tier the random ppm value `u` falls in: the tiers partition
/// `[0, SCALE)` into three consecutive half-open intervals.
pub open spec fn tier_of(model: RarityModel, u: u32) -> Rarity {
    if u < model.one {
        Rarity::One
    } else if u < model.one + model.two {
        Rarity::Two
    } else {
        Rarity::Three
    }
}

impl RarityModel {
    pub open spec fn wf(self) -> bool {
        weights_valid(self.one, self.two, self.three)
    }

    /// Builds a model from per-tier weights in parts per million;
    /// `InvalidWeights` exactly when they do not sum to 100%.
    pub fn new(one: u32, two: u32, three: u32) -> (r: Result<RarityModel, RecruitError>)
        ensures
            match r {
                Ok(m) => m == (RarityModel { one, two, three }) && weights_valid(one, two, three),
                Err(e) => e == RecruitError::InvalidWeights && !weights_valid(one, two, three),
            },
    {
        let total: u64 = one as u64 + two as u64 + three as u64;
        if total == SCALE as u64 {
            Ok(RarityModel { one, two, three })
        } else {
            Err(RecruitError::InvalidWeights)
        }
    }

    /// Maps the random ppm value `u` to its tier.  A tier of weight zero has
    /// an empty interval, so it is never returned.
    pub fn sample_tier(&self, u: u32) -> (tier: Rarity)
        requires
            self.wf(),
            u < SCALE,
        ensures
            tier == tier_of(*self, u),
            tier_weight(*self, tier) > 0,
    {
        if u < self.one {
            Rarity::One
        } else {
            let bound: u32 = self.one + self.two;
            if u < bound {
                Rarity::Two
            } else {
                Rarity::Three
            }
        }
    }
}

// ---------------------------------------------------------------------------
// Spec-level shape of a pool of characters.
// ---------------------------------------------------------------------------

pub open spec fn views_of(pool: Seq<Character>) -> Seq<CharView> {
    Seq::new(pool.len(), |i: int| pool[i]@)
}

pub open spec fn pool_has_id(pool: Seq<CharView>, id: u64) -> bool {
    exists|k: int| 0 <= k < pool.len() && pool[k].id == id
}

pub open spec fn has_tier(pool: Seq<CharView>, tier: Rarity) -> bool {
    exists|k: int| 0 <= k < pool.len() && pool[k].rarity == tier
}

pub open spec fn distinct_ids(pool: Seq<CharView>) -> bool {
    forall|i: int, k: int|
        0 <= i < pool.len() && 0 <= k < pool.len() && i != k ==> pool[i].id != pool[k].id
}

/// The indices of the pool members of `tier`, in pool order.
pub open spec fn tier_members(pool: Seq<CharView>, tier: Rarity) -> Seq<int>
    decreases pool.len(),
{
    if pool.len() == 0 {
        Seq::empty()
    } else {
        let prefix = tier_members(pool.drop_last(), tier);
        if pool.last().rarity == tier {
            prefix.push(pool.len() - 1)
        } else {
            prefix
        }
    }
}

/// The indices of the pool members of `tier` whose identity is boosted.
pub open spec fn boosted_members(pool: Seq<CharView>, boosted: Seq<u64>, tier: Rarity) -> Seq<int>
    decreases pool.len(),
{
    if pool.len() == 0 {
        Seq::empty()
    } else {
        let prefix = boosted_members(pool.drop_last(), boosted, tier);
        if pool.last().rarity == tier && boosted.contains(pool.last().id) {
            prefix.push(pool.len() - 1)
        } else {
            prefix
        }
    }
}

/// The indices of the pool members of `tier` whose identity is not boosted.
pub open spec fn plain_members(pool: Seq<CharView>, boosted: Seq<u64>, tier: Rarity) -> Seq<int>
    decreases pool.len(),
{
    if pool.len() == 0 {
        Seq::empty()
    } else {
        let prefix = plain_members(pool.drop_last(), boosted, tier);
        if pool.last().rarity == tier && !boosted.contains(pool.last().id) {
            prefix.push(pool.len() - 1)
        } else {
            prefix
        }
    }
}

pub proof fn lemma_tier_members_props(pool: Seq<CharView>, tier: Rarity)
    ensures
        forall|k: int|
            0 <= k < tier_members(pool, tier).len() ==> 0 <= #[trigger] tier_members(pool, tier)[k]
                < pool.len() && pool[tier_members(pool, tier)[k]].rarity == tier,
    decreases pool.len(),
{
    if pool.len() > 0 {
        lemma_tier_members_props(pool.drop_last(), tier);
        assert(forall|i: int|
            0 <= i < pool.len() - 1 ==> #[trigger] pool.drop_last()[i] == pool[i]);
    }
}

pub proof fn lemma_boosted_members_props(pool: Seq<CharView>, boosted: Seq<u64>, tier: Rarity)
    ensures
        forall|k: int|
            0 <= k < boosted_members(pool, boosted, tier).len() ==> 0 <= #[trigger] boosted_members(
                pool,
                boosted,
                tier,
            )[k] < pool.len() && pool[boosted_members(pool, boosted, tier)[k]].rarity == tier
                && boosted.contains(pool[boosted_members(pool, boosted, tier)[k]].id),
    decreases pool.len(),
{
    if pool.len() > 0 {
        lemma_boosted_members_props(pool.drop_last(), boosted, tier);
        assert(forall|i: int|
            0 <= i < pool.len() - 1 ==> #[trigger] pool.drop_last()[i] == pool[i]);
    }
}

pub proof fn lemma_plain_members_props(pool: Seq<CharView>, boosted: Seq<u64>, tier: Rarity)
    ensures
        forall|k: int|
            0 <= k < plain_members(pool, boosted, tier).len() ==> 0 <= #[trigger] plain_members(
                pool,
                boosted,
                tier,
            )[k] < pool.len() && pool[plain_members(pool, boosted, tier)[k]].rarity == tier
                && !boosted.contains(pool[plain_members(pool, boosted, tier)[k]].id),
    decreases pool.len(),
{
    if pool.len() > 0 {
        lemma_plain_members_props(pool.drop_last(), boosted, tier);
        assert(forall|i: int|
            0 <= i < pool.len() - 1 ==> #[trigger] pool.drop_last()[i] == pool[i]);
    }
}

/// Every member of a tier is either boosted or plain, so the two partitions
/// of the tier account for all of it.
pub proof fn lemma_members_split(pool: Seq<CharView>, boosted: Seq<u64>, tier: Rarity)
    ensures
        tier_members(pool, tier).len() == boosted_members(pool, boosted, tier).len()
            + plain_members(pool, boosted, tier).len(),
    decreases pool.len(),
{
    if pool.len() > 0 {
        lemma_members_split(pool.drop_last(), boosted, tier);
    }
}

/// A tier with any member at all has a non-empty member list.
pub proof fn lemma_tier_members_nonempty(pool: Seq<CharView>, tier: Rarity)
    requires
        has_tier(pool, tier),
    ensures
        tier_members(pool, tier).len() > 0,
    decreases pool.len(),
{
    let k = choose|k: int| 0 <= k < pool.len() && pool[k].rarity == tier;
    if pool.last().rarity != tier {
        assert(pool.drop_last()[k] == pool[k]);
        lemma_tier_members_nonempty(pool.drop_last(), tier);
    }
}

/// A tier with a member that is not boosted has a non-empty plain member
/// list.
pub proof fn lemma_plain_members_nonempty(pool: Seq<CharView>, boosted: Seq<u64>, tier: Rarity)
    requires
        exists|k: int|
            0 <= k < pool.len() && pool[k].rarity == tier && !boosted.contains(pool[k].id),
    ensures
        plain_members(pool, boosted, tier).len() > 0,
    decreases pool.len(),
{
    let k = choose|k: int|
        0 <= k < pool.len() && pool[k].rarity == tier && !boosted.contains(pool[k].id);
    if !(pool.last().rarity == tier && !boosted.contains(pool.last().id)) {
        assert(pool.drop_last()[k] == pool[k]);
        lemma_plain_members_nonempty(pool.drop_last(), boosted, tier);
    }
}

// ---------------------------------------------------------------------------
// Priority pool: the boosted subset and the boost fraction.
// ---------------------------------------------------------------------------

/// The boosted ("rate-up") identities and the fraction, in parts per million,
/// of their tier's probability mass reserved for them.
#[derive(Clone, Debug)]
pub struct PriorityPool {
    pub boosted: Vec<u64>,
    pub boost: u32,
}

pub open spec fn boost_valid(pool: Seq<CharView>, boosted: Seq<u64>, boost: u32) -> bool {
    boost <= SCALE && forall|i: int|
        0 <= i < boosted.len() ==> pool_has_id(pool, #[trigger] boosted[i])
}

/// The pool index drawn for `tier`.  With the tier's boosted members `b` and
/// its plain members `p`: when `b` is non-empty the draw falls on `b` with
/// probability `boost` (that is, when `u_boost < boost`), otherwise on `p`;
/// an empty `p` falls back to the whole tier.  Within the chosen list the
/// index `j` picks a member by reduction modulo the list length.
pub open spec fn member_index(
    pool: Seq<CharView>,
    boosted: Seq<u64>,
    boost: u32,
    tier: Rarity,
    u_boost: u32,
    j: u64,
) -> int {
    let b = boosted_members(pool, boosted, tier);
    let p = plain_members(pool, boosted, tier);
    let m = tier_members(pool, tier);
    if b.len() > 0 && u_boost < boost {
        b[j as int % b.len() as int]
    } else if p.len() > 0 {
        p[j as int % p.len() as int]
    } else {
        m[j as int % m.len() as int]
    }
}

impl PriorityPool {
    /// Builds the boosted subset; `InvalidBoost` exactly when the fraction
    /// exceeds 100% or a boosted identity is absent from the pool.
    pub fn new(boosted: Vec<u64>, boost: u32, pool: &Vec<Character>) -> (r: Result<
        PriorityPool,
        RecruitError,
    >)
        ensures
            match r {
                Ok(p) => p.boosted@ == boosted@ && p.boost == boost && boost_valid(
                    views_of(pool@),
                    boosted@,
                    boost,
                ),
                Err(e) => e == RecruitError::InvalidBoost && !boost_valid(
                    views_of(pool@),
                    boosted@,
                    boost,
                ),
            },
    {
        if boost > SCALE {
            return Err(RecruitError::InvalidBoost);
        }
        let mut i: usize = 0;
        while i < boosted.len()
            invariant
                i <= boosted.len(),
                forall|k: int| 0 <= k < i ==> pool_has_id(views_of(pool@), #[trigger] boosted@[k]),
            decreases boosted.len() - i,
        {
            if !contains_id(pool, boosted[i]) {
                return Err(RecruitError::InvalidBoost);
            }
            i = i + 1;
        }
        Ok(PriorityPool { boosted, boost })
    }

    pub(crate) fn id_boosted(&self, id: u64) -> (r: bool)
        ensures
            r == self.boosted@.contains(id),
    {
        let mut i: usize = 0;
        while i < self.boosted.len()
            invariant
                i <= self.boosted.len(),
                forall|k: int| 0 <= k < i ==> self.boosted@[k] != id,
            decreases self.boosted.len() - i,
        {
            if self.boosted[i] == id {
                return true;
            }
            i = i + 1;
        }
        false
    }

    /// Draws one member of `tier` from `pool`: the deterministic selection
    /// that `member_index` describes, driven by the two random values.
    pub fn sample_member(&self, pool: &Vec<Character>, tier: Rarity, u_boost: u32, j: u64) -> (idx:
        usize)
        requires
            has_tier(views_of(pool@), tier),
        ensures
            idx == member_index(views_of(pool@), self.boosted@, self.boost, tier, u_boost, j),
            idx < pool@.len(),
            views_of(pool@)[idx as int].rarity == tier,
    {
        let ghost pv = views_of(pool@);
        let mut members: Vec<usize> = Vec::new();
        let mut boosted_v: Vec<usize> = Vec::new();
        let mut plain_v: Vec<usize> = Vec::new();
        let mut i: usize = 0;
        proof {
            assert(pv.take(0) =~= Seq::<CharView>::empty());
        }
        while i < pool.len()
            invariant
                i <= pool.len(),
                pv == views_of(pool@),
                idxs(members@) == tier_members(pv.take(i as int), tier),
                idxs(boosted_v@) == boosted_members(pv.take(i as int), self.boosted@, tier),
                idxs(plain_v@) == plain_members(pv.take(i as int), self.boosted@, tier),
            decreases pool.len() - i,
        {
            proof {
                assert(pv.take(i + 1).drop_last() =~= pv.take(i as int));
                assert(pv.take(i + 1).last() == pv[i as int]);
            }
            if pool[i].rarity == tier {
                members.push(i);
                if self.id_boosted(pool[i].id) {
                    boosted_v.push(i);
                } else {
                    plain_v.push(i);
                }
            }
            proof {
                assert(idxs(members@) =~= tier_members(pv.take(i + 1), tier));
                assert(idxs(boosted_v@) =~= boosted_members(pv.take(i + 1), self.boosted@, tier));
                assert(idxs(plain_v@) =~= plain_members(pv.take(i + 1), self.boosted@, tier));
            }
            i = i + 1;
        }
        proof {
            assert(pv.take(pool.len() as int) =~= pv);
            lemma_tier_members_nonempty(pv, tier);
            lemma_tier_members_props(pv, tier);
            lemma_boosted_members_props(pv, self.boosted@, tier);
            lemma_plain_members_props(pv, self.boosted@, tier);
        }
        let chosen: &Vec<usize> = if boosted_v.len() > 0 && u_boost < self.boost {
            &boosted_v
        } else if plain_v.len() > 0 {
            &plain_v
        } else {
            &members
        };
        let len = chosen.len();
        let pick = (j % (len as u64)) as usize;
        chosen[pick]
    }
}

pub open spec fn idxs(s: Seq<usize>) -> Seq<int> {
    s.map_values(|x: usize| x as int)
}

// ---------------------------------------------------------------------------
// Recruitment engine: rarity model and priority pool over one character pool.
// ---------------------------------------------------------------------------

/// One recruitment configuration: the character pool, the tier weights, and
/// the boosted subset.
pub struct RecruitmentEngine {
    pub model: RarityModel,
    pub priority: PriorityPool,
    pub pool: Vec<Character>,
}

/// The mathematical shape of a [`RecruitmentEngine`].
#[verifier::ext_equal]
pub struct EngineView {
    pub pool: Seq<CharView>,
    pub model: RarityModel,
    pub boosted: Seq<u64>,
    pub boost: u32,
}

impl View for RecruitmentEngine {
    type V = EngineView;

    open spec fn view(&self) -> EngineView {
        EngineView {
            pool: views_of(self.pool@),
            model: self.model,
            boosted: self.priority.boosted@,
            boost: self.priority.boost,
        }
    }
}

pub open spec fn pool_valid(pool: Seq<CharView>, model: RarityModel) -> bool {
    &&& distinct_ids(pool)
    &&& (model.one > 0 ==> has_tier(pool, Rarity::One))
    &&& (model.two > 0 ==> has_tier(pool, Rarity::Two))
    &&& (model.three > 0 ==> has_tier(pool, Rarity::Three))
}

/// The construction invariants: weights sum to 100%, the boosted subset lies
/// inside the pool with a fraction of at most 100%, every tier of positive
/// weight has a member, and no two pool entries share an identity.
pub open spec fn engine_wf(v: EngineView) -> bool {
    &&& v.model.wf()
    &&& boost_valid(v.pool, v.boosted, v.boost)
    &&& pool_valid(v.pool, v.model)
}

/// The pool index that one draw with random values `(u_tier, u_boost, j)`
/// selects: `u_tier` picks the tier, then `u_boost` and `j` pick the member.
pub open spec fn select_index(v: EngineView, u_tier: u32, u_boost: u32, j: u64) -> int {
    member_index(v.pool, v.boosted, v.boost, tier_of(v.model, u_tier), u_boost, j)
}

pub open spec fn in_pool(v: EngineView, c: CharView) -> bool {
    exists|k: int| 0 <= k < v.pool.len() && v.pool[k] == c
}

fn contains_id(pool: &Vec<Character>, id: u64) -> (r: bool)
    ensures
        r == pool_has_id(views_of(pool@), id),
{
    let mut i: usize = 0;
    while i < pool.len()
        invariant
            i <= pool.len(),
            forall|k: int| 0 <= k < i ==> views_of(pool@)[k].id != id,
        decreases pool.len() - i,
    {
        if pool[i].id == id {
            proof {
                assert(views_of(pool@)[i as int].id == id);
            }
            return true;
        }
        i = i + 1;
    }
    false
}

fn has_rarity(pool: &Vec<Character>, tier: Rarity) -> (r: bool)
    ensures
        r == has_tier(views_of(pool@), tier),
{
    let mut i: usize = 0;
    while i < pool.len()
        invariant
            i <= pool.len(),
            forall|k: int| 0 <= k < i ==> views_of(pool@)[k].rarity != tier,
        decreases pool.len() - i,
    {
        if pool[i].rarity == tier {
            proof {
                assert(views_of(pool@)[i as int].rarity == tier);
            }
            return true;
        }
        i = i + 1;
    }
    false
}

fn all_ids_distinct(pool: &Vec<Character>) -> (r: bool)
    ensures
        r == distinct_ids(views_of(pool@)),
{
    let mut i: usize = 0;
    while i < pool.len()
        invariant
            i <= pool.len(),
            forall|a: int, b: int|
                0 <= a < i && 0 <= b < pool@.len() && a != b ==> views_of(pool@)[a].id != views_of(
                    pool@,
                )[b].id,
        decreases pool.len() - i,
    {
        let mut k: usize = 0;
        while k < pool.len()
            invariant
                i < pool.len(),
                k <= pool.len(),
                forall|b: int|
                    0 <= b < k && b != i ==> views_of(pool@)[i as int].id != views_of(pool@)[b].id,
            decreases pool.len() - k,
        {
            if k != i && pool[k].id == pool[i].id {
                proof {
                    assert(views_of(pool@)[k as int].id == views_of(pool@)[i as int].id);
                }
                return false;
            }
            k = k + 1;
        }
        i = i + 1;
    }
    true
}

impl RecruitmentEngine {
    /// Builds a validated engine.  Exactly one of the construction errors is
    /// returned when the parameters violate an invariant, checked in this
    /// order: the weights, then the boosted subset, then the pool's shape.
    pub fn new(
        pool: Vec<Character>,
        one: u32,
        two: u32,
        three: u32,
        boosted: Vec<u64>,
        boost: u32,
    ) -> (r: Result<RecruitmentEngine, RecruitError>)
        ensures
            match r {
                Ok(e) => {
                    &&& e@ == (EngineView {
                        pool: views_of(pool@),
                        model: RarityModel { one, two, three },
                        boosted: boosted@,
                        boost,
                    })
                    &&& engine_wf(e@)
                },
                Err(err) => {
                    &&& (err == RecruitError::InvalidWeights || err == RecruitError::InvalidBoost
                        || err == RecruitError::EmptyTierPool)
                    &&& (err == RecruitError::InvalidWeights <==> !weights_valid(one, two, three))
                    &&& (err == RecruitError::InvalidBoost <==> weights_valid(one, two, three)
                        && !boost_valid(views_of(pool@), boosted@, boost))
                    &&& (err == RecruitError::EmptyTierPool <==> weights_valid(one, two, three)
                        && boost_valid(views_of(pool@), boosted@, boost) && !pool_valid(
                        views_of(pool@),
                        RarityModel { one, two, three },
                    ))
                },
            },
    {
        let model = match RarityModel::new(one, two, three) {
            Ok(m) => m,
            Err(e) => {
                return Err(e);
            },
        };
        let priority = match PriorityPool::new(boosted, boost, &pool) {
            Ok(p) => p,
            Err(e) => {
                return Err(e);
            },
        };
        if !all_ids_distinct(&pool) {
            return Err(RecruitError::EmptyTierPool);
        }
        if model.one > 0 && !has_rarity(&pool, Rarity::One) {
            return Err(RecruitError::EmptyTierPool);
        }
        if model.two > 0 && !has_rarity(&pool, Rarity::Two) {
            return Err(RecruitError::EmptyTierPool);
        }
        if model.three > 0 && !has_rarity(&pool, Rarity::Three) {
            return Err(RecruitError::EmptyTierPool);
        }
        Ok(RecruitmentEngine { model, priority, pool })
    }

    /// The deterministic heart of one draw: maps the three random values to
    /// the selected pool index, exactly as `select_index` states.
    pub fn select(&self, u_tier: u32, u_boost: u32, j: u64) -> (idx: usize)
        requires
            engine_wf(self@),
            u_tier < SCALE,
        ensures
            idx == select_index(self@, u_tier, u_boost, j),
            idx < self.pool@.len(),
    {
        let tier = self.model.sample_tier(u_tier);
        self.priority.sample_member(&self.pool, tier, u_boost, j)
    }

    /// One independent draw: random values from the thread-local generator,
    /// then the deterministic selection.  Whatever the random values, the
    /// result is a pool member.
    pub fn sample_one(&self) -> (c: Character)
        requires
            engine_wf(self@),
        ensures
            in_pool(self@, c@),
    {
        let u_tier = rand_below(SCALE as u64) as u32;
        let u_boost = rand_below(SCALE as u64) as u32;
        let j = rand_below(u64::MAX);
        let idx = self.select(u_tier, u_boost, j);
        let c = self.pool[idx].clone();
        proof {
            assert(self@.pool[idx as int] == c@);
        }
        c
    }

    /// `n` independent draws with replacement, in draw order; no distinctness
    /// is promised, and none of an earlier draw's outcomes is excluded.
    pub fn sample_many(&self, n: usize) -> (cs: Vec<Character>)
        requires
            engine_wf(self@),
        ensures
            cs@.len() == n,
            forall|k: int| 0 <= k < n ==> in_pool(self@, #[trigger] cs@[k]@),
    {
        let mut cs: Vec<Character> = Vec::new();
        let mut i: usize = 0;
        while i < n
            invariant
                i <= n,
                engine_wf(self@),
                cs@.len() == i as int,
                forall|k: int| 0 <= k < i ==> in_pool(self@, #[trigger] cs@[k]@),
            decreases n - i,
        {
            cs.push(self.sample_one());
            i = i + 1;
        }
        cs
    }
}

// ---------------------------------------------------------------------------
// Laws of the sampling model.
// ---------------------------------------------------------------------------

/// The tiers partition the random range `[0, SCALE)` into three consecutive
/// half-open intervals whose lengths are the weights: no gap, no overlap,
/// and a tier of weight zero is never the outcome.
pub proof fn lemma_tier_intervals(model: RarityModel, u: u32)
    requires
        model.wf(),
        u < SCALE,
    ensures
        tier_of(model, u) == Rarity::One <==> u < model.one,
        tier_of(model, u) == Rarity::Two <==> model.one <= u < model.one + model.two,
        tier_of(model, u) == Rarity::Three <==> model.one + model.two <= u,
        tier_weight(model, tier_of(model, u)) > 0,
{
}

/// The defining contract of rate-up, for one draw within a tier: the drawn
/// member always belongs to the tier; when the tier has boosted members, the
/// boosted slice of the random range (`u_boost < boost`) lands the draw on a
/// boosted member and the rest of the range on a plain member; a tier with
/// no plain member falls back to its (entirely boosted) members, and a tier
/// with no boosted member always yields a plain one.
pub proof fn lemma_boost_partition(
    pool: Seq<CharView>,
    boosted: Seq<u64>,
    boost: u32,
    tier: Rarity,
    u_boost: u32,
    j: u64,
)
    requires
        has_tier(pool, tier),
    ensures
        ({
            let idx = member_index(pool, boosted, boost, tier, u_boost, j);
            let nb = boosted_members(pool, boosted, tier).len();
            let np = plain_members(pool, boosted, tier).len();
            &&& 0 <= idx < pool.len()
            &&& pool[idx].rarity == tier
            &&& nb > 0 && u_boost < boost ==> boosted.contains(pool[idx].id)
            &&& nb > 0 && u_boost >= boost && np > 0 ==> !boosted.contains(pool[idx].id)
            &&& nb == 0 ==> !boosted.contains(pool[idx].id)
            &&& np == 0 && nb > 0 ==> boosted.contains(pool[idx].id)
        }),
{
    lemma_tier_members_nonempty(pool, tier);
    lemma_members_split(pool, boosted, tier);
    lemma_tier_members_props(pool, tier);
    lemma_boosted_members_props(pool, boosted, tier);
    lemma_plain_members_props(pool, boosted, tier);
    let idx = member_index(pool, boosted, boost, tier, u_boost, j);
    let b = boosted_members(pool, boosted, tier);
    let p = plain_members(pool, boosted, tier);
    let m = tier_members(pool, tier);
    if b.len() > 0 && u_boost < boost {
    } else if p.len() > 0 {
    } else {
        assert(idx == m[j as int % m.len() as int]);
        if !boosted.contains(pool[idx].id) {
            lemma_plain_members_nonempty(pool, boosted, tier);
        }
    }
}

/// Idempotent construction: two engines built from identical parameters
/// have the same view — which `RecruitmentEngine::new` pins as a function of
/// the parameters — and therefore select the same pool index for every
/// triple of random values, so their draw distributions are identical.
pub proof fn lemma_idempotent_construction(
    e1: EngineView,
    e2: EngineView,
    pool: Seq<CharView>,
    model: RarityModel,
    boosted: Seq<u64>,
    boost: u32,
    u_tier: u32,
    u_boost: u32,
    j: u64,
)
    requires
        e1 == (EngineView { pool, model, boosted, boost }),
        e2 == (EngineView { pool, model, boosted, boost }),
    ensures
        select_index(e1, u_tier, u_boost, j) == select_index(e2, u_tier, u_boost, j),
{
}

} // verus!

