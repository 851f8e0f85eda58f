//! Block placements, derived ship stats, speed, and build time.
use vstd::prelude::*;
use crate::blocks::{block_stats, lemma_block_stats_bounds, spec_block_stats, BlockStats, BlockType, BUILD_RATE, SPEED_MAX};
use crate::validation::{count_kind, lemma_totals_by_kind};

verus! {

/// One placed block in a design grid: the input to all design math.
#[derive(Clone, Copy, Debug, PartialEq, Eq, Structural)]
pub struct BlockPlacement {
    pub x: i32,
    pub y: i32,
    pub z: i32,
    pub block_type: BlockType,
    pub rotation: u8,
}

impl BlockPlacement {
    /// A placement with rotation 0.
    pub fn new(x: i32, y: i32, z: i32, block_type: BlockType) -> (p: Self)
        ensures
            p == (BlockPlacement { x, y, z, block_type, rotation: 0 }),
    {
        BlockPlacement { x, y, z, block_type, rotation: 0 }
    }
}

/// One of the additive per-block stats.
pub enum Stat {
    MassHalves,
    Cost,
    Hp,
    Thrust,
    Attack,
    Power,
}

/// The value of stat `k` in a block's stats row.
pub open spec fn stat_value(s: BlockStats, k: Stat) -> int {
    match k {
        Stat::MassHalves => s.mass_halves as int,
        Stat::Cost => s.cost as int,
        Stat::Hp => s.hp as int,
        Stat::Thrust => s.thrust as int,
        Stat::Attack => s.attack as int,
        Stat::Power => s.power as int,
    }
}

/// The sum of stat `k` over all blocks of a design.
pub open spec fn total(blocks: Seq<BlockPlacement>, k: Stat) -> int
    decreases blocks.len(),
{
    if blocks.len() == 0 {
        0
    } else {
        total(blocks.drop_last(), k) + stat_value(spec_block_stats(blocks.last().block_type), k)
    }
}

/// Every running sum of every stat, over every prefix of the design, fits in an `i64`.
pub open spec fn sums_fit(blocks: Seq<BlockPlacement>) -> bool {
    forall|n: int, k: Stat|
        0 <= n <= blocks.len() ==> i64::MIN <= #[trigger] total(blocks.take(n), k) <= i64::MAX
}

/// A speed as the exact ratio `num / den` (distance units per tick), `den > 0`.
#[derive(Clone, Copy, Debug, PartialEq, Eq, Structural)]
pub struct Speed {
    pub num: i128,
    pub den: i128,
}

/// Speed is thrust over mass, capped at `SPEED_MAX`; a massless design does not move.
/// With mass counted in halves, thrust / mass is `2 * thrust / mass_halves`.
pub open spec fn spec_speed(thrust: int, mass_halves: int) -> (int, int) {
    if mass_halves > 0 {
        if 2 * thrust <= SPEED_MAX * mass_halves {
            (2 * thrust, mass_halves)
        } else {
            (SPEED_MAX as int, 1)
        }
    } else {
        (0, 1)
    }
}

/// The speed is the thrust over the mass (`2 * thrust / mass_halves`),
/// capped at 20 units per tick, and zero for a massless design.
pub proof fn lemma_speed_is_capped_thrust_over_mass(thrust: int, mass_halves: int)
    requires
        thrust >= 0,
    ensures
        ({
            let (num, den) = spec_speed(thrust, mass_halves);
            &&& den > 0
            &&& mass_halves > 0 && 2 * thrust <= 20 * mass_halves ==> num * mass_halves == 2 * thrust * den
            &&& mass_halves > 0 && 2 * thrust > 20 * mass_halves ==> num == 20 * den
            &&& mass_halves <= 0 ==> num == 0
            &&& num <= 20 * den
        }),
{
    let (num, den) = spec_speed(thrust, mass_halves);
    if mass_halves > 0 && 2 * thrust <= 20 * mass_halves {
        assert(num * mass_halves == 2 * thrust * den) by (nonlinear_arith)
            requires
                num == 2 * thrust,
                den == mass_halves,
        ;
    }
}

/// Aggregate stats of a whole design.
#[derive(Clone, Copy, Debug, PartialEq, Eq, Structural)]
pub struct ShipStats {
    pub mass_halves: i64,
    pub cost: i64,
    pub max_hp: i64,
    pub thrust: i64,
    pub attack: i64,
    pub power: i64,
    pub speed: Speed,
    pub block_count: i32,
}

/// The stats `ship_stats` derives from a design.
pub open spec fn stats_match(s: ShipStats, blocks: Seq<BlockPlacement>) -> bool {
    &&& s.mass_halves == total(blocks, Stat::MassHalves)
    &&& s.cost == total(blocks, Stat::Cost)
    &&& s.max_hp == total(blocks, Stat::Hp)
    &&& s.thrust == total(blocks, Stat::Thrust)
    &&& s.attack == total(blocks, Stat::Attack)
    &&& s.power == total(blocks, Stat::Power)
    &&& (s.speed.num as int, s.speed.den as int) == spec_speed(s.thrust as int, s.mass_halves as int)
    &&& s.block_count == blocks.len() as i32
}

/// Extending a prefix by one block adds that block's stat to the total.
pub proof fn lemma_total_take_succ(blocks: Seq<BlockPlacement>, i: int, k: Stat)
    requires
        0 <= i < blocks.len(),
    ensures
        total(blocks.take(i + 1), k) == total(blocks.take(i), k) + stat_value(
            spec_block_stats(blocks[i].block_type),
            k,
        ),
{
    assert(blocks.take(i + 1).drop_last() =~= blocks.take(i));
}

proof fn lemma_total_remove(s: Seq<BlockPlacement>, j: int, k: Stat)
    requires
        0 <= j < s.len(),
    ensures
        total(s, k) == total(s.remove(j), k) + stat_value(spec_block_stats(s[j].block_type), k),
    decreases s.len(),
{
    if j == s.len() - 1 {
        assert(s.remove(j) =~= s.drop_last());
    } else {
        let d = s.drop_last();
        lemma_total_remove(d, j, k);
        assert(s.remove(j).drop_last() =~= d.remove(j));
        assert(s.remove(j).last() == s.last());
    }
}

/// Stat totals do not depend on the order of the blocks: reordering a design
/// leaves every total unchanged.
pub proof fn lemma_total_order_independent(a: Seq<BlockPlacement>, b: Seq<BlockPlacement>, k: Stat)
    requires
        a.to_multiset() == b.to_multiset(),
    ensures
        total(a, k) == total(b, k),
    decreases a.len(),
{
    broadcast use {vstd::seq_lib::group_to_multiset_ensures, vstd::multiset::group_multiset_axioms};

    assert(a.to_multiset().len() == a.len());
    assert(b.to_multiset().len() == b.len());
    if a.len() == 0 {
        assert(b.len() == 0);
    } else {
        let x = a.last();
        assert(a =~= a.drop_last().push(x));
        assert(a.to_multiset().count(x) > 0);
        assert(b.contains(x));
        let j = choose|j: int| 0 <= j < b.len() && b[j] == x;
        lemma_total_remove(b, j, k);
        assert(b.remove(j).to_multiset() =~= b.to_multiset().remove(x));
        assert(a.drop_last().to_multiset() =~= a.to_multiset().remove(x));
        lemma_total_order_independent(a.drop_last(), b.remove(j), k);
    }
}

/// Each block adds between -8 and 100 to any stat, so a total stays within
/// those bounds times the number of blocks.
pub proof fn lemma_total_bounded(blocks: Seq<BlockPlacement>, k: Stat)
    ensures
        -8 * blocks.len() <= total(blocks, k) <= 100 * blocks.len(),
    decreases blocks.len(),
{
    if blocks.len() > 0 {
        lemma_total_bounded(blocks.drop_last(), k);
        lemma_block_stats_bounds(blocks.last().block_type);
    }
}

/// Stats that only grow (all but power) stay non-negative and grow with the prefix.
proof fn lemma_total_nonneg(blocks: Seq<BlockPlacement>, k: Stat)
    requires
        !(k is Power),
    ensures
        total(blocks, k) >= 0,
    decreases blocks.len(),
{
    if blocks.len() > 0 {
        lemma_total_nonneg(blocks.drop_last(), k);
        lemma_block_stats_bounds(blocks.last().block_type);
    }
}

/// The stat `k` of a block's stats row, as an `i64`.
fn stat_of(s: BlockStats, k: &Stat) -> (v: i64)
    ensures
        v == stat_value(s, *k),
{
    match k {
        Stat::MassHalves => s.mass_halves,
        Stat::Cost => s.cost,
        Stat::Hp => s.hp,
        Stat::Thrust => s.thrust,
        Stat::Attack => s.attack,
        Stat::Power => s.power,
    }
}

/// Every running sum of stat `k` over a prefix of the design fits in an `i64`.
pub open spec fn stat_fits(blocks: Seq<BlockPlacement>, k: Stat) -> bool {
    forall|n: int|
        0 <= n <= blocks.len() ==> i64::MIN <= #[trigger] total(blocks.take(n), k) <= i64::MAX
}

/// Whether every running sum of stat `k` over a prefix of the design fits in an `i64`.
pub fn stat_sums_fit(blocks: &[BlockPlacement], k: Stat) -> (b: bool)
    ensures
        b == stat_fits(blocks@, k),
{
    let mut acc: i64 = 0;
    let mut i: usize = 0;
    proof {
        assert(blocks@.take(0) =~= Seq::<BlockPlacement>::empty());
    }
    while i < blocks.len()
        invariant
            0 <= i <= blocks@.len(),
            acc == total(blocks@.take(i as int), k),
            forall|n: int|
                0 <= n <= i ==> i64::MIN <= #[trigger] total(blocks@.take(n), k) <= i64::MAX,
        decreases blocks@.len() - i,
    {
        let v = stat_of(block_stats(blocks[i].block_type), &k);
        proof {
            lemma_total_take_succ(blocks@, i as int, k);
        }
        let next: i128 = acc as i128 + v as i128;
        if next < i64::MIN as i128 || next > i64::MAX as i128 {
            proof {
                assert(!(i64::MIN <= total(blocks@.take(i + 1), k) <= i64::MAX));
            }
            return false;
        }
        acc = next as i64;
        i = i + 1;
    }
    true
}

/// Whether `ship_stats` may run on the design: every running stat sum fits in an `i64`.
pub fn stats_fit(blocks: &[BlockPlacement]) -> (b: bool)
    ensures
        b == sums_fit(blocks@),
{
    let r = stat_sums_fit(blocks, Stat::MassHalves) && stat_sums_fit(blocks, Stat::Cost)
        && stat_sums_fit(blocks, Stat::Hp) && stat_sums_fit(blocks, Stat::Thrust)
        && stat_sums_fit(blocks, Stat::Attack) && stat_sums_fit(blocks, Stat::Power);
    proof {
        if r {
            assert forall|n: int, k: Stat|
                0 <= n <= blocks@.len() implies i64::MIN <= #[trigger] total(blocks@.take(n), k) <= i64::MAX by {
                match k {
                    Stat::MassHalves => assert(stat_fits(blocks@, Stat::MassHalves)),
                    Stat::Cost => assert(stat_fits(blocks@, Stat::Cost)),
                    Stat::Hp => assert(stat_fits(blocks@, Stat::Hp)),
                    Stat::Thrust => assert(stat_fits(blocks@, Stat::Thrust)),
                    Stat::Attack => assert(stat_fits(blocks@, Stat::Attack)),
                    Stat::Power => assert(stat_fits(blocks@, Stat::Power)),
                }
            }
        } else {
            if sums_fit(blocks@) {
                assert(stat_fits(blocks@, Stat::MassHalves));
                assert(stat_fits(blocks@, Stat::Cost));
                assert(stat_fits(blocks@, Stat::Hp));
                assert(stat_fits(blocks@, Stat::Thrust));
                assert(stat_fits(blocks@, Stat::Attack));
                assert(stat_fits(blocks@, Stat::Power));
            }
        }
    }
    r
}

/// Sum the per-block contributions and derive the capped speed.
pub fn ship_stats(blocks: &[BlockPlacement]) -> (s: ShipStats)
    requires
        sums_fit(blocks@),
    ensures
        stats_match(s, blocks@),
        s.speed.den > 0,
        0 <= s.speed.num <= SPEED_MAX * s.speed.den,
        s.thrust == 10 * count_kind(blocks@, BlockType::Engine),
        s.attack == 10 * count_kind(blocks@, BlockType::Weapon),
        count_kind(blocks@, BlockType::Reactor) == 0 ==> s.power <= 0,
        s.mass_halves > 0 && 2 * s.thrust <= 20 * s.mass_halves ==> s.speed.num * s.mass_halves == 2 * s.thrust
            * s.speed.den,
        s.mass_halves > 0 && 2 * s.thrust > 20 * s.mass_halves ==> s.speed.num == 20 * s.speed.den,
{
    let mut mass_halves: i64 = 0;
    let mut cost: i64 = 0;
    let mut max_hp: i64 = 0;
    let mut thrust: i64 = 0;
    let mut attack: i64 = 0;
    let mut power: i64 = 0;
    let n = blocks.len();
    let mut i: usize = 0;
    while i < n
        invariant
            n == blocks@.len(),
            0 <= i <= n,
            sums_fit(blocks@),
            mass_halves == total(blocks@.take(i as int), Stat::MassHalves),
            cost == total(blocks@.take(i as int), Stat::Cost),
            max_hp == total(blocks@.take(i as int), Stat::Hp),
            thrust == total(blocks@.take(i as int), Stat::Thrust),
            attack == total(blocks@.take(i as int), Stat::Attack),
            power == total(blocks@.take(i as int), Stat::Power),
        decreases n - i,
    {
        let bs = block_stats(blocks[i].block_type);
        proof {
            lemma_total_take_succ(blocks@, i as int, Stat::MassHalves);
            lemma_total_take_succ(blocks@, i as int, Stat::Cost);
            lemma_total_take_succ(blocks@, i as int, Stat::Hp);
            lemma_total_take_succ(blocks@, i as int, Stat::Thrust);
            lemma_total_take_succ(blocks@, i as int, Stat::Attack);
            lemma_total_take_succ(blocks@, i as int, Stat::Power);
            assert(i64::MIN <= total(blocks@.take(i + 1), Stat::MassHalves) <= i64::MAX);
            assert(i64::MIN <= total(blocks@.take(i + 1), Stat::Cost) <= i64::MAX);
            assert(i64::MIN <= total(blocks@.take(i + 1), Stat::Hp) <= i64::MAX);
            assert(i64::MIN <= total(blocks@.take(i + 1), Stat::Thrust) <= i64::MAX);
            assert(i64::MIN <= total(blocks@.take(i + 1), Stat::Attack) <= i64::MAX);
            assert(i64::MIN <= total(blocks@.take(i + 1), Stat::Power) <= i64::MAX);
        }
        mass_halves = mass_halves + bs.mass_halves;
        cost = cost + bs.cost;
        max_hp = max_hp + bs.hp;
        thrust = thrust + bs.thrust;
        attack = attack + bs.attack;
        power = power + bs.power;
        i = i + 1;
    }
    proof {
        assert(blocks@.take(n as int) =~= blocks@);
        lemma_total_nonneg(blocks@, Stat::Thrust);
        lemma_totals_by_kind(blocks@);
        lemma_speed_is_capped_thrust_over_mass(thrust as int, mass_halves as int);
    }
    let speed = speed_of(thrust, mass_halves);
    ShipStats {
        mass_halves,
        cost,
        max_hp,
        thrust,
        attack,
        power,
        speed,
        block_count: blocks.len() as i32,
    }
}

/// Thrust over mass (mass in halves), capped at `SPEED_MAX`; zero when massless.
pub fn speed_of(thrust: i64, mass_halves: i64) -> (v: Speed)
    requires
        thrust >= 0,
    ensures
        (v.num as int, v.den as int) == spec_speed(thrust as int, mass_halves as int),
        v.den > 0,
        0 <= v.num,
        v.num <= SPEED_MAX * v.den,
{
    if mass_halves > 0 {
        let doubled: i128 = (thrust as i128) * 2;
        let cap: i128 = (mass_halves as i128) * 20;
        if doubled <= cap {
            Speed { num: doubled, den: mass_halves as i128 }
        } else {
            Speed { num: SPEED_MAX as i128, den: 1 }
        }
    } else {
        Speed { num: 0, den: 1 }
    }
}

/// `max(1, ceil(cost / BUILD_RATE))`: the ticks needed to build a design.
pub open spec fn spec_build_ticks(cost: int) -> int {
    if cost <= 0 {
        1
    } else {
        (cost + BUILD_RATE - 1) / (BUILD_RATE as int)
    }
}

/// Number of ticks to build a design of the given cost.
pub fn build_ticks(cost: i64) -> (t: u64)
    requires
        cost + BUILD_RATE <= i64::MAX,
    ensures
        t == spec_build_ticks(cost as int),
        t >= 1,
        cost > 0 ==> (t - 1) * BUILD_RATE < cost <= t * BUILD_RATE,
{
    let ticks = (cost + BUILD_RATE - 1) / BUILD_RATE;
    if ticks < 1 {
        1
    } else {
        ticks as u64
    }
}

} // verus!
