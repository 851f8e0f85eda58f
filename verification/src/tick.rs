//! The simulation tick: the economy phase and the clock/seed advance.
use vstd::prelude::*;
use crate::world::{Faction, GameState, Planet};
use vstd::string::StringExecFns;

verus! {

const SPLITMIX_GAMMA: u64 = 0x9E37_79B9_7F4A_7C15;
const SPLITMIX_M1: u64 = 0xBF58_476D_1CE4_E5B9;
const SPLITMIX_M2: u64 = 0x94D0_49BB_1331_11EB;

/// One SplitMix64 step: add the golden-ratio gamma, then two xor-shift-multiply
/// rounds and a final xor-shift, all modulo 2^64.
pub open spec fn spec_splitmix64(seed: u64) -> u64 {
    let z0 = seed.wrapping_add(0x9E37_79B9_7F4A_7C15u64);
    let z1 = (z0 ^ (z0 >> 30u64)).wrapping_mul(0xBF58_476D_1CE4_E5B9u64);
    let z2 = (z1 ^ (z1 >> 27u64)).wrapping_mul(0x94D0_49BB_1331_11EBu64);
    z2 ^ (z2 >> 31u64)
}

/// The inverse of the first multiplier: `M1 * M1_INV == 1` modulo 2^64.
pub open spec fn spec_m1_inv() -> u64 {
    0x96DE_1B17_3F11_9089u64
}

/// The inverse of the second multiplier: `M2 * M2_INV == 1` modulo 2^64.
pub open spec fn spec_m2_inv() -> u64 {
    0x3196_42B2_D24D_8EC3u64
}

/// The inverse of one SplitMix64 step: undo the final xor-shift, each
/// multiply (by the inverse multiplier), each xor-shift, then the gamma.
pub open spec fn spec_unmix64(r: u64) -> u64 {
    let z2 = r ^ (r >> 31u64) ^ (r >> 62u64);
    let y1 = z2.wrapping_mul(spec_m2_inv());
    let z1 = y1 ^ (y1 >> 27u64) ^ (y1 >> 54u64);
    let y0 = z1.wrapping_mul(spec_m1_inv());
    let z0 = y0 ^ (y0 >> 30u64) ^ (y0 >> 60u64);
    z0.wrapping_sub(0x9E37_79B9_7F4A_7C15u64)
}

proof fn lemma_unshift31(x: u64)
    ensures
        ({
            let y = x ^ (x >> 31u64);
            y ^ (y >> 31u64) ^ (y >> 62u64)
        }) == x,
{
    assert(({
        let y = x ^ (x >> 31u64);
        y ^ (y >> 31u64) ^ (y >> 62u64)
    }) == x) by (bit_vector);
}

proof fn lemma_unshift27(x: u64)
    ensures
        ({
            let y = x ^ (x >> 27u64);
            y ^ (y >> 27u64) ^ (y >> 54u64)
        }) == x,
{
    assert(({
        let y = x ^ (x >> 27u64);
        y ^ (y >> 27u64) ^ (y >> 54u64)
    }) == x) by (bit_vector);
}

proof fn lemma_unshift30(x: u64)
    ensures
        ({
            let y = x ^ (x >> 30u64);
            y ^ (y >> 30u64) ^ (y >> 60u64)
        }) == x,
{
    assert(({
        let y = x ^ (x >> 30u64);
        y ^ (y >> 30u64) ^ (y >> 60u64)
    }) == x) by (bit_vector);
}

/// Multiplying by `m` and then by its inverse modulo 2^64 gives back `x`.
proof fn lemma_unmultiply(x: u64, m: u64, minv: u64)
    requires
        (m as int * minv as int) % 0x1_0000_0000_0000_0000int == 1,
    ensures
        x.wrapping_mul(m).wrapping_mul(minv) == x,
{
    let n: int = 0x1_0000_0000_0000_0000int;
    let a: int = (x as int * m as int) % n;
    assert(x.wrapping_mul(m) as int == a);
    vstd::arithmetic::div_mod::lemma_mul_mod_noop_left(x as int * m as int, minv as int, n);
    assert((a * minv as int) % n == (x as int * m as int * minv as int) % n);
    vstd::arithmetic::mul::lemma_mul_is_associative(x as int, m as int, minv as int);
    let q: int = (m as int * minv as int) / n;
    assert(m as int * minv as int == q * n + 1) by {
        vstd::arithmetic::div_mod::lemma_fundamental_div_mod(m as int * minv as int, n);
    }
    assert(x as int * (m as int * minv as int) == n * (x as int * q) + x as int) by (nonlinear_arith)
        requires
            m as int * minv as int == q * n + 1,
    ;
    vstd::arithmetic::div_mod::lemma_mod_multiples_vanish(x as int * q, x as int, n);
    vstd::arithmetic::div_mod::lemma_small_mod(x as nat, n as nat);
    assert(x.wrapping_mul(m).wrapping_mul(minv) as int == (a * minv as int) % n);
}

/// One SplitMix64 step can be undone: `spec_unmix64` recovers the seed.
pub proof fn lemma_splitmix64_invertible(seed: u64)
    ensures
        spec_unmix64(spec_splitmix64(seed)) == seed,
{
    let z0 = seed.wrapping_add(0x9E37_79B9_7F4A_7C15u64);
    let y0 = (z0 ^ (z0 >> 30u64));
    let z1 = y0.wrapping_mul(0xBF58_476D_1CE4_E5B9u64);
    let y1 = (z1 ^ (z1 >> 27u64));
    let z2 = y1.wrapping_mul(0x94D0_49BB_1331_11EBu64);
    let r = z2 ^ (z2 >> 31u64);
    assert(r == spec_splitmix64(seed));
    lemma_unshift31(z2);
    assert((0xBF58_476D_1CE4_E5B9int * 0x96DE_1B17_3F11_9089int) % 0x1_0000_0000_0000_0000int == 1);
    assert((0x94D0_49BB_1331_11EBint * 0x3196_42B2_D24D_8EC3int) % 0x1_0000_0000_0000_0000int == 1);
    lemma_unmultiply(y1, 0x94D0_49BB_1331_11EBu64, spec_m2_inv());
    lemma_unshift27(z1);
    lemma_unmultiply(y0, 0xBF58_476D_1CE4_E5B9u64, spec_m1_inv());
    lemma_unshift30(z0);
}

/// Distinct seeds step to distinct seeds: the seed sequence never merges.
pub proof fn lemma_splitmix64_injective(a: u64, b: u64)
    ensures
        spec_splitmix64(a) == spec_splitmix64(b) ==> a == b,
{
    lemma_splitmix64_invertible(a);
    lemma_splitmix64_invertible(b);
}

/// Deterministic PRNG step (SplitMix64) that advances the persisted seed.
pub fn splitmix64(seed: u64) -> (r: u64)
    ensures
        r == spec_splitmix64(seed),
{
    let mut z = seed.wrapping_add(SPLITMIX_GAMMA);
    z = (z ^ (z >> 30)).wrapping_mul(SPLITMIX_M1);
    z = (z ^ (z >> 27)).wrapping_mul(SPLITMIX_M2);
    z ^ (z >> 31)
}


/// A faction resource that planets produce.
pub enum Resource {
    Minerals,
    Energy,
    Research,
}

/// What planet `p` yields of resource `r` each tick.
pub open spec fn output_of(p: Planet, r: Resource) -> int {
    match r {
        Resource::Minerals => p.minerals_output as int,
        Resource::Energy => p.energy_output as int,
        Resource::Research => p.research_output as int,
    }
}

/// How much of resource `r` faction `f` holds.
pub open spec fn stock_of(f: Faction, r: Resource) -> int {
    match r {
        Resource::Minerals => f.minerals as int,
        Resource::Energy => f.energy as int,
        Resource::Research => f.research as int,
    }
}

/// The total yield of resource `r` of the planets that faction `fid` owns.
pub open spec fn owned_output(planets: Seq<Planet>, fid: u64, r: Resource) -> int
    decreases planets.len(),
{
    if planets.len() == 0 {
        0
    } else {
        owned_output(planets.drop_last(), fid, r) + if planets.last().owner_faction_id == Some(
            fid,
        ) {
            output_of(planets.last(), r)
        } else {
            0
        }
    }
}

/// Whether a planet is owned by faction `fid`.
pub open spec fn owned_by(fid: u64) -> spec_fn(Planet) -> bool {
    |p: Planet| p.owner_faction_id == Some(fid)
}

/// A faction's yield is the sum, over exactly the planets it owns, of their
/// mineral, energy and research outputs respectively; unowned planets and
/// other factions' planets add nothing.
pub proof fn lemma_owned_output_sums_owned_planets(planets: Seq<Planet>, fid: u64)
    ensures
        owned_output(planets, fid, Resource::Minerals) == planets.filter(owned_by(fid)).fold_left(
            0int,
            |acc: int, p: Planet| acc + p.minerals_output as int,
        ),
        owned_output(planets, fid, Resource::Energy) == planets.filter(owned_by(fid)).fold_left(
            0int,
            |acc: int, p: Planet| acc + p.energy_output as int,
        ),
        owned_output(planets, fid, Resource::Research) == planets.filter(owned_by(fid)).fold_left(
            0int,
            |acc: int, p: Planet| acc + p.research_output as int,
        ),
    decreases planets.len(),
{
    reveal(Seq::filter);
    if planets.len() > 0 {
        lemma_owned_output_sums_owned_planets(planets.drop_last(), fid);
        let f = planets.drop_last().filter(owned_by(fid));
        if planets.last().owner_faction_id == Some(fid) {
            assert(planets.filter(owned_by(fid)) == f.push(planets.last()));
            assert(f.push(planets.last()).drop_last() =~= f);
        } else {
            assert(planets.filter(owned_by(fid)) == f);
        }
    }
}

/// No two factions share an id.
pub open spec fn ids_unique(factions: Seq<Faction>) -> bool {
    forall|i: int, j: int|
        0 <= i < factions.len() && 0 <= j < factions.len() && i != j ==> #[trigger] factions[i].id
            != #[trigger] factions[j].id
}

/// Crediting planets to their owners one by one, in order, never leaves the
/// `i64` range.
pub open spec fn economy_fits(factions: Seq<Faction>, planets: Seq<Planet>) -> bool {
    forall|n: int, i: int, r: Resource|
        0 <= n <= planets.len() && 0 <= i < factions.len() ==> i64::MIN <= stock_of(factions[i], r)
            + #[trigger] owned_output(planets.take(n), #[trigger] factions[i].id, r) <= i64::MAX
}

/// `after` is `before` credited with the yield of the planets it owns.
pub open spec fn credited(before: Faction, after: Faction, planets: Seq<Planet>) -> bool {
    &&& after.id == before.id
    &&& after.name == before.name
    &&& after.is_ai == before.is_ai
    &&& after.home_system_id == before.home_system_id
    &&& after.minerals == before.minerals + owned_output(planets, before.id, Resource::Minerals)
    &&& after.energy == before.energy + owned_output(planets, before.id, Resource::Energy)
    &&& after.research == before.research + owned_output(planets, before.id, Resource::Research)
}

proof fn lemma_owned_output_take_succ(planets: Seq<Planet>, k: int, fid: u64, r: Resource)
    requires
        0 <= k < planets.len(),
    ensures
        owned_output(planets.take(k + 1), fid, r) == owned_output(planets.take(k), fid, r) + if planets[k].owner_faction_id
            == Some(fid) {
            output_of(planets[k], r)
        } else {
            0
        },
{
    assert(planets.take(k + 1).drop_last() =~= planets.take(k));
}

/// The stock of resource `r` of faction `f`, as an `i64`.
fn stock(f: &Faction, r: &Resource) -> (v: i64)
    ensures
        v == stock_of(*f, *r),
{
    match r {
        Resource::Minerals => f.minerals,
        Resource::Energy => f.energy,
        Resource::Research => f.research,
    }
}

/// The yield of resource `r` of planet `p`, as an `i64`.
fn output(p: &Planet, r: &Resource) -> (v: i64)
    ensures
        v == output_of(*p, *r),
{
    match r {
        Resource::Minerals => p.minerals_output,
        Resource::Energy => p.energy_output,
        Resource::Research => p.research_output,
    }
}

/// Crediting faction `f` with resource `r`, planet by planet, stays in range.
pub open spec fn credit_fits(f: Faction, planets: Seq<Planet>, r: Resource) -> bool {
    forall|n: int|
        0 <= n <= planets.len() ==> i64::MIN <= stock_of(f, r) + #[trigger] owned_output(
            planets.take(n),
            f.id,
            r,
        ) <= i64::MAX
}

fn credit_fits_check(f: &Faction, planets: &Vec<Planet>, r: Resource) -> (b: bool)
    ensures
        b == credit_fits(*f, planets@, r),
{
    let mut acc: i64 = stock(f, &r);
    let mut k: usize = 0;
    proof {
        assert(planets@.take(0) =~= Seq::<Planet>::empty());
    }
    while k < planets.len()
        invariant
            0 <= k <= planets@.len(),
            acc == stock_of(*f, r) + owned_output(planets@.take(k as int), f.id, r),
            forall|n: int|
                0 <= n <= k ==> i64::MIN <= stock_of(*f, r) + #[trigger] owned_output(
                    planets@.take(n),
                    f.id,
                    r,
                ) <= i64::MAX,
        decreases planets@.len() - k,
    {
        proof {
            lemma_owned_output_take_succ(planets@, k as int, f.id, r);
        }
        if planets[k].owner_faction_id == Some(f.id) {
            let next: i128 = acc as i128 + output(&planets[k], &r) as i128;
            if next < i64::MIN as i128 || next > i64::MAX as i128 {
                proof {
                    let _ = owned_output(planets@.take(k + 1), f.id, r);
                }
                return false;
            }
            acc = next as i64;
        }
        k = k + 1;
    }
    true
}

/// Whether the economy phase may run: crediting every faction, planet by
/// planet, never leaves the `i64` range.
pub fn economy_in_range(factions: &Vec<Faction>, planets: &Vec<Planet>) -> (b: bool)
    ensures
        b == economy_fits(factions@, planets@),
{
    let mut i: usize = 0;
    while i < factions.len()
        invariant
            0 <= i <= factions@.len(),
            forall|j: int, r: Resource|
                0 <= j < i ==> #[trigger] credit_fits(factions@[j], planets@, r),
        decreases factions@.len() - i,
    {
        let ok = credit_fits_check(&factions[i], planets, Resource::Minerals) && credit_fits_check(
            &factions[i],
            planets,
            Resource::Energy,
        ) && credit_fits_check(&factions[i], planets, Resource::Research);
        if !ok {
            proof {
                if economy_fits(factions@, planets@) {
                    assert forall|r: Resource| #[trigger] credit_fits(factions@[i as int], planets@, r) by {
                        assert forall|n: int| 0 <= n <= planets@.len() implies i64::MIN <= stock_of(factions@[i as int], r) + #[trigger] owned_output(
                            planets@.take(n),
                            factions@[i as int].id,
                            r,
                        ) <= i64::MAX by {
                        }
                    }
                    assert(credit_fits(factions@[i as int], planets@, Resource::Minerals));
                    assert(credit_fits(factions@[i as int], planets@, Resource::Energy));
                    assert(credit_fits(factions@[i as int], planets@, Resource::Research));
                }
            }
            return false;
        }
        proof {
            assert forall|j: int, r: Resource| 0 <= j < i + 1 implies #[trigger] credit_fits(factions@[j], planets@, r) by {
                if j == i {
                    match r {
                        Resource::Minerals => {},
                        Resource::Energy => {},
                        Resource::Research => {},
                    }
                }
            }
        }
        i = i + 1;
    }
    proof {
        assert forall|n: int, i: int, r: Resource|
            0 <= n <= planets@.len() && 0 <= i < factions@.len() implies i64::MIN <= stock_of(factions@[i], r)
                + #[trigger] owned_output(planets@.take(n), #[trigger] factions@[i].id, r) <= i64::MAX by {
            assert(credit_fits(factions@[i], planets@, r));
        }
    }
    true
}

proof fn lemma_owned_output_remove(s: Seq<Planet>, j: int, fid: u64, r: Resource)
    requires
        0 <= j < s.len(),
    ensures
        owned_output(s, fid, r) == owned_output(s.remove(j), fid, r) + if s[j].owner_faction_id
            == Some(fid) {
            output_of(s[j], r)
        } else {
            0
        },
    decreases s.len(),
{
    if j == s.len() - 1 {
        assert(s.remove(j) =~= s.drop_last());
    } else {
        let d = s.drop_last();
        lemma_owned_output_remove(d, j, fid, r);
        assert(s.remove(j).drop_last() =~= d.remove(j));
        assert(s.remove(j).last() == s.last());
    }
}

/// The economy does not depend on the order in which planets are visited:
/// any reordering of the planets credits every faction with the same amount.
pub proof fn lemma_economy_order_independent(a: Seq<Planet>, b: Seq<Planet>, fid: u64, r: Resource)
    requires
        a.to_multiset() == b.to_multiset(),
    ensures
        owned_output(a, fid, r) == owned_output(b, fid, r),
    decreases a.len(),
{
    broadcast use {vstd::seq_lib::group_to_multiset_ensures, vstd::multiset::group_multiset_axioms};

    assert(a.to_multiset().len() == a.len());
    assert(b.to_multiset().len() == b.len());
    if a.len() > 0 {
        let x = a.last();
        assert(a =~= a.drop_last().push(x));
        assert(a.to_multiset().count(x) > 0);
        assert(b.contains(x));
        let j = choose|j: int| 0 <= j < b.len() && b[j] == x;
        lemma_owned_output_remove(b, j, fid, r);
        assert(b.remove(j).to_multiset() =~= b.to_multiset().remove(x));
        assert(a.drop_last().to_multiset() =~= a.to_multiset().remove(x));
        lemma_economy_order_independent(a.drop_last(), b.remove(j), fid, r);
    }
}

/// The index of the faction with id `id`, if any.
pub fn find_faction(factions: &Vec<Faction>, id: u64) -> (r: Option<usize>)
    ensures
        match r {
            Some(i) => i < factions@.len() && factions@[i as int].id == id,
            None => forall|i: int| 0 <= i < factions@.len() ==> factions@[i].id != id,
        },
{
    let mut i: usize = 0;
    while i < factions.len()
        invariant
            0 <= i <= factions@.len(),
            forall|j: int| 0 <= j < i ==> factions@[j].id != id,
        decreases factions@.len() - i,
    {
        if factions[i].id == id {
            return Some(i);
        }
        i = i + 1;
    }
    None
}

/// ECONOMY: each owned planet adds its output to its owner faction's stock.
pub fn economy_phase(planets: &Vec<Planet>, factions: &mut Vec<Faction>)
    requires
        ids_unique(old(factions)@),
        economy_fits(old(factions)@, planets@),
    ensures
        final(factions)@.len() == old(factions)@.len(),
        forall|i: int|
            0 <= i < old(factions)@.len() ==> credited(
                #[trigger] old(factions)@[i],
                final(factions)@[i],
                planets@,
            ),
{
    let ghost start = factions@;
    let mut k: usize = 0;
    while k < planets.len()
        invariant
            0 <= k <= planets@.len(),
            factions@.len() == start.len(),
            ids_unique(start),
            economy_fits(start, planets@),
            forall|i: int|
                0 <= i < start.len() ==> credited(
                    #[trigger] start[i],
                    factions@[i],
                    planets@.take(k as int),
                ),
        decreases planets@.len() - k,
    {
        let p = planets[k];
        proof {
            assert forall|i: int, r: Resource| 0 <= i < start.len() implies #[trigger] owned_output(
                planets@.take(k + 1),
                start[i].id,
                r,
            ) == owned_output(planets@.take(k as int), start[i].id, r) + if p.owner_faction_id
                == Some(start[i].id) {
                output_of(p, r)
            } else {
                0
            } by {
                lemma_owned_output_take_succ(planets@, k as int, start[i].id, r);
            }
        }
        match p.owner_faction_id {
            Some(owner) => {
                match find_faction(factions, owner) {
                    Some(i) => {
                        proof {
                            assert(credited(start[i as int], factions@[i as int], planets@.take(k as int)));
                            assert(factions@[i as int].id == start[i as int].id);
                            assert(i64::MIN <= stock_of(start[i as int], Resource::Minerals) + owned_output(planets@.take(k + 1), start[i as int].id, Resource::Minerals) <= i64::MAX);
                            assert(i64::MIN <= stock_of(start[i as int], Resource::Energy) + owned_output(planets@.take(k + 1), start[i as int].id, Resource::Energy) <= i64::MAX);
                            assert(i64::MIN <= stock_of(start[i as int], Resource::Research) + owned_output(planets@.take(k + 1), start[i as int].id, Resource::Research) <= i64::MAX);
                        }
                        let minerals = factions[i].minerals + p.minerals_output;
                        let energy = factions[i].energy + p.energy_output;
                        let research = factions[i].research + p.research_output;
                        factions[i].minerals = minerals;
                        factions[i].energy = energy;
                        factions[i].research = research;
                    },
                    None => {},
                }
            },
            None => {},
        }
        proof {
            assert forall|i: int|
                0 <= i < start.len() implies credited(
                #[trigger] start[i],
                factions@[i],
                planets@.take(k + 1),
            ) by {
                let _ = owned_output(planets@.take(k + 1), start[i].id, Resource::Minerals);
                let _ = owned_output(planets@.take(k + 1), start[i].id, Resource::Energy);
                let _ = owned_output(planets@.take(k + 1), start[i].id, Resource::Research);
            }
        }
        k = k + 1;
    }
    proof {
        assert(planets@.take(planets@.len() as int) =~= planets@);
    }
}


/// Why a tick could not run.
#[derive(Clone, Copy, Debug, PartialEq, Eq, Structural)]
pub enum TickError {
    /// The clock row is missing.
    NotInitialized,
}

impl TickError {
    /// The error text reported to the caller.
    pub fn message(&self) -> (s: String)
        ensures
            s@ == "game state not initialized"@,
    {
        match self {
            TickError::NotInitialized => String::from_str("game state not initialized"),
        }
    }
}

/// The tick's outcome is determined by its inputs: two factions credited from
/// the same faction and the same planets are equal.
pub proof fn lemma_credit_deterministic(before: Faction, a: Faction, b: Faction, planets: Seq<Planet>)
    requires
        credited(before, a, planets),
        credited(before, b, planets),
    ensures
        a == b,
{
}

/// The clock after one tick: one tick later, seed advanced by SplitMix64.
pub open spec fn spec_advance(gs: GameState) -> GameState {
    GameState {
        id: gs.id,
        current_tick: (gs.current_tick + 1) as u64,
        rng_seed: spec_splitmix64(gs.rng_seed),
        schema_version: gs.schema_version,
    }
}

/// ADVANCE: bump the clock and the RNG seed.
pub fn advance_clock(gs: GameState) -> (next: GameState)
    requires
        gs.current_tick < u64::MAX,
    ensures
        next == spec_advance(gs),
{
    GameState {
        id: gs.id,
        current_tick: gs.current_tick + 1,
        rng_seed: splitmix64(gs.rng_seed),
        schema_version: gs.schema_version,
    }
}

/// One simulation step over the clock row (if present), the planets, and the
/// factions: the economy phase, then the clock advance. The caller visits
/// planets in id order; the outcome does not depend on that order.
pub fn run_tick(state: Option<GameState>, planets: &Vec<Planet>, factions: &mut Vec<Faction>) -> (r: Result<GameState, TickError>)
    requires
        state is Some ==> {
            &&& ids_unique(old(factions)@)
            &&& economy_fits(old(factions)@, planets@)
            &&& state->Some_0.current_tick < u64::MAX
        },
    ensures
        state is None ==> r == Err::<GameState, TickError>(TickError::NotInitialized) && final(factions)@ == old(factions)@,
        state matches Some(gs) ==> {
            &&& r == Ok::<GameState, TickError>(spec_advance(gs))
            &&& final(factions)@.len() == old(factions)@.len()
            &&& forall|i: int|
                0 <= i < old(factions)@.len() ==> credited(
                    #[trigger] old(factions)@[i],
                    final(factions)@[i],
                    planets@,
                )
        },
{
    match state {
        None => Err(TickError::NotInitialized),
        Some(gs) => {
            economy_phase(planets, factions);
            Ok(advance_clock(gs))
        },
    }
}

} // verus!
