//! Read-side queries the client screens run over the rows they mirror.
use vstd::prelude::*;
use vstd::string::StringExecFns;
use crate::blocks::BlockType;
use crate::design::BlockPlacement;
use crate::sorting::{sort_by_key, sorted_by_key, with_key};
use crate::world::{Faction, GameState, Planet, ShipDesignDraft, ShipDesignDraftBlock, SimRun, SystemInfo};

verus! {

/// The clock's tick, read from the first clock row if there is one.
pub fn current_tick(rows: &Vec<GameState>) -> (t: Option<u64>)
    ensures
        t == if rows@.len() > 0 {
            Some(rows@[0].current_tick)
        } else {
            None::<u64>
        },
{
    if rows.len() > 0 {
        Some(rows[0].current_tick)
    } else {
        None
    }
}

/// The factions in id order (rows with equal ids keep their order).
pub fn factions_sorted(rows: Vec<Faction>) -> (v: Vec<Faction>)
    ensures
        sorted_by_key(v@),
        v@.to_multiset() == rows@.to_multiset(),
        forall|k: u64| #[trigger] with_key(v@, k) == with_key(rows@, k),
{
    sort_by_key(rows)
}

/// The batch-run record with the largest run id; on a tie, the last such row.
pub fn latest_sim_run(rows: &Vec<SimRun>) -> (r: Option<SimRun>)
    ensures
        rows@.len() == 0 ==> r is None,
        rows@.len() > 0 ==> exists|k: int|
            0 <= k < rows@.len() && r == Some(#[trigger] rows@[k]) && (forall|j: int|
                0 <= j < rows@.len() ==> rows@[j].run_id <= rows@[k].run_id) && (forall|j: int|
                k < j < rows@.len() ==> rows@[j].run_id < rows@[k].run_id),
{
    if rows.len() == 0 {
        return None;
    }
    let mut best: usize = 0;
    let mut i: usize = 1;
    while i < rows.len()
        invariant
            1 <= i <= rows@.len(),
            0 <= best < i,
            forall|j: int| 0 <= j < i ==> rows@[j].run_id <= rows@[best as int].run_id,
            forall|j: int| best < j < i ==> rows@[j].run_id < rows@[best as int].run_id,
        decreases rows@.len() - i,
    {
        if rows[i].run_id >= rows[best].run_id {
            best = i;
        }
        i = i + 1;
    }
    Some(rows[best])
}

/// The id of the human (non-AI) faction with the smallest id, if any.
pub fn player_faction_id(rows: &Vec<Faction>) -> (r: Option<u64>)
    ensures
        match r {
            None => forall|i: int| 0 <= i < rows@.len() ==> (#[trigger] rows@[i]).is_ai,
            Some(id) => {
                &&& exists|i: int| 0 <= i < rows@.len() && !rows@[i].is_ai && #[trigger] rows@[i].id == id
                &&& forall|i: int| 0 <= i < rows@.len() && !(#[trigger] rows@[i]).is_ai ==> id <= rows@[i].id
            },
        },
{
    let mut best: Option<u64> = None;
    let mut i: usize = 0;
    while i < rows.len()
        invariant
            0 <= i <= rows@.len(),
            match best {
                None => forall|j: int| 0 <= j < i ==> (#[trigger] rows@[j]).is_ai,
                Some(b) => {
                    &&& exists|k: int| 0 <= k < i && !rows@[k].is_ai && #[trigger] rows@[k].id == b
                    &&& forall|j: int| 0 <= j < i && !(#[trigger] rows@[j]).is_ai ==> b <= rows@[j].id
                },
            },
        decreases rows@.len() - i,
    {
        if !rows[i].is_ai {
            let id = rows[i].id;
            match best {
                None => {
                    best = Some(id);
                },
                Some(b) => {
                    if id < b {
                        best = Some(id);
                    }
                },
            }
        }
        i = i + 1;
    }
    best
}

/// The id of the newest (largest-id) draft of faction `faction`, if any.
pub fn active_draft_id(rows: &Vec<ShipDesignDraft>, faction: u64) -> (r: Option<u64>)
    ensures
        match r {
            None => forall|i: int| 0 <= i < rows@.len() ==> (#[trigger] rows@[i]).faction_id != faction,
            Some(id) => {
                &&& exists|i: int| 0 <= i < rows@.len() && rows@[i].faction_id == faction && #[trigger] rows@[i].id == id
                &&& forall|i: int| 0 <= i < rows@.len() && (#[trigger] rows@[i]).faction_id == faction ==> rows@[i].id <= id
            },
        },
{
    let mut best: Option<u64> = None;
    let mut i: usize = 0;
    while i < rows.len()
        invariant
            0 <= i <= rows@.len(),
            match best {
                None => forall|j: int| 0 <= j < i ==> (#[trigger] rows@[j]).faction_id != faction,
                Some(b) => {
                    &&& exists|k: int| 0 <= k < i && rows@[k].faction_id == faction && #[trigger] rows@[k].id == b
                    &&& forall|j: int| 0 <= j < i && (#[trigger] rows@[j]).faction_id == faction ==> rows@[j].id <= b
                },
            },
        decreases rows@.len() - i,
    {
        if rows[i].faction_id == faction {
            let id = rows[i].id;
            match best {
                None => {
                    best = Some(id);
                },
                Some(b) => {
                    if id >= b {
                        best = Some(id);
                    }
                },
            }
        }
        i = i + 1;
    }
    best
}

/// The cells and kinds of the blocks of draft `draft`, in row order.
pub open spec fn draft_cells(rows: Seq<ShipDesignDraftBlock>, draft: u64) -> Seq<([i32; 3], BlockType)>
    decreases rows.len(),
{
    if rows.len() == 0 {
        Seq::empty()
    } else {
        let rest = draft_cells(rows.drop_last(), draft);
        let b = rows.last();
        if b.draft_id == draft {
            rest.push(([b.x, b.y, b.z], b.block_type))
        } else {
            rest
        }
    }
}

/// Whether a draft block row belongs to draft `draft`.
pub open spec fn in_draft(draft: u64) -> spec_fn(ShipDesignDraftBlock) -> bool {
    |b: ShipDesignDraftBlock| b.draft_id == draft
}

/// A draft block row's cell and kind.
pub open spec fn cell_and_kind() -> spec_fn(ShipDesignDraftBlock) -> ([i32; 3], BlockType) {
    |b: ShipDesignDraftBlock| ([b.x, b.y, b.z], b.block_type)
}

/// Every row of the draft shows up, in row order, whatever its kind, and no
/// other row does: the draft's cells are exactly its rows, kept by draft id
/// and mapped to cell and kind.
pub proof fn lemma_draft_cells_are_its_rows(rows: Seq<ShipDesignDraftBlock>, draft: u64)
    ensures
        draft_cells(rows, draft) == rows.filter(in_draft(draft)).map_values(cell_and_kind()),
        draft_cells(rows, draft).len() == rows.filter(in_draft(draft)).len(),
    decreases rows.len(),
{
    reveal(Seq::filter);
    if rows.len() > 0 {
        lemma_draft_cells_are_its_rows(rows.drop_last(), draft);
        let f = rows.drop_last().filter(in_draft(draft));
        if rows.last().draft_id == draft {
            assert(rows.filter(in_draft(draft)) == f.push(rows.last()));
            assert(f.push(rows.last()).map_values(cell_and_kind()) =~= f.map_values(cell_and_kind()).push(
                cell_and_kind()(rows.last()),
            ));
        } else {
            assert(rows.filter(in_draft(draft)) == f);
        }
    } else {
        assert(rows.filter(in_draft(draft)).map_values(cell_and_kind()) =~= Seq::empty());
    }
}

/// The blocks of draft `draft`: each one's cell and kind, in row order.
pub fn draft_blocks(rows: &Vec<ShipDesignDraftBlock>, draft: u64) -> (v: Vec<([i32; 3], BlockType)>)
    ensures
        v@ == draft_cells(rows@, draft),
        v@ == rows@.filter(in_draft(draft)).map_values(cell_and_kind()),
        v@.len() == rows@.filter(in_draft(draft)).len(),
{
    proof {
        lemma_draft_cells_are_its_rows(rows@, draft);
    }
    let mut v: Vec<([i32; 3], BlockType)> = Vec::new();
    let mut i: usize = 0;
    while i < rows.len()
        invariant
            0 <= i <= rows@.len(),
            v@ == draft_cells(rows@.take(i as int), draft),
        decreases rows@.len() - i,
    {
        let b = rows[i];
        proof {
            assert(rows@.take(i + 1).drop_last() =~= rows@.take(i as int));
        }
        if b.draft_id == draft {
            v.push(([b.x, b.y, b.z], b.block_type));
        }
        i = i + 1;
    }
    proof {
        assert(rows@.take(rows@.len() as int) =~= rows@);
    }
    v
}

/// Placements (rotation 0) for a list of draft cells, for the design math.
pub fn draft_placements(blocks: &Vec<([i32; 3], BlockType)>) -> (v: Vec<BlockPlacement>)
    ensures
        v@.len() == blocks@.len(),
        forall|i: int|
            0 <= i < blocks@.len() ==> #[trigger] v@[i] == (BlockPlacement {
                x: blocks@[i].0[0],
                y: blocks@[i].0[1],
                z: blocks@[i].0[2],
                block_type: blocks@[i].1,
                rotation: 0,
            }),
{
    let mut v: Vec<BlockPlacement> = Vec::new();
    let mut i: usize = 0;
    while i < blocks.len()
        invariant
            0 <= i <= blocks@.len(),
            v@.len() == i,
            forall|j: int|
                0 <= j < i ==> #[trigger] v@[j] == (BlockPlacement {
                    x: blocks@[j].0[0],
                    y: blocks@[j].0[1],
                    z: blocks@[j].0[2],
                    block_type: blocks@[j].1,
                    rotation: 0,
                }),
        decreases blocks@.len() - i,
    {
        let (c, t) = blocks[i];
        v.push(BlockPlacement::new(c[0], c[1], c[2], t));
        i = i + 1;
    }
    v
}

/// The systems in id order (rows with equal ids keep their order).
pub fn systems_sorted(rows: Vec<SystemInfo>) -> (v: Vec<SystemInfo>)
    ensures
        sorted_by_key(v@),
        v@.to_multiset() == rows@.to_multiset(),
        forall|k: u64| #[trigger] with_key(v@, k) == with_key(rows@, k),
{
    sort_by_key(rows)
}

/// The label shown for a system owner: the name of the last faction row with
/// that id, or a dash when there is no owner or no such faction.
pub open spec fn owner_label(factions: Seq<Faction>, owner: Option<u64>) -> Seq<char>
    decreases factions.len(),
{
    match owner {
        None => "\u{2014}"@,
        Some(id) => if factions.len() == 0 {
            "\u{2014}"@
        } else if factions.last().id == id {
            factions.last().name@
        } else {
            owner_label(factions.drop_last(), owner)
        },
    }
}

/// The owner label names the owning faction, AI or not: when the last faction
/// row with the owner's id is row `i`, the label is that row's name.
pub proof fn lemma_owner_label_names_owner(factions: Seq<Faction>, id: u64, i: int)
    requires
        0 <= i < factions.len(),
        factions[i].id == id,
        forall|j: int| i < j < factions.len() ==> factions[j].id != id,
    ensures
        owner_label(factions, Some(id)) == factions[i].name@,
    decreases factions.len(),
{
    if i < factions.len() - 1 {
        lemma_owner_label_names_owner(factions.drop_last(), id, i);
    }
}

/// Without an owner, or without a faction row of the owner's id, the label is
/// a dash; otherwise it is the name of a faction row with that id.
pub proof fn lemma_owner_label_dash(factions: Seq<Faction>, owner: Option<u64>)
    ensures
        (owner_label(factions, owner) == "\u{2014}"@) <== (owner is None || forall|j: int|
            0 <= j < factions.len() ==> factions[j].id != owner->Some_0),
        (exists|j: int| 0 <= j < factions.len() && factions[j].id == owner->Some_0) && owner is Some
            ==> exists|j: int|
            0 <= j < factions.len() && factions[j].id == owner->Some_0 && owner_label(factions, owner)
                == #[trigger] factions[j].name@,
    decreases factions.len(),
{
    if factions.len() > 0 && owner is Some {
        lemma_owner_label_dash(factions.drop_last(), owner);
        let id = owner->Some_0;
        if factions.last().id != id {
            if exists|j: int| 0 <= j < factions.len() && factions[j].id == id {
                let j = choose|j: int| 0 <= j < factions.len() && factions[j].id == id;
                assert(factions.drop_last()[j].id == id);
                let k = choose|k: int|
                    0 <= k < factions.drop_last().len() && factions.drop_last()[k].id == id && owner_label(
                        factions.drop_last(),
                        owner,
                    ) == #[trigger] factions.drop_last()[k].name@;
                assert(factions[k] == factions.drop_last()[k]);
            }
        } else {
            assert(factions[factions.len() - 1].name@ == factions.last().name@);
        }
    }
}

/// The number of planets in system `sid`.
pub open spec fn planets_in(planets: Seq<Planet>, sid: u64) -> nat
    decreases planets.len(),
{
    if planets.len() == 0 {
        0
    } else {
        planets_in(planets.drop_last(), sid) + if planets.last().system_id == sid {
            1nat
        } else {
            0nat
        }
    }
}

/// The summed mineral output of the planets in system `sid`.
pub open spec fn minerals_in(planets: Seq<Planet>, sid: u64) -> int
    decreases planets.len(),
{
    if planets.len() == 0 {
        0
    } else {
        minerals_in(planets.drop_last(), sid) + if planets.last().system_id == sid {
            planets.last().minerals_output as int
        } else {
            0
        }
    }
}

/// Whether a planet lies in system `sid`.
pub open spec fn in_system(sid: u64) -> spec_fn(Planet) -> bool {
    |p: Planet| p.system_id == sid
}

/// Adds a planet's mineral output to a running sum.
pub open spec fn add_minerals() -> spec_fn(int, Planet) -> int {
    |acc: int, p: Planet| acc + p.minerals_output as int
}

/// A system's planet count is the number of planets whose system is `sid`,
/// and its mineral output is the sum of those planets' outputs, no others.
pub proof fn lemma_system_counts_its_planets(planets: Seq<Planet>, sid: u64)
    ensures
        planets_in(planets, sid) == planets.filter(in_system(sid)).len(),
        minerals_in(planets, sid) == planets.filter(in_system(sid)).fold_left(0int, add_minerals()),
    decreases planets.len(),
{
    reveal(Seq::filter);
    if planets.len() > 0 {
        lemma_system_counts_its_planets(planets.drop_last(), sid);
        let f = planets.drop_last().filter(in_system(sid));
        if planets.last().system_id == sid {
            assert(planets.filter(in_system(sid)) == f.push(planets.last()));
            assert(f.push(planets.last()).drop_last() =~= f);
        } else {
            assert(planets.filter(in_system(sid)) == f);
        }
    }
}

/// Summing the mineral output of system `sid`, planet by planet, stays in range.
pub open spec fn minerals_fit(planets: Seq<Planet>, sid: u64) -> bool {
    forall|n: int|
        0 <= n <= planets.len() ==> i64::MIN <= #[trigger] minerals_in(planets.take(n), sid)
            <= i64::MAX
}

/// Whether summing the mineral output of system `sid`, planet by planet, stays in range.
pub fn minerals_in_range(planets: &Vec<Planet>, sid: u64) -> (b: bool)
    ensures
        b == minerals_fit(planets@, sid),
{
    let mut acc: i64 = 0;
    let mut i: usize = 0;
    proof {
        assert(planets@.take(0) =~= Seq::<Planet>::empty());
    }
    while i < planets.len()
        invariant
            0 <= i <= planets@.len(),
            acc == minerals_in(planets@.take(i as int), sid),
            forall|n: int|
                0 <= n <= i ==> i64::MIN <= #[trigger] minerals_in(planets@.take(n), sid) <= i64::MAX,
        decreases planets@.len() - i,
    {
        proof {
            assert(planets@.take(i + 1).drop_last() =~= planets@.take(i as int));
        }
        if planets[i].system_id == sid {
            let next: i128 = acc as i128 + planets[i].minerals_output as i128;
            if next < i64::MIN as i128 || next > i64::MAX as i128 {
                proof {
                    let _ = minerals_in(planets@.take(i + 1), sid);
                }
                return false;
            }
            acc = next as i64;
        }
        i = i + 1;
    }
    true
}

/// One line of the systems table.
#[derive(Clone, Debug, PartialEq, Eq)]
pub struct SystemRow {
    pub name: String,
    pub owner: String,
    pub planet_count: usize,
    pub minerals_per_tick: i64,
}

/// `row` describes `system` against the faction and planet rows.
pub open spec fn describes(row: SystemRow, system: SystemInfo, factions: Seq<Faction>, planets: Seq<Planet>) -> bool {
    &&& row.name@ == system.name@
    &&& row.owner@ == owner_label(factions, system.owner_faction_id)
    &&& row.planet_count == planets_in(planets, system.id)
    &&& row.minerals_per_tick == minerals_in(planets, system.id)
}

fn owner_name(factions: &Vec<Faction>, owner: Option<u64>) -> (s: String)
    ensures
        s@ == owner_label(factions@, owner),
{
    match owner {
        None => String::from_str("\u{2014}"),
        Some(id) => {
            let mut i: usize = factions.len();
            proof {
                assert(factions@.take(i as int) =~= factions@);
            }
            while i > 0
                invariant
                    0 <= i <= factions@.len(),
                    owner == Some(id),
                    owner_label(factions@, owner) == owner_label(factions@.take(i as int), owner),
                decreases i,
            {
                let ghost pre = factions@.take(i as int);
                proof {
                    assert(pre.len() == i);
                    assert(owner == Some(id));
                    assert(pre.drop_last() =~= factions@.take(i - 1));
                    assert(pre.last() == factions@[i - 1]);
                    assert(owner_label(pre, owner) == if pre.last().id == id {
                        pre.last().name@
                    } else {
                        owner_label(pre.drop_last(), owner)
                    });
                }
                if factions[i - 1].id == id {
                    let name = factions[i - 1].name.clone();
                    return name;
                }
                i = i - 1;
            }
            String::from_str("\u{2014}")
        },
    }
}

fn system_row(system: &SystemInfo, factions: &Vec<Faction>, planets: &Vec<Planet>) -> (row: SystemRow)
    requires
        minerals_fit(planets@, system.id),
    ensures
        describes(row, *system, factions@, planets@),
{
    let mut count: usize = 0;
    let mut minerals: i64 = 0;
    let mut i: usize = 0;
    while i < planets.len()
        invariant
            0 <= i <= planets@.len(),
            minerals_fit(planets@, system.id),
            count == planets_in(planets@.take(i as int), system.id),
            count <= i,
            minerals == minerals_in(planets@.take(i as int), system.id),
        decreases planets@.len() - i,
    {
        proof {
            assert(planets@.take(i + 1).drop_last() =~= planets@.take(i as int));
            assert(i64::MIN <= minerals_in(planets@.take(i + 1), system.id) <= i64::MAX);
        }
        if planets[i].system_id == system.id {
            count = count + 1;
            minerals = minerals + planets[i].minerals_output;
        }
        i = i + 1;
    }
    proof {
        assert(planets@.take(planets@.len() as int) =~= planets@);
    }
    SystemRow {
        name: system.name.clone(),
        owner: owner_name(factions, system.owner_faction_id),
        planet_count: count,
        minerals_per_tick: minerals,
    }
}

/// The systems table: for each system, its name, owner label, planet count
/// and summed mineral output per tick.
pub fn system_rows(systems: &Vec<SystemInfo>, factions: &Vec<Faction>, planets: &Vec<Planet>) -> (v: Vec<SystemRow>)
    requires
        forall|i: int| 0 <= i < systems@.len() ==> minerals_fit(planets@, #[trigger] systems@[i].id),
    ensures
        v@.len() == systems@.len(),
        forall|i: int| 0 <= i < systems@.len() ==> describes(#[trigger] v@[i], systems@[i], factions@, planets@),
{
    let mut v: Vec<SystemRow> = Vec::new();
    let mut i: usize = 0;
    while i < systems.len()
        invariant
            0 <= i <= systems@.len(),
            v@.len() == i,
            forall|j: int| 0 <= j < systems@.len() ==> minerals_fit(planets@, #[trigger] systems@[j].id),
            forall|j: int| 0 <= j < i ==> describes(#[trigger] v@[j], systems@[j], factions@, planets@),
        decreases systems@.len() - i,
    {
        let row = system_row(&systems[i], factions, planets);
        v.push(row);
        i = i + 1;
    }
    v
}

/// A face of a grid cell, named by the axis direction it points along.
#[derive(Clone, Copy, Debug, PartialEq, Eq, Structural)]
pub enum Face {
    PosX,
    NegX,
    PosY,
    NegY,
    PosZ,
    NegZ,
}

/// The unit step a face points along.
pub open spec fn face_offset(f: Face) -> (int, int, int) {
    match f {
        Face::PosX => (1, 0, 0),
        Face::NegX => (-1, 0, 0),
        Face::PosY => (0, 1, 0),
        Face::NegY => (0, -1, 0),
        Face::PosZ => (0, 0, 1),
        Face::NegZ => (0, 0, -1),
    }
}

/// Each face points one step outward along its own axis: +1 for the positive
/// faces, -1 for the negative ones, and no step along the other two axes; so
/// opposite faces point opposite ways.
pub proof fn lemma_face_offset_outward(f: Face)
    ensures
        f == Face::PosX ==> face_offset(f) == (1int, 0int, 0int),
        f == Face::NegX ==> face_offset(f) == (-1int, 0int, 0int),
        f == Face::PosY ==> face_offset(f) == (0int, 1int, 0int),
        f == Face::NegY ==> face_offset(f) == (0int, -1int, 0int),
        f == Face::PosZ ==> face_offset(f) == (0int, 0int, 1int),
        f == Face::NegZ ==> face_offset(f) == (0int, 0int, -1int),
        face_offset(Face::PosX).0 == -face_offset(Face::NegX).0,
        face_offset(Face::PosY).1 == -face_offset(Face::NegY).1,
        face_offset(Face::PosZ).2 == -face_offset(Face::NegZ).2,
{
}

/// The result of pointing at the design: where a new block would go, and the
/// existing block under the cursor, if any.
#[derive(Clone, Copy, Debug, PartialEq, Eq)]
pub struct Pick {
    pub ghost_cell: [i32; 3],
    pub remove: Option<[i32; 3]>,
}

/// The cell across face `f` of `cell` fits in `i32` coordinates.
pub open spec fn across_fits(cell: [i32; 3], f: Face) -> bool {
    let o = face_offset(f);
    &&& i32::MIN <= cell[0] + o.0 <= i32::MAX
    &&& i32::MIN <= cell[1] + o.1 <= i32::MAX
    &&& i32::MIN <= cell[2] + o.2 <= i32::MAX
}

/// Pointing at face `f` of the existing block in `cell`: the new block goes in
/// the neighbouring cell across that face, and `cell` is the one to remove.
pub fn pick_face(cell: [i32; 3], f: Face) -> (p: Pick)
    requires
        across_fits(cell, f),
    ensures
        p.ghost_cell[0] == cell[0] + face_offset(f).0,
        p.ghost_cell[1] == cell[1] + face_offset(f).1,
        p.ghost_cell[2] == cell[2] + face_offset(f).2,
        p.remove == Some(cell),
        f == Face::PosX ==> p.ghost_cell[0] == cell[0] + 1 && p.ghost_cell[1] == cell[1] && p.ghost_cell[2] == cell[2],
        f == Face::NegX ==> p.ghost_cell[0] == cell[0] - 1 && p.ghost_cell[1] == cell[1] && p.ghost_cell[2] == cell[2],
        f == Face::PosY ==> p.ghost_cell[0] == cell[0] && p.ghost_cell[1] == cell[1] + 1 && p.ghost_cell[2] == cell[2],
        f == Face::NegY ==> p.ghost_cell[0] == cell[0] && p.ghost_cell[1] == cell[1] - 1 && p.ghost_cell[2] == cell[2],
        f == Face::PosZ ==> p.ghost_cell[0] == cell[0] && p.ghost_cell[1] == cell[1] && p.ghost_cell[2] == cell[2] + 1,
        f == Face::NegZ ==> p.ghost_cell[0] == cell[0] && p.ghost_cell[1] == cell[1] && p.ghost_cell[2] == cell[2] - 1,
{
    let g: [i32; 3] = match f {
        Face::PosX => [cell[0] + 1, cell[1], cell[2]],
        Face::NegX => [cell[0] - 1, cell[1], cell[2]],
        Face::PosY => [cell[0], cell[1] + 1, cell[2]],
        Face::NegY => [cell[0], cell[1] - 1, cell[2]],
        Face::PosZ => [cell[0], cell[1], cell[2] + 1],
        Face::NegZ => [cell[0], cell[1], cell[2] - 1],
    };
    Pick { ghost_cell: g, remove: Some(cell) }
}

} // verus!
