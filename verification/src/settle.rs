//! Claiming a faction: name check, one faction per identity, and settling
//! the lowest-id unowned system.
use vstd::prelude::*;
use vstd::string::{StrSliceExecFns, StringExecFns};
use crate::world::{Faction, Planet, SystemInfo};

verus! {

/// The Unicode `White_Space` property, the set `char::is_whitespace` and
/// `str::trim` go by: the ASCII tab, line feed, vertical tab, form feed,
/// carriage return and space, NEL, no-break space, Ogham space mark, the
/// general-punctuation spaces U+2000 to U+200A, the line and paragraph
/// separators, the narrow no-break and medium mathematical spaces, and the
/// ideographic space.
pub open spec fn white_space(c: char) -> bool {
    let u = c as u32;
    ||| 0x09 <= u <= 0x0D
    ||| u == 0x20 || u == 0x85 || u == 0xA0 || u == 0x1680
    ||| 0x2000 <= u <= 0x200A
    ||| u == 0x2028 || u == 0x2029 || u == 0x202F || u == 0x205F || u == 0x3000
}

/// Whether `c` has the `White_Space` property.
fn is_whitespace(c: char) -> (b: bool)
    ensures
        b == white_space(c),
{
    let u = c as u32;
    (0x09 <= u && u <= 0x0D) || u == 0x20 || u == 0x85 || u == 0xA0 || u == 0x1680
        || (0x2000 <= u && u <= 0x200A) || u == 0x2028 || u == 0x2029 || u == 0x202F
        || u == 0x205F || u == 0x3000
}

/// Every character of `s` is whitespace (so trimming leaves nothing).
pub open spec fn is_blank(s: Seq<char>) -> bool {
    forall|i: int| 0 <= i < s.len() ==> white_space(#[trigger] s[i])
}

/// Whether `name` trims to the empty string.
pub fn name_is_blank(name: &String) -> (b: bool)
    ensures
        b == is_blank(name@),
{
    let s = name.as_str();
    let n = s.unicode_len();
    let mut i: usize = 0;
    while i < n
        invariant
            n == s@.len(),
            s@ == name@,
            0 <= i <= n,
            forall|j: int| 0 <= j < i ==> white_space(#[trigger] s@[j]),
        decreases n - i,
    {
        if !is_whitespace(s.get_char(i)) {
            return false;
        }
        i = i + 1;
    }
    true
}

/// Why a faction could not be created.
#[derive(Clone, Copy, Debug, PartialEq, Eq, Structural)]
pub enum CreateFactionError {
    /// The name is empty or only whitespace.
    NameRequired,
    /// The caller already controls a faction.
    AlreadyHasFaction,
    /// Every system already has an owner.
    NoUnownedSystem,
}

impl CreateFactionError {
    /// The error text reported to the caller.
    pub fn message(&self) -> (s: String)
        ensures
            s@ == match *self {
                CreateFactionError::NameRequired => "faction name is required"@,
                CreateFactionError::AlreadyHasFaction => "this identity already controls a faction"@,
                CreateFactionError::NoUnownedSystem => "no unowned system available to settle"@,
            },
    {
        match self {
            CreateFactionError::NameRequired => String::from_str("faction name is required"),
            CreateFactionError::AlreadyHasFaction => String::from_str(
                "this identity already controls a faction",
            ),
            CreateFactionError::NoUnownedSystem => String::from_str(
                "no unowned system available to settle",
            ),
        }
    }
}

/// `id` is the smallest id among the systems without an owner.
pub open spec fn is_lowest_unowned(systems: Seq<SystemInfo>, id: u64) -> bool {
    &&& exists|i: int| 0 <= i < systems.len() && systems[i].owner_faction_id is None && #[trigger] systems[i].id == id
    &&& forall|j: int| 0 <= j < systems.len() && (#[trigger] systems[j]).owner_faction_id is None ==> id <= systems[j].id
}

/// Some system has no owner.
pub open spec fn has_unowned(systems: Seq<SystemInfo>) -> bool {
    exists|i: int| 0 <= i < systems.len() && (#[trigger] systems[i]).owner_faction_id is None
}

/// Decide whether a new faction named `name` may be created for a caller, and
/// pick its home: the lowest-id system that has no owner.
pub fn choose_home_system(name: &String, caller_has_faction: bool, systems: &Vec<SystemInfo>) -> (r: Result<u64, CreateFactionError>)
    ensures
        is_blank(name@) ==> r == Err::<u64, CreateFactionError>(CreateFactionError::NameRequired),
        !is_blank(name@) && caller_has_faction ==> r == Err::<u64, CreateFactionError>(
            CreateFactionError::AlreadyHasFaction,
        ),
        !is_blank(name@) && !caller_has_faction && !has_unowned(systems@) ==> r == Err::<
            u64,
            CreateFactionError,
        >(CreateFactionError::NoUnownedSystem),
        !is_blank(name@) && !caller_has_faction && has_unowned(systems@) ==> (r matches Ok(id)
            && is_lowest_unowned(systems@, id)),
{
    if name_is_blank(name) {
        return Err(CreateFactionError::NameRequired);
    }
    if caller_has_faction {
        return Err(CreateFactionError::AlreadyHasFaction);
    }
    let mut best: Option<u64> = None;
    let mut i: usize = 0;
    while i < systems.len()
        invariant
            0 <= i <= systems@.len(),
            match best {
                None => forall|j: int| 0 <= j < i ==> (#[trigger] systems@[j]).owner_faction_id is Some,
                Some(b) => {
                    &&& exists|k: int| 0 <= k < i && systems@[k].owner_faction_id is None && #[trigger] systems@[k].id == b
                    &&& forall|j: int| 0 <= j < i && (#[trigger] systems@[j]).owner_faction_id is None ==> b <= systems@[j].id
                },
            },
        decreases systems@.len() - i,
    {
        if systems[i].owner_faction_id.is_none() {
            let id = systems[i].id;
            match best {
                None => {
                    best = Some(id);
                },
                Some(b) => {
                    if id < b {
                        best = Some(id);
                    }
                },
            }
        }
        i = i + 1;
    }
    match best {
        None => Err(CreateFactionError::NoUnownedSystem),
        Some(b) => Ok(b),
    }
}

/// Starting minerals and energy of a player faction.
pub const PLAYER_START_MINERALS: i64 = 500;
pub const PLAYER_START_ENERGY: i64 = 500;

/// A new human faction row (id 0: the store assigns it) homed at `home_system_id`.
pub fn new_player_faction(name: String, home_system_id: u64) -> (f: Faction)
    ensures
        f == (Faction {
            id: 0,
            name,
            is_ai: false,
            minerals: PLAYER_START_MINERALS,
            energy: PLAYER_START_ENERGY,
            research: 0,
            home_system_id,
        }),
{
    Faction {
        id: 0,
        name,
        is_ai: false,
        minerals: PLAYER_START_MINERALS,
        energy: PLAYER_START_ENERGY,
        research: 0,
        home_system_id,
    }
}

/// The home system, now owned by faction `faction_id`.
pub fn claim_system(system: SystemInfo, faction_id: u64) -> (s: SystemInfo)
    ensures
        s.id == system.id,
        s.name == system.name,
        s.owner_faction_id == Some(faction_id),
{
    SystemInfo { owner_faction_id: Some(faction_id), ..system }
}

/// Population of a freshly settled planet.
pub const SETTLED_POPULATION: i64 = 100;

/// A home-system planet, now owned by faction `faction_id` and settled.
pub fn settle_planet(p: Planet, faction_id: u64) -> (q: Planet)
    ensures
        q == (Planet { owner_faction_id: Some(faction_id), population: SETTLED_POPULATION, ..p }),
{
    Planet { owner_faction_id: Some(faction_id), population: SETTLED_POPULATION, ..p }
}

} // verus!
