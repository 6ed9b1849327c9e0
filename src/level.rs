use vstd::prelude::*;

use crate::char_state::{CharState, EntityId, PowerUp};
use crate::objects::{GameObjectData, ThwumpState};
use crate::units::{Dir, HalfTile};

verus! {

/// A value of a tile's custom property.
#[derive(Clone, Debug)]
pub enum PropValue {
    Str(String),
    Int(i32),
    Other,
}

/// One placed tile of the main layer, as the map loader reports it.
#[derive(Clone, Debug)]
pub struct TileDesc {
    pub x: i32,
    pub y: i32,
    /// The tile's class; `None` when it has none.
    pub user_type: Option<String>,
    pub name: Option<PropValue>,
    pub power_up: Option<PropValue>,
    pub count: Option<PropValue>,
    pub flip_h: bool,
    pub flip_v: bool,
    pub flip_d: bool,
}

/// A fault in the level's content.
#[derive(Clone, Copy, Debug, PartialEq, Eq, Structural)]
pub enum LevelError {
    UnknownUserType,
    UnsupportedTileName,
    MissingPowerUp,
    UnknownPowerUp,
    MissingCount,
    CountNotInt,
    OutOfRange,
}

/// What a tile asks for besides its solidity.
#[derive(Clone, Copy, Debug, PartialEq, Eq, Structural)]
pub enum Spawn {
    Object { data: GameObjectData, at: HalfTile },
    SpawnPoint { at: HalfTile },
}

/// What a tile contributes to the level.
#[derive(Clone, Copy, Debug, PartialEq, Eq, Structural)]
pub struct TilePlan {
    pub solid: bool,
    pub spawn: Option<Spawn>,
}

/// The string held by a property, if it holds one.
pub open spec fn str_of(p: Option<PropValue>) -> Option<Seq<char>> {
    match p {
        Some(PropValue::Str(s)) => Some(s@),
        _ => None,
    }
}

/// The ability named `s`.
pub open spec fn power_up_named(s: Seq<char>) -> Option<PowerUp> {
    if s == "dash"@ {
        Some(PowerUp::Dash)
    } else if s == "double_jump"@ {
        Some(PowerUp::DoubleJump)
    } else if s == "wall_jump"@ {
        Some(PowerUp::WallJump)
    } else if s == "small"@ {
        Some(PowerUp::Small)
    } else if s == "water"@ {
        Some(PowerUp::Water)
    } else if s == "lava"@ {
        Some(PowerUp::Lava)
    } else {
        None
    }
}

/// Whether a tile of class `u` is solid; `None` for an unknown class.
pub open spec fn solidity(u: Option<Seq<char>>) -> Option<bool> {
    match u {
        None => Some(true),
        Some(s) => if s == ""@ {
            Some(true)
        } else if s == "nonsolid"@ || s == "marker"@ {
            Some(false)
        } else {
            None
        },
    }
}

/// The pickup identifier of the tile at `(x, y)`.
pub open spec fn entity_id_of(x: int, y: int) -> int {
    1_000_000 * y + x
}

/// The direction that a tile faces after its flips: `(1, 0)` turned by the diagonal flip (a swap
/// of the axes), then the vertical flip (negating `y`), then the horizontal one (negating `x`).
pub open spec fn orientation_of(flip_h: bool, flip_v: bool, flip_d: bool) -> Dir {
    let (x0, y0) = if flip_d {
        (0int, 1int)
    } else {
        (1int, 0int)
    };
    let y1 = if flip_v {
        -y0
    } else {
        y0
    };
    let x1 = if flip_h {
        -x0
    } else {
        x0
    };
    Dir { x: x1 as i32, y: y1 as i32 }
}

/// Whether an odd number of flips mirrors the tile.
pub open spec fn mirrored_of(flip_h: bool, flip_v: bool, flip_d: bool) -> bool {
    flip_d != (flip_v != flip_h)
}

/// The centre of the tile at `(x, y)`, in half-tile units.
pub open spec fn centre_of(x: int, y: int) -> HalfTile {
    HalfTile { x: (2 * x + 1) as i32, y: (2 * y + 1) as i32 }
}

/// The tile's coordinates leave room for its half-tile positions within `i32`.
pub open spec fn in_range(x: int, y: int) -> bool {
    &&& i32::MIN <= 2 * x
    &&& 2 * x + 2 <= i32::MAX
    &&& i32::MIN <= 2 * y
    &&& 2 * y + 2 <= i32::MAX
}

/// The object or marker that a tile named `name` asks for, given the player's progress.
pub open spec fn spawn_for(
    t: TileDesc,
    name: Seq<char>,
    cs: CharState,
) -> Result<Option<Spawn>, LevelError> {
    let x = t.x as int;
    let y = t.y as int;
    let at = centre_of(x, y);
    let orientation = orientation_of(t.flip_h, t.flip_v, t.flip_d);
    let id = entity_id_of(x, y);
    let obj = |data: GameObjectData| Ok(Some(Spawn::Object { data, at }));
    if !in_range(x, y) {
        Err(LevelError::OutOfRange)
    } else if name == "coin"@ || name == "rare_coin"@ || name == "hp_up"@ {
        if !(i32::MIN <= id <= i32::MAX) {
            Err(LevelError::OutOfRange)
        } else if cs.has_collected(id as i32) {
            Ok(None)
        } else if name == "coin"@ {
            obj(GameObjectData::Coin { entity_id: id as i32 })
        } else if name == "rare_coin"@ {
            obj(GameObjectData::RareCoin { entity_id: id as i32 })
        } else {
            obj(GameObjectData::HpUp { entity_id: id as i32 })
        }
    } else if name == "powerup"@ {
        match str_of(t.power_up) {
            None => Err(LevelError::MissingPowerUp),
            Some(p) => match power_up_named(p) {
                None => Err(LevelError::UnknownPowerUp),
                Some(pu) => if cs.power_ups@.contains(pu) {
                    Ok(None)
                } else {
                    obj(GameObjectData::PowerUp { power_up: pu })
                },
            },
        }
    } else if name == "water"@ {
        obj(GameObjectData::Water)
    } else if name == "lava"@ {
        obj(GameObjectData::Lava)
    } else if name == "spike"@ {
        obj(GameObjectData::Spike)
    } else if name == "shooter1"@ {
        obj(GameObjectData::Shooter1 { orientation })
    } else if name == "beehive"@ {
        obj(GameObjectData::Beehive)
    } else if name == "coin_wall"@ {
        match t.count {
            Some(PropValue::Int(count)) => obj(GameObjectData::CoinWall { count }),
            Some(_) => Err(LevelError::CountNotInt),
            None => Err(LevelError::MissingCount),
        }
    } else if name == "stone"@ {
        obj(GameObjectData::Stone { at })
    } else if name == "save_left"@ {
        let save_at = HalfTile { x: (2 * x + 2) as i32, y: (2 * y + 1) as i32 };
        Ok(Some(Spawn::Object { data: GameObjectData::SavePoint { at: save_at }, at: save_at }))
    } else if name == "platform"@ {
        obj(GameObjectData::Platform { currently_solid: true })
    } else if name == "thwump"@ {
        obj(GameObjectData::Thwump { orientation, state: ThwumpState::Idle })
    } else if name == "moving_platform"@ {
        obj(GameObjectData::MovingPlatform { orientation })
    } else if name == "turn_laser"@ {
        obj(
            GameObjectData::TurnLaser {
                orientation,
                is_mirrored: mirrored_of(t.flip_h, t.flip_v, t.flip_d),
            },
        )
    } else if name == "vanish_block"@ {
        obj(GameObjectData::VanishBlock { is_solid: true })
    } else if name == "spawn"@ {
        Ok(Some(Spawn::SpawnPoint { at: HalfTile { x: (2 * x) as i32, y: (2 * y) as i32 } }))
    } else {
        Err(LevelError::UnsupportedTileName)
    }
}

/// What a tile contributes: its solidity from its class, then what its name asks for. A tile
/// without a string name spawns nothing.
pub open spec fn tile_plan(
    t: TileDesc,
    cs: CharState,
) -> Result<TilePlan, LevelError> {
    let user_type = match t.user_type {
        Some(s) => Some(s@),
        None => None,
    };
    match solidity(user_type) {
        None => Err(LevelError::UnknownUserType),
        Some(solid) => match str_of(t.name) {
            None => Ok(TilePlan { solid, spawn: None }),
            Some(name) => match spawn_for(t, name, cs) {
                Err(e) => Err(e),
                Ok(spawn) => Ok(TilePlan { solid, spawn }),
            },
        },
    }
}

/// Whether `s` reads `lit`.
pub(crate) fn is_text(s: &String, lit: &str) -> (r: bool)
    ensures
        r == (s@ == lit@),
{
    let l = lit.to_owned();
    *s == l
}

/// The ability named `s`.
pub fn power_up_from_name(s: &String) -> (r: Option<PowerUp>)
    ensures
        r == power_up_named(s@),
{
    if is_text(s, "dash") {
        Some(PowerUp::Dash)
    } else if is_text(s, "double_jump") {
        Some(PowerUp::DoubleJump)
    } else if is_text(s, "wall_jump") {
        Some(PowerUp::WallJump)
    } else if is_text(s, "small") {
        Some(PowerUp::Small)
    } else if is_text(s, "water") {
        Some(PowerUp::Water)
    } else if is_text(s, "lava") {
        Some(PowerUp::Lava)
    } else {
        None
    }
}

/// The direction that a tile faces after its flips, and whether it is mirrored.
pub fn orientation_from_flips(flip_h: bool, flip_v: bool, flip_d: bool) -> (r: (Dir, bool))
    ensures
        r.0 == orientation_of(flip_h, flip_v, flip_d),
        r.1 == mirrored_of(flip_h, flip_v, flip_d),
{
    let mut x: i32 = 1;
    let mut y: i32 = 0;
    let mut mirrored = false;
    if flip_d {
        let t = x;
        x = y;
        y = t;
        mirrored = !mirrored;
    }
    if flip_v {
        y = -y;
        mirrored = !mirrored;
    }
    if flip_h {
        x = -x;
        mirrored = !mirrored;
    }
    (Dir { x, y }, mirrored)
}

/// Classifies one tile of the main layer: whether it is solid and what it spawns. A coin, rare
/// coin or hp-up that the player has already collected, and a power-up already owned, spawn
/// nothing. Faulty content is an error.
pub fn classify_tile(t: &TileDesc, char_state: &CharState) -> (r: Result<TilePlan, LevelError>)
    ensures
        r == tile_plan(*t, *char_state),
        r matches Ok(plan) ==> (plan.spawn matches Some(Spawn::Object { data, .. }) ==> match data {
            GameObjectData::Coin { entity_id } => !char_state.has_collected(entity_id),
            GameObjectData::RareCoin { entity_id } => !char_state.has_collected(entity_id),
            GameObjectData::HpUp { entity_id } => !char_state.has_collected(entity_id),
            GameObjectData::PowerUp { power_up } => !char_state.power_ups@.contains(power_up),
            _ => true,
        }),
{
    let solid = match &t.user_type {
        None => true,
        Some(u) => if is_text(u, "") {
            true
        } else if is_text(u, "nonsolid") || is_text(u, "marker") {
            false
        } else {
            return Err(LevelError::UnknownUserType);
        },
    };
    let name = match &t.name {
        Some(PropValue::Str(s)) => s,
        _ => {
            return Ok(TilePlan { solid, spawn: None });
        },
    };
    let x: i32 = t.x;
    let y: i32 = t.y;
    if x < -1073741824 || x > 1073741822 || y < -1073741824 || y > 1073741822 {
        return Err(LevelError::OutOfRange);
    }
    let at = HalfTile { x: 2 * x + 1, y: 2 * y + 1 };
    proof {
        assert(at == centre_of(x as int, y as int));
    }
    let (orientation, is_mirrored) = orientation_from_flips(t.flip_h, t.flip_v, t.flip_d);
    let spawn: Option<Spawn> = if is_text(name, "coin") || is_text(name, "rare_coin") || is_text(
        name,
        "hp_up",
    ) {
        let id: i64 = 1_000_000i64 * (y as i64) + (x as i64);
        if id < i32::MIN as i64 || id > i32::MAX as i64 {
            return Err(LevelError::OutOfRange);
        }
        let id: i32 = id as i32;
        if contains_collected(char_state, id) {
            None
        } else if is_text(name, "coin") {
            Some(Spawn::Object { data: GameObjectData::Coin { entity_id: id }, at })
        } else if is_text(name, "rare_coin") {
            Some(Spawn::Object { data: GameObjectData::RareCoin { entity_id: id }, at })
        } else {
            Some(Spawn::Object { data: GameObjectData::HpUp { entity_id: id }, at })
        }
    } else if is_text(name, "powerup") {
        let p = match &t.power_up {
            Some(PropValue::Str(p)) => p,
            _ => {
                return Err(LevelError::MissingPowerUp);
            },
        };
        let pu = match power_up_from_name(p) {
            Some(pu) => pu,
            None => {
                return Err(LevelError::UnknownPowerUp);
            },
        };
        if char_state.has_power_up(pu) {
            None
        } else {
            Some(Spawn::Object { data: GameObjectData::PowerUp { power_up: pu }, at })
        }
    } else if is_text(name, "water") {
        Some(Spawn::Object { data: GameObjectData::Water, at })
    } else if is_text(name, "lava") {
        Some(Spawn::Object { data: GameObjectData::Lava, at })
    } else if is_text(name, "spike") {
        Some(Spawn::Object { data: GameObjectData::Spike, at })
    } else if is_text(name, "shooter1") {
        Some(Spawn::Object { data: GameObjectData::Shooter1 { orientation }, at })
    } else if is_text(name, "beehive") {
        Some(Spawn::Object { data: GameObjectData::Beehive, at })
    } else if is_text(name, "coin_wall") {
        match &t.count {
            Some(PropValue::Int(count)) => Some(
                Spawn::Object { data: GameObjectData::CoinWall { count: *count }, at },
            ),
            Some(_) => {
                return Err(LevelError::CountNotInt);
            },
            None => {
                return Err(LevelError::MissingCount);
            },
        }
    } else if is_text(name, "stone") {
        Some(Spawn::Object { data: GameObjectData::Stone { at }, at })
    } else if is_text(name, "save_left") {
        let save_at = HalfTile { x: 2 * x + 2, y: 2 * y + 1 };
        Some(Spawn::Object { data: GameObjectData::SavePoint { at: save_at }, at: save_at })
    } else if is_text(name, "platform") {
        Some(Spawn::Object { data: GameObjectData::Platform { currently_solid: true }, at })
    } else if is_text(name, "thwump") {
        Some(
            Spawn::Object {
                data: GameObjectData::Thwump { orientation, state: ThwumpState::Idle },
                at,
            },
        )
    } else if is_text(name, "moving_platform") {
        Some(Spawn::Object { data: GameObjectData::MovingPlatform { orientation }, at })
    } else if is_text(name, "turn_laser") {
        Some(Spawn::Object { data: GameObjectData::TurnLaser { orientation, is_mirrored }, at })
    } else if is_text(name, "vanish_block") {
        Some(Spawn::Object { data: GameObjectData::VanishBlock { is_solid: true }, at })
    } else if is_text(name, "spawn") {
        Some(Spawn::SpawnPoint { at: HalfTile { x: 2 * x, y: 2 * y } })
    } else {
        return Err(LevelError::UnsupportedTileName);
    };
    Ok(TilePlan { solid, spawn })
}

/// What a whole main layer contributes: the solid tiles and the spawns, in tile order.
pub struct LevelPlan {
    pub solid_cells: Vec<(i32, i32)>,
    pub spawns: Vec<Spawn>,
}

/// The solid tiles and the spawns of a list of tiles, or the first fault among them.
pub open spec fn level_plan(
    tiles: Seq<TileDesc>,
    cs: CharState,
) -> Result<(Seq<(i32, i32)>, Seq<Spawn>), LevelError>
    decreases tiles.len(),
{
    if tiles.len() == 0 {
        Ok((Seq::empty(), Seq::empty()))
    } else {
        match level_plan(tiles.drop_last(), cs) {
            Err(e) => Err(e),
            Ok((cells, spawns)) => match tile_plan(tiles.last(), cs) {
                Err(e) => Err(e),
                Ok(plan) => {
                    let cells = if plan.solid {
                        cells.push((tiles.last().x, tiles.last().y))
                    } else {
                        cells
                    };
                    let spawns = match plan.spawn {
                        Some(sp) => spawns.push(sp),
                        None => spawns,
                    };
                    Ok((cells, spawns))
                },
            },
        }
    }
}

/// The spawn is not a pickup that the player already holds.
pub open spec fn not_held(sp: Spawn, char_state: CharState) -> bool {
    sp matches Spawn::Object { data, .. } ==> match data {
        GameObjectData::Coin { entity_id } => !char_state.has_collected(entity_id),
        GameObjectData::RareCoin { entity_id } => !char_state.has_collected(entity_id),
        GameObjectData::HpUp { entity_id } => !char_state.has_collected(entity_id),
        GameObjectData::PowerUp { power_up } => !char_state.power_ups@.contains(power_up),
        _ => true,
    }
}

/// Classifies every tile of the main layer, in order. No spawned pickup is one that the player
/// has already collected or owns.
pub fn plan_level(tiles: &Vec<TileDesc>, char_state: &CharState) -> (r: Result<
    LevelPlan,
    LevelError,
>)
    ensures
        match (r, level_plan(tiles@, *char_state)) {
            (Ok(plan), Ok((cells, spawns))) => plan.solid_cells@ == cells && plan.spawns@ == spawns,
            (Err(e), Err(e2)) => e == e2,
            _ => false,
        },
        r matches Ok(plan) ==> forall|k: int|
            0 <= k < plan.spawns@.len() ==> not_held(#[trigger] plan.spawns@[k], *char_state),
{
    let mut solid_cells: Vec<(i32, i32)> = Vec::new();
    let mut spawns: Vec<Spawn> = Vec::new();
    let mut i: usize = 0;
    while i < tiles.len()
        invariant
            i <= tiles@.len(),
            level_plan(tiles@.subrange(0, i as int), *char_state) == Ok::<
                (Seq<(i32, i32)>, Seq<Spawn>),
                LevelError,
            >((solid_cells@, spawns@)),
            forall|k: int| 0 <= k < spawns@.len() ==> not_held(#[trigger] spawns@[k], *char_state),
        decreases tiles@.len() - i,
    {
        let t = &tiles[i];
        proof {
            assert(tiles@.subrange(0, i + 1).drop_last() =~= tiles@.subrange(0, i as int));
            assert(tiles@.subrange(0, i + 1).last() == tiles@[i as int]);
        }
        match classify_tile(t, char_state) {
            Err(e) => {
                proof {
                    lemma_plan_error_sticks(tiles@, *char_state, i as int + 1);
                }
                return Err(e);
            },
            Ok(plan) => {
                if plan.solid {
                    solid_cells.push((t.x, t.y));
                }
                match plan.spawn {
                    Some(sp) => {
                        spawns.push(sp);
                    },
                    None => {},
                }
            },
        }
        i = i + 1;
    }
    proof {
        assert(tiles@.subrange(0, tiles@.len() as int) =~= tiles@);
    }
    Ok(LevelPlan { solid_cells, spawns })
}

/// Once a prefix of the tiles has a fault, so has every longer prefix, with the same fault.
proof fn lemma_plan_error_sticks(tiles: Seq<TileDesc>, cs: CharState, n: int)
    requires
        0 < n <= tiles.len(),
        level_plan(tiles.subrange(0, n), cs) is Err,
    ensures
        level_plan(tiles, cs) == level_plan(tiles.subrange(0, n), cs),
    decreases tiles.len() - n,
{
    if n < tiles.len() {
        assert(tiles.subrange(0, n + 1).drop_last() =~= tiles.subrange(0, n));
        lemma_plan_error_sticks(tiles, cs, n + 1);
    } else {
        assert(tiles.subrange(0, n) =~= tiles);
    }
}

/// Whether `id` was collected as a coin, rare coin or hp-up.
fn contains_collected(char_state: &CharState, id: EntityId) -> (r: bool)
    ensures
        r == char_state.has_collected(id),
{
    crate::char_state::contains_id(&char_state.coins, id) || crate::char_state::contains_id(
        &char_state.rare_coins,
        id,
    ) || crate::char_state::contains_id(&char_state.hp_ups, id)
}

} // verus!
