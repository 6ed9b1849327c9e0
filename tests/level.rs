use tmv::char_state::{CharState, PowerUp};
use tmv::level::{
    classify_tile, orientation_from_flips, plan_level, power_up_from_name, LevelError, PropValue,
    Spawn, TileDesc, TilePlan,
};
use tmv::objects::{GameObjectData, ThwumpState};
use tmv::units::{Dir, HalfTile};

fn tile(x: i32, y: i32, name: Option<&str>) -> TileDesc {
    TileDesc {
        x,
        y,
        user_type: None,
        name: name.map(|n| PropValue::Str(n.to_string())),
        power_up: None,
        count: None,
        flip_h: false,
        flip_v: false,
        flip_d: false,
    }
}

fn object(plan: Result<TilePlan, LevelError>) -> (GameObjectData, HalfTile) {
    match plan {
        Ok(TilePlan { spawn: Some(Spawn::Object { data, at }), .. }) => (data, at),
        other => panic!("expected an object, got {:?}", other),
    }
}

#[test]
fn plain_tile_is_solid_and_spawns_nothing() {
    let cs = CharState::new();
    assert_eq!(classify_tile(&tile(3, 4, None), &cs), Ok(TilePlan { solid: true, spawn: None }));
}

#[test]
fn nonsolid_and_marker_tiles_are_not_solid() {
    let cs = CharState::new();
    let mut t = tile(0, 0, None);
    t.user_type = Some("nonsolid".to_string());
    assert_eq!(classify_tile(&t, &cs), Ok(TilePlan { solid: false, spawn: None }));
    t.user_type = Some("marker".to_string());
    assert_eq!(classify_tile(&t, &cs), Ok(TilePlan { solid: false, spawn: None }));
    t.user_type = Some(String::new());
    assert_eq!(classify_tile(&t, &cs), Ok(TilePlan { solid: true, spawn: None }));
}

#[test]
fn unknown_user_type_is_an_error() {
    let mut t = tile(0, 0, Some("coin"));
    t.user_type = Some("lava_pool".to_string());
    assert_eq!(classify_tile(&t, &CharState::new()), Err(LevelError::UnknownUserType));
}

#[test]
fn non_string_name_spawns_nothing() {
    let mut t = tile(0, 0, None);
    t.name = Some(PropValue::Int(3));
    assert_eq!(classify_tile(&t, &CharState::new()), Ok(TilePlan { solid: true, spawn: None }));
}

#[test]
fn coin_gets_id_from_position() {
    let (data, at) = object(classify_tile(&tile(7, 12, Some("coin")), &CharState::new()));
    assert_eq!(data, GameObjectData::Coin { entity_id: 12_000_007 });
    assert_eq!(at, HalfTile { x: 15, y: 25 });
}

#[test]
fn collected_pickups_are_not_spawned() {
    let mut cs = CharState::new();
    cs.coins.push(12_000_007);
    cs.hp_ups.push(5);
    assert_eq!(
        classify_tile(&tile(7, 12, Some("coin")), &cs),
        Ok(TilePlan { solid: true, spawn: None })
    );
    assert_eq!(
        classify_tile(&tile(5, 0, Some("hp_up")), &cs),
        Ok(TilePlan { solid: true, spawn: None })
    );
    // An id recorded under any pickup kind hides every pickup kind at that tile.
    assert_eq!(
        classify_tile(&tile(5, 0, Some("rare_coin")), &cs),
        Ok(TilePlan { solid: true, spawn: None })
    );
    let (data, _) = object(classify_tile(&tile(6, 0, Some("rare_coin")), &cs));
    assert_eq!(data, GameObjectData::RareCoin { entity_id: 6 });
}

#[test]
fn owned_power_up_is_not_spawned() {
    let mut cs = CharState::new();
    let mut t = tile(1, 1, Some("powerup"));
    t.power_up = Some(PropValue::Str("dash".to_string()));
    let (data, _) = object(classify_tile(&t, &cs));
    assert_eq!(data, GameObjectData::PowerUp { power_up: PowerUp::Dash });
    cs.power_ups.push(PowerUp::Dash);
    assert_eq!(classify_tile(&t, &cs), Ok(TilePlan { solid: true, spawn: None }));
}

#[test]
fn power_up_errors() {
    let cs = CharState::new();
    let mut t = tile(1, 1, Some("powerup"));
    assert_eq!(classify_tile(&t, &cs), Err(LevelError::MissingPowerUp));
    t.power_up = Some(PropValue::Int(1));
    assert_eq!(classify_tile(&t, &cs), Err(LevelError::MissingPowerUp));
    t.power_up = Some(PropValue::Str("teleport".to_string()));
    assert_eq!(classify_tile(&t, &cs), Err(LevelError::UnknownPowerUp));
}

#[test]
fn power_up_names() {
    assert_eq!(power_up_from_name(&"double_jump".to_string()), Some(PowerUp::DoubleJump));
    assert_eq!(power_up_from_name(&"wall_jump".to_string()), Some(PowerUp::WallJump));
    assert_eq!(power_up_from_name(&"small".to_string()), Some(PowerUp::Small));
    assert_eq!(power_up_from_name(&"water".to_string()), Some(PowerUp::Water));
    assert_eq!(power_up_from_name(&"lava".to_string()), Some(PowerUp::Lava));
    assert_eq!(power_up_from_name(&"Dash".to_string()), None);
}

#[test]
fn coin_wall_needs_an_integer_count() {
    let cs = CharState::new();
    let mut t = tile(2, 2, Some("coin_wall"));
    assert_eq!(classify_tile(&t, &cs), Err(LevelError::MissingCount));
    t.count = Some(PropValue::Str("5".to_string()));
    assert_eq!(classify_tile(&t, &cs), Err(LevelError::CountNotInt));
    t.count = Some(PropValue::Int(5));
    let (data, _) = object(classify_tile(&t, &cs));
    assert_eq!(data, GameObjectData::CoinWall { count: 5 });
}

#[test]
fn unsupported_tile_name_is_an_error() {
    assert_eq!(
        classify_tile(&tile(0, 0, Some("dragon")), &CharState::new()),
        Err(LevelError::UnsupportedTileName)
    );
}

#[test]
fn out_of_range_tiles_are_errors() {
    let cs = CharState::new();
    assert_eq!(classify_tile(&tile(i32::MAX, 0, Some("spike")), &cs), Err(LevelError::OutOfRange));
    // The id 1_000_000 * 3000 does not fit in an i32.
    assert_eq!(classify_tile(&tile(0, 3000, Some("coin")), &cs), Err(LevelError::OutOfRange));
    let (data, _) = object(classify_tile(&tile(0, 3000, Some("spike")), &cs));
    assert_eq!(data, GameObjectData::Spike);
}

#[test]
fn save_point_and_spawn_positions() {
    let cs = CharState::new();
    let (data, at) = object(classify_tile(&tile(4, 6, Some("save_left")), &cs));
    assert_eq!(at, HalfTile { x: 10, y: 13 });
    assert_eq!(data, GameObjectData::SavePoint { at: HalfTile { x: 10, y: 13 } });
    assert_eq!(
        classify_tile(&tile(4, 6, Some("spawn")), &cs),
        Ok(TilePlan { solid: true, spawn: Some(Spawn::SpawnPoint { at: HalfTile { x: 8, y: 12 } }) })
    );
}

#[test]
fn flips_turn_orientation() {
    assert_eq!(orientation_from_flips(false, false, false), (Dir { x: 1, y: 0 }, false));
    assert_eq!(orientation_from_flips(true, false, false), (Dir { x: -1, y: 0 }, true));
    assert_eq!(orientation_from_flips(false, false, true), (Dir { x: 0, y: 1 }, true));
    assert_eq!(orientation_from_flips(false, true, true), (Dir { x: 0, y: -1 }, false));
    assert_eq!(orientation_from_flips(true, true, true), (Dir { x: 0, y: -1 }, true));
}

#[test]
fn directional_tiles_carry_orientation() {
    let cs = CharState::new();
    let mut t = tile(0, 0, Some("shooter1"));
    t.flip_h = true;
    let (data, _) = object(classify_tile(&t, &cs));
    assert_eq!(data, GameObjectData::Shooter1 { orientation: Dir { x: -1, y: 0 } });
    t.name = Some(PropValue::Str("thwump".to_string()));
    let (data, _) = object(classify_tile(&t, &cs));
    assert_eq!(
        data,
        GameObjectData::Thwump { orientation: Dir { x: -1, y: 0 }, state: ThwumpState::Idle }
    );
    t.name = Some(PropValue::Str("turn_laser".to_string()));
    let (data, _) = object(classify_tile(&t, &cs));
    assert_eq!(
        data,
        GameObjectData::TurnLaser { orientation: Dir { x: -1, y: 0 }, is_mirrored: true }
    );
}

#[test]
fn plan_level_collects_cells_and_spawns_in_order() {
    let mut cs = CharState::new();
    cs.coins.push(1);
    let mut water = tile(2, 0, Some("water"));
    water.user_type = Some("nonsolid".to_string());
    let tiles = vec![tile(0, 0, None), tile(1, 0, Some("coin")), water, tile(3, 0, Some("spike"))];
    let plan = plan_level(&tiles, &cs).expect("valid level");
    assert_eq!(plan.solid_cells, vec![(0, 0), (1, 0), (3, 0)]);
    assert_eq!(plan.spawns.len(), 2);
    assert!(matches!(plan.spawns[0], Spawn::Object { data: GameObjectData::Water, .. }));
    assert!(matches!(plan.spawns[1], Spawn::Object { data: GameObjectData::Spike, .. }));
}

#[test]
fn plan_level_stops_at_first_fault() {
    let tiles = vec![tile(0, 0, Some("dragon")), tile(1, 0, Some("coin_wall"))];
    assert_eq!(plan_level(&tiles, &CharState::new()).err(), Some(LevelError::UnsupportedTileName));
}
