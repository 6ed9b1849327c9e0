use tmv::char_state::{CharState, PowerUp};
use tmv::objects::{GameObjectData, PhysicsObjectHandle};
use tmv::session::{FrameEvents, Session, UnknownInteraction};
use tmv::units::HalfTile;

fn handle(c: u64) -> PhysicsObjectHandle {
    PhysicsObjectHandle { rigid_body: Some(c), collider: c }
}

fn events() -> FrameEvents {
    FrameEvents {
        touching_water: false,
        offered_interaction: None,
        blinking: false,
        damage_taken: None,
        just_saved: false,
        refill_air: false,
    }
}

fn session_with(objects: &[GameObjectData]) -> Session {
    let mut s = Session::new();
    for (k, d) in objects.iter().enumerate() {
        s.objects.spawn(handle(k as u64 + 1), *d);
    }
    s
}

#[test]
fn coin_is_collected_and_tombstoned() {
    let mut s = session_with(&[GameObjectData::Coin { entity_id: 42 }]);
    let mut ev = events();
    s.react_at(0, false, &mut ev);
    assert_eq!(s.char_state.coins, vec![42]);
    assert_eq!(s.objects.objects[0].data, GameObjectData::DeleteMe);
    assert_eq!(ev, events());
    assert_eq!(s.objects.sweep(), vec![handle(1)]);
}

#[test]
fn hp_up_restores_full_health() {
    let mut s = session_with(&[GameObjectData::HpUp { entity_id: 9 }]);
    s.char_state.hp = 1;
    s.char_state.hp_ups = vec![3, 4];
    let mut ev = events();
    s.react_at(0, false, &mut ev);
    assert_eq!(s.char_state.hp_ups, vec![3, 4, 9]);
    assert_eq!(s.char_state.hp, 4);
}

#[test]
fn water_power_up_refills_air() {
    let mut s = session_with(&[GameObjectData::PowerUp { power_up: PowerUp::Water }]);
    let mut ev = events();
    s.react_at(0, false, &mut ev);
    assert!(ev.refill_air);
    assert_eq!(s.char_state.power_ups, vec![PowerUp::Water]);
    assert_eq!(s.objects.objects[0].data, GameObjectData::DeleteMe);
}

#[test]
fn spike_hurts_once_per_blink() {
    let mut s = session_with(&[GameObjectData::Spike, GameObjectData::Spike]);
    s.char_state.hp = 5;
    let mut ev = events();
    s.react_at(0, false, &mut ev);
    assert_eq!(s.char_state.hp, 3);
    assert!(ev.blinking);
    assert_eq!(ev.damage_taken, Some(2));
    s.react_at(1, false, &mut ev);
    assert_eq!(s.char_state.hp, 3);
}

#[test]
fn lava_spares_the_lava_power_up() {
    let mut s = session_with(&[GameObjectData::Lava]);
    s.char_state.hp = 3;
    s.char_state.power_ups.push(PowerUp::Lava);
    let mut ev = events();
    s.react_at(0, false, &mut ev);
    assert_eq!(s.char_state.hp, 3);
    s.char_state.power_ups.clear();
    s.react_at(0, false, &mut ev);
    assert_eq!(s.char_state.hp, -97);
}

#[test]
fn bullet_hits_living_player_and_vanishes() {
    let mut s = session_with(&[GameObjectData::Bullet]);
    s.char_state.hp = 2;
    let mut ev = events();
    s.react_at(0, false, &mut ev);
    assert_eq!(s.char_state.hp, 1);
    assert_eq!(s.objects.objects[0].data, GameObjectData::DeleteMe);

    let mut dead = session_with(&[GameObjectData::Bullet]);
    dead.char_state.hp = 0;
    let mut ev = events();
    dead.react_at(0, false, &mut ev);
    assert_eq!(dead.objects.objects[0].data, GameObjectData::Bullet);
    assert_eq!(dead.char_state.hp, 0);
}

#[test]
fn water_and_interaction_are_reported() {
    let mut s = session_with(&[
        GameObjectData::Water,
        GameObjectData::Interaction { interaction_number: 2 },
    ]);
    let mut ev = events();
    s.react_at(0, false, &mut ev);
    s.react_at(1, false, &mut ev);
    assert!(ev.touching_water);
    assert_eq!(ev.offered_interaction, Some(2));
    assert_eq!(s.objects.objects[0].data, GameObjectData::Water);
}

#[test]
fn platform_takes_given_solidity() {
    let mut s = session_with(&[GameObjectData::Platform { currently_solid: true }]);
    let mut ev = events();
    s.react_at(0, false, &mut ev);
    assert_eq!(s.objects.objects[0].data, GameObjectData::Platform { currently_solid: false });
    s.react_at(0, true, &mut ev);
    assert_eq!(s.objects.objects[0].data, GameObjectData::Platform { currently_solid: true });
}

#[test]
fn save_point_records_checkpoint_once() {
    let at = HalfTile { x: 10, y: 13 };
    let mut s = session_with(&[GameObjectData::SavePoint { at }]);
    s.char_state.hp = 1;
    s.char_state.hp_ups = vec![1, 2];
    let mut ev = events();
    s.react_at(0, false, &mut ev);
    assert!(ev.just_saved);
    assert_eq!(s.char_state.save_point, HalfTile { x: 10, y: 11 });
    assert_eq!(s.char_state.hp, 3);
    assert_eq!(s.saved_char_state.save_point, HalfTile { x: 10, y: 11 });
    assert_eq!(s.saved_char_state.hp, 3);
    let mut ev = events();
    s.react_at(0, false, &mut ev);
    assert!(!ev.just_saved);
}

#[test]
fn coin_wall_breaks_at_its_count() {
    let wall = GameObjectData::CoinWall { count: 5 };
    let mut s = session_with(&[wall, GameObjectData::Spike]);
    s.char_state.coins = vec![1, 2, 3, 4];
    assert!(s.break_coin_walls().is_empty());
    assert_eq!(s.objects.objects[0].data, wall);
    s.char_state.coins.push(5);
    assert_eq!(s.break_coin_walls(), vec![handle(1)]);
    assert_eq!(s.objects.objects[0].data, GameObjectData::DeleteMe);
    assert_eq!(s.objects.objects[1].data, GameObjectData::Spike);
    assert_eq!(s.objects.sweep(), vec![handle(1)]);
    assert_eq!(s.objects.find(1), None);
    assert_eq!(s.objects.find(2), Some(0));
}

#[test]
fn respawn_restores_checkpoint_at_full_health() {
    let mut s = session_with(&[GameObjectData::Spike]);
    s.saved_char_state.save_point = HalfTile { x: 8, y: 12 };
    s.saved_char_state.hp_ups = vec![7, 8];
    s.saved_char_state.hp = 1;
    s.char_state.hp = 0;
    s.char_state.coins = vec![99];
    s.respawn();
    assert_eq!(s.char_state.hp, 3);
    assert_eq!(s.char_state.save_point, HalfTile { x: 8, y: 12 });
    assert!(s.char_state.coins.is_empty());
    assert!(s.objects.objects.is_empty());
}

#[test]
fn interactions_clear_their_stones() {
    let inside = GameObjectData::Stone { at: HalfTile { x: 35, y: 57 } };
    let outside = GameObjectData::Stone { at: HalfTile { x: 55, y: 57 } };
    let low = GameObjectData::Stone { at: HalfTile { x: 0, y: 181 } };
    let mut s = session_with(&[inside, outside, low]);
    assert_eq!(s.apply_interaction(1, false, true), Ok(false));
    assert_eq!(s.objects.objects[0].data, inside);
    assert_eq!(s.apply_interaction(1, true, true), Ok(true));
    assert!(s.char_state.int1_completed);
    assert_eq!(s.objects.objects[0].data, GameObjectData::DeleteMe);
    assert_eq!(s.objects.objects[1].data, outside);
    assert_eq!(s.objects.objects[2].data, low);
    assert_eq!(s.apply_interaction(2, true, true), Ok(true));
    assert_eq!(s.objects.objects[2].data, GameObjectData::DeleteMe);
    assert_eq!(s.apply_interaction(3, true, true), Ok(false));
    assert_eq!(s.apply_interaction(4, true, true), Err(UnknownInteraction { interaction_number: 4 }));
}

#[test]
fn completed_interactions_clear_stones_after_load() {
    let inside = GameObjectData::Stone { at: HalfTile { x: 54, y: 76 } };
    let low = GameObjectData::Stone { at: HalfTile { x: 0, y: 180 } };
    let mut s = session_with(&[inside, low]);
    s.char_state.int2_completed = true;
    s.apply_completed_interactions();
    assert_eq!(s.objects.objects[0].data, inside);
    assert_eq!(s.objects.objects[1].data, GameObjectData::DeleteMe);
}

#[test]
fn same_progress_ignores_order() {
    let mut a = CharState::new();
    let mut b = CharState::new();
    a.coins = vec![1, 2];
    b.coins = vec![2, 1];
    assert!(a.same_progress(&b));
    b.coins.push(3);
    assert!(!a.same_progress(&b));
}
