use tmv::char_state::CharState;
use tmv::input::InputFlags;
use tmv::units::Dir;

#[test]
fn keys_set_edge_flags() {
    let mut f = InputFlags::new();
    assert!(!f.key_down(&"z".to_string(), false));
    assert!(f.jump_hit);
    assert!(!f.key_down(&"Shift".to_string(), false));
    assert!(f.dash_hit);
    assert!(!f.key_down(&"e".to_string(), false));
    assert!(f.interact_hit);
    f.end_frame();
    assert_eq!(f, InputFlags::new());
    f.key_down(&"ArrowUp".to_string(), false);
    assert!(f.jump_hit);
}

#[test]
fn map_key_toggles() {
    let mut f = InputFlags::new();
    f.key_down(&"m".to_string(), false);
    assert!(f.showing_map);
    f.end_frame();
    assert!(f.showing_map);
    f.key_down(&"m".to_string(), false);
    assert!(!f.showing_map);
}

#[test]
fn space_respawns_only_the_dead() {
    let mut f = InputFlags::new();
    assert!(!f.key_down(&" ".to_string(), false));
    assert!(f.key_down(&" ".to_string(), true));
    assert!(!f.key_down(&"x".to_string(), true));
}

#[test]
fn default_progress_has_one_hit_point() {
    let c = CharState::default();
    assert_eq!(c.hp, 1);
    assert!(c.coins.is_empty() && c.hp_ups.is_empty() && c.power_ups.is_empty());
    assert!(!c.int1_completed && !c.int2_completed);
}

#[test]
fn reset_hp_counts_hp_ups() {
    let mut c = CharState::new();
    c.hp = -4;
    c.hp_ups = vec![10, 20, 30];
    c.reset_hp();
    assert_eq!(c.hp, 4);
}

#[test]
fn cardinal_directions() {
    assert_eq!(Dir::cardinal_direction(0), Dir { x: -1, y: 0 });
    assert_eq!(Dir::cardinal_direction(1), Dir { x: 0, y: 1 });
    assert_eq!(Dir::cardinal_direction(2), Dir { x: 1, y: 0 });
    assert_eq!(Dir::cardinal_direction(3), Dir { x: 0, y: -1 });
}
