use tmv::objects::{GameObjectData, PhysicsObjectHandle, Registry};

fn handle(c: u64) -> PhysicsObjectHandle {
    PhysicsObjectHandle { rigid_body: Some(c + 100), collider: c }
}

#[test]
fn spawn_and_find() {
    let mut r = Registry::new();
    r.spawn(handle(1), GameObjectData::Spike);
    r.spawn(handle(2), GameObjectData::Water);
    assert_eq!(r.find(2), Some(1));
    assert_eq!(r.find(1), Some(0));
    assert_eq!(r.find(3), None);
}

#[test]
fn sweep_releases_tombstoned_handles_in_order() {
    let mut r = Registry::new();
    for c in 1..=4 {
        r.spawn(handle(c), GameObjectData::Coin { entity_id: c as i32 });
    }
    r.tombstone(3);
    r.tombstone(1);
    let released = r.sweep();
    assert_eq!(released, vec![handle(2), handle(4)]);
    assert_eq!(r.objects.len(), 2);
    assert_eq!(r.find(1), Some(0));
    assert_eq!(r.find(3), Some(1));
    assert_eq!(r.find(2), None);
    assert_eq!(r.find(4), None);
}

#[test]
fn second_sweep_is_a_no_op() {
    let mut r = Registry::new();
    r.spawn(handle(7), GameObjectData::Bullet);
    r.spawn(handle(8), GameObjectData::Bee);
    r.tombstone(0);
    assert_eq!(r.sweep(), vec![handle(7)]);
    let before = r.objects.clone();
    assert!(r.sweep().is_empty());
    assert_eq!(r.objects, before);
}

#[test]
fn set_data_keeps_handle() {
    let mut r = Registry::new();
    r.spawn(handle(5), GameObjectData::Platform { currently_solid: true });
    r.set_data(0, GameObjectData::Platform { currently_solid: false });
    assert_eq!(r.objects[0].physics_handle, handle(5));
    assert_eq!(r.objects[0].data, GameObjectData::Platform { currently_solid: false });
}
