use vstd::prelude::*;

use crate::char_state::{full_hp, CharModel, CharState, PowerUp};
use crate::objects::{GameObject, GameObjectData, PhysicsObjectHandle, Registry};
use crate::units::HalfTile;

verus! {

/// What overlap reactions report to the frame that runs them.
#[derive(Clone, Copy, Debug, PartialEq, Eq, Structural)]
pub struct FrameEvents {
    /// The player touches water.
    pub touching_water: bool,
    /// The interaction that the player may trigger this frame.
    pub offered_interaction: Option<i32>,
    /// The player blinks from a recent hit and takes no damage.
    pub blinking: bool,
    /// The damage taken by the latest hit of this frame.
    pub damage_taken: Option<i32>,
    /// A save point recorded new progress.
    pub just_saved: bool,
    /// The water power-up was picked up: the air supply refills.
    pub refill_air: bool,
}

/// An interaction number that no level object may carry.
#[derive(Clone, Copy, Debug, PartialEq, Eq, Structural)]
pub struct UnknownInteraction {
    pub interaction_number: i32,
}

/// The hit points left after a hit of `damage`: the hit lands only on a living player who is not
/// blinking.
pub open spec fn hp_after_hit(hp: i32, damage: int, blinking: bool) -> int {
    if !blinking && hp > 0 {
        hp - damage
    } else {
        hp as int
    }
}

/// The events after a hit of `damage`.
pub open spec fn events_after_hit(ev: FrameEvents, hp: i32, damage: i32) -> FrameEvents {
    if !ev.blinking && hp > 0 {
        FrameEvents { blinking: true, damage_taken: Some(damage), ..ev }
    } else {
        ev
    }
}

/// The checkpoint that a save point records: one tile above it.
pub open spec fn checkpoint_of(at: HalfTile) -> HalfTile {
    HalfTile { x: at.x, y: if at.y >= i32::MIN + 2 { (at.y - 2) as i32 } else { i32::MIN } }
}

/// The first stone-clearing interaction removes the stones centred in tiles 17 to 27 across and
/// 28 to 38 down.
pub open spec fn in_first_stone_area(at: HalfTile) -> bool {
    34 <= at.x <= 54 && 56 <= at.y <= 76
}

/// The second stone-clearing interaction removes the stones centred at tile 90 down or below.
pub open spec fn in_second_stone_area(at: HalfTile) -> bool {
    at.y >= 180
}

/// The object with its data replaced.
pub open spec fn with_data(o: GameObject, data: GameObjectData) -> GameObject {
    GameObject { data, ..o }
}

/// What an object becomes when every object matching `hit` is tombstoned.
pub open spec fn tombstoned_if(o: GameObject, hit: bool) -> GameObject {
    if hit {
        with_data(o, GameObjectData::DeleteMe)
    } else {
        o
    }
}

/// The live game state: the objects of the level, the player's progress, and the progress
/// recorded at the last save point.
pub struct Session {
    pub objects: Registry,
    pub char_state: CharState,
    pub saved_char_state: CharState,
}

impl Session {
    pub open spec fn wf(&self) -> bool {
        &&& self.objects.wf()
        &&& self.char_state.wf()
        &&& self.saved_char_state.wf()
    }

    /// A session on fresh progress with no objects yet.
    pub fn new() -> (r: Session)
        ensures
            r.wf(),
            r.objects.objects@.len() == 0,
            r.char_state.model() == CharState::new_model(),
            r.saved_char_state.model() == CharState::new_model(),
    {
        Session {
            objects: Registry::new(),
            char_state: CharState::new(),
            saved_char_state: CharState::new(),
        }
    }

    /// Reacts to the player overlapping the object at `i`, by the object's kind: a coin, rare
    /// coin or hp-up is collected and tombstoned (an hp-up restores full health); a power-up is
    /// gained and tombstoned; spikes (2), lava without the lava power-up (100), bullets (1) and
    /// bees (1) hurt; a bullet that meets a living player is tombstoned; water is reported; a
    /// save point records a checkpoint above it, restores health and saves the progress; a
    /// platform takes `platform_clear` as its solidity; an interaction is offered. Other kinds
    /// have no reaction.
    pub fn react_at(&mut self, i: usize, platform_clear: bool, ev: &mut FrameEvents)
        requires
            old(self).wf(),
            i < old(self).objects.objects@.len(),
        ensures
            final(self).wf(),
            final(self).objects.live@ == old(self).objects.live@,
            ({
                let o = old(self).objects.objects@[i as int];
                let objs = old(self).objects.objects@;
                let cs = old(self).char_state;
                let new_cs = final(self).char_state;
                let e = *old(ev);
                let same_objects = final(self).objects.objects@ == objs;
                let tombstoned = final(self).objects.objects@ == objs.update(
                    i as int,
                    with_data(o, GameObjectData::DeleteMe),
                );
                let same_cs = new_cs.model() == cs.model();
                let hit = |damage: i32|
                    new_cs.model() == (CharModel {
                        hp: hp_after_hit(cs.hp, damage as int, e.blinking),
                        ..cs.model()
                    }) && *final(ev) == events_after_hit(e, cs.hp, damage);
                &&& (match o.data {
                    GameObjectData::SavePoint { .. } => true,
                    _ => final(self).saved_char_state == old(self).saved_char_state,
                })
                &&& match o.data {
                    GameObjectData::Coin { entity_id } => tombstoned && new_cs.model() == (
                    CharModel { coins: cs.model().coins.insert(entity_id), ..cs.model() })
                        && *final(ev) == e,
                    GameObjectData::RareCoin { entity_id } => tombstoned && new_cs.model() == (
                    CharModel {
                        rare_coins: cs.model().rare_coins.insert(entity_id),
                        ..cs.model()
                    }) && *final(ev) == e,
                    GameObjectData::HpUp { entity_id } => tombstoned && new_cs.model() == (
                    CharModel {
                        hp_ups: cs.model().hp_ups.insert(entity_id),
                        hp: full_hp(new_cs.hp_ups@.len()),
                        ..cs.model()
                    }) && *final(ev) == e,
                    GameObjectData::PowerUp { power_up } => tombstoned && new_cs.model() == (
                    CharModel { power_ups: cs.model().power_ups.insert(power_up), ..cs.model() })
                        && *final(ev) == (FrameEvents {
                        refill_air: e.refill_air || power_up == PowerUp::Water,
                        ..e
                    }),
                    GameObjectData::Spike => same_objects && hit(2),
                    GameObjectData::Lava => same_objects && if cs.power_ups@.contains(
                        PowerUp::Lava,
                    ) {
                        same_cs && *final(ev) == e
                    } else {
                        hit(100)
                    },
                    GameObjectData::Bullet => if cs.hp > 0 {
                        tombstoned && hit(1)
                    } else {
                        same_objects && same_cs && *final(ev) == e
                    },
                    GameObjectData::Bee => same_objects && hit(1),
                    GameObjectData::Water => same_objects && same_cs && *final(ev) == (
                    FrameEvents { touching_water: true, ..e }),
                    GameObjectData::SavePoint { at } => {
                        let saved = CharModel {
                            save_point: checkpoint_of(at),
                            hp: full_hp(cs.hp_ups@.len()),
                            ..cs.model()
                        };
                        &&& same_objects
                        &&& new_cs.model() == saved
                        &&& final(self).saved_char_state.model() == saved
                        &&& *final(ev) == (FrameEvents {
                            just_saved: e.just_saved || saved != old(self).saved_char_state.model(),
                            ..e
                        })
                    },
                    GameObjectData::Platform { .. } => final(self).objects.objects@ == objs.update(
                        i as int,
                        with_data(o, GameObjectData::Platform { currently_solid: platform_clear }),
                    ) && same_cs && *final(ev) == e,
                    GameObjectData::Interaction { interaction_number } => same_objects && same_cs
                        && *final(ev) == (FrameEvents {
                        offered_interaction: Some(interaction_number),
                        ..e
                    }),
                    _ => same_objects && same_cs && *final(ev) == e,
                }
            }),
    {
        let o = self.objects.objects[i];
        match o.data {
            GameObjectData::Coin { entity_id } => {
                self.objects.tombstone(i);
                self.char_state.collect_coin(entity_id);
            },
            GameObjectData::RareCoin { entity_id } => {
                self.objects.tombstone(i);
                self.char_state.collect_rare_coin(entity_id);
            },
            GameObjectData::HpUp { entity_id } => {
                self.objects.tombstone(i);
                self.char_state.collect_hp_up(entity_id);
            },
            GameObjectData::PowerUp { power_up } => {
                self.char_state.gain_power_up(power_up);
                if power_up == PowerUp::Water {
                    ev.refill_air = true;
                }
                self.objects.tombstone(i);
            },
            GameObjectData::Spike => {
                self.hit(2, ev);
            },
            GameObjectData::Lava => {
                if !self.char_state.has_power_up(PowerUp::Lava) {
                    self.hit(100, ev);
                }
            },
            GameObjectData::Bullet => {
                if self.char_state.hp > 0 {
                    self.hit(1, ev);
                    self.objects.tombstone(i);
                }
            },
            GameObjectData::Bee => {
                self.hit(1, ev);
            },
            GameObjectData::Water => {
                ev.touching_water = true;
            },
            GameObjectData::SavePoint { at } => {
                let y = if at.y >= i32::MIN + 2 {
                    at.y - 2
                } else {
                    i32::MIN
                };
                self.char_state.save_point = HalfTile { x: at.x, y };
                self.char_state.reset_hp();
                if !self.char_state.same_progress(&self.saved_char_state) {
                    ev.just_saved = true;
                }
                self.saved_char_state = self.char_state.snapshot();
                proof {
                    assert(self.saved_char_state.model() == self.char_state.model());
                }
            },
            GameObjectData::Platform { .. } => {
                self.objects.set_data(i, GameObjectData::Platform { currently_solid: platform_clear });
            },
            GameObjectData::Interaction { interaction_number } => {
                ev.offered_interaction = Some(interaction_number);
            },
            _ => {},
        }
    }

    /// The player takes a hit of `damage` unless dead or blinking.
    fn hit(&mut self, damage: i32, ev: &mut FrameEvents)
        requires
            old(self).wf(),
            0 <= damage <= 100,
        ensures
            final(self).wf(),
            final(self).objects == old(self).objects,
            final(self).saved_char_state == old(self).saved_char_state,
            final(self).char_state.model() == (CharModel {
                hp: hp_after_hit(old(self).char_state.hp, damage as int, old(ev).blinking),
                ..old(self).char_state.model()
            }),
            *final(ev) == events_after_hit(*old(ev), old(self).char_state.hp, damage),
    {
        if self.char_state.take_damage(damage, ev.blinking) {
            ev.blinking = true;
            ev.damage_taken = Some(damage);
        }
    }

    /// Tombstones every coin wall whose threshold the collected coins meet, and returns the
    /// handles of those walls, in registry order, for the doors that replace them.
    pub fn break_coin_walls(&mut self) -> (broken: Vec<PhysicsObjectHandle>)
        requires
            old(self).wf(),
        ensures
            final(self).wf(),
            final(self).char_state == old(self).char_state,
            final(self).saved_char_state == old(self).saved_char_state,
            final(self).objects.live@ == old(self).objects.live@,
            final(self).objects.objects@.len() == old(self).objects.objects@.len(),
            forall|j: int|
                0 <= j < old(self).objects.objects@.len() ==> #[trigger] final(self).objects.objects@[j] == tombstoned_if(
                    old(self).objects.objects@[j],
                    wall_breaks(old(self).objects.objects@[j], old(self).char_state.coins@.len()),
                ),
            forall|k: int|
                0 <= k < broken@.len() ==> exists|j: int|
                    0 <= j < old(self).objects.objects@.len() && wall_breaks(
                        old(self).objects.objects@[j],
                        old(self).char_state.coins@.len(),
                    ) && old(self).objects.objects@[j].physics_handle == #[trigger] broken@[k],
            forall|j: int|
                0 <= j < old(self).objects.objects@.len() && wall_breaks(
                    #[trigger] old(self).objects.objects@[j],
                    old(self).char_state.coins@.len(),
                ) ==> broken@.contains(old(self).objects.objects@[j].physics_handle),
    {
        let ghost objs = self.objects.objects@;
        let coins: usize = self.char_state.coins.len();
        let mut broken: Vec<PhysicsObjectHandle> = Vec::new();
        let mut i: usize = 0;
        while i < self.objects.objects.len()
            invariant
                self.wf(),
                self.char_state == old(self).char_state,
                self.saved_char_state == old(self).saved_char_state,
                self.objects.live@ == old(self).objects.live@,
                objs == old(self).objects.objects@,
                coins == old(self).char_state.coins@.len(),
                self.objects.objects@.len() == objs.len(),
                i <= objs.len(),
                forall|j: int|
                    0 <= j < i ==> #[trigger] self.objects.objects@[j] == tombstoned_if(
                        objs[j],
                        wall_breaks(objs[j], coins as nat),
                    ),
                forall|j: int| i <= j < objs.len() ==> #[trigger] self.objects.objects@[j] == objs[j],
                forall|k: int|
                    0 <= k < broken@.len() ==> exists|j: int|
                        0 <= j < i && wall_breaks(objs[j], coins as nat)
                            && objs[j].physics_handle == #[trigger] broken@[k],
                forall|j: int|
                    0 <= j < i && wall_breaks(#[trigger] objs[j], coins as nat) ==> broken@.contains(
                        objs[j].physics_handle,
                    ),
            decreases objs.len() - i,
        {
            let o = self.objects.objects[i];
            match o.data {
                GameObjectData::CoinWall { count } => {
                    if count <= 0 || coins >= count as usize {
                        self.objects.tombstone(i);
                        let ghost before = broken@;
                        broken.push(o.physics_handle);
                        proof {
                            assert(broken@[broken@.len() - 1] == o.physics_handle);
                            assert forall|k: int| 0 <= k < broken@.len() implies exists|j: int|
                                0 <= j < i + 1 && wall_breaks(objs[j], coins as nat)
                                    && objs[j].physics_handle == #[trigger] broken@[k] by {
                                if k < before.len() {
                                    assert(broken@[k] == before[k]);
                                } else {
                                    assert(objs[i as int] == o);
                                }
                            }
                            assert forall|j: int|
                                0 <= j < i + 1 && wall_breaks(
                                    #[trigger] objs[j],
                                    coins as nat,
                                ) implies broken@.contains(objs[j].physics_handle) by {
                                if j < i {
                                    let k = choose|k: int|
                                        0 <= k < before.len() && before[k]
                                            == objs[j].physics_handle;
                                    assert(broken@[k] == before[k]);
                                } else {
                                    assert(broken@[broken@.len() - 1] == objs[j].physics_handle);
                                }
                            }
                        }
                    }
                },
                _ => {},
            }
            i = i + 1;
        }
        broken
    }

    /// Tombstones every stone in the area that the first laser clears.
    pub fn interaction1_delete_stone(&mut self)
        requires
            old(self).wf(),
        ensures
            final(self).wf(),
            final(self).char_state == old(self).char_state,
            final(self).saved_char_state == old(self).saved_char_state,
            final(self).objects.live@ == old(self).objects.live@,
            final(self).objects.objects@.len() == old(self).objects.objects@.len(),
            forall|j: int|
                0 <= j < old(self).objects.objects@.len() ==> #[trigger] final(self).objects.objects@[j] == tombstoned_if(
                    old(self).objects.objects@[j],
                    stone_in_area(old(self).objects.objects@[j], true),
                ),
    {
        self.delete_stones(true);
    }

    /// Tombstones every stone in the area that the second laser clears.
    pub fn interaction2_delete_stone(&mut self)
        requires
            old(self).wf(),
        ensures
            final(self).wf(),
            final(self).char_state == old(self).char_state,
            final(self).saved_char_state == old(self).saved_char_state,
            final(self).objects.live@ == old(self).objects.live@,
            final(self).objects.objects@.len() == old(self).objects.objects@.len(),
            forall|j: int|
                0 <= j < old(self).objects.objects@.len() ==> #[trigger] final(self).objects.objects@[j] == tombstoned_if(
                    old(self).objects.objects@[j],
                    stone_in_area(old(self).objects.objects@[j], false),
                ),
    {
        self.delete_stones(false);
    }

    /// Tombstones every stone in the first laser's area (`first`) or the second's.
    fn delete_stones(&mut self, first: bool)
        requires
            old(self).wf(),
        ensures
            final(self).wf(),
            final(self).char_state == old(self).char_state,
            final(self).saved_char_state == old(self).saved_char_state,
            final(self).objects.live@ == old(self).objects.live@,
            final(self).objects.objects@.len() == old(self).objects.objects@.len(),
            forall|j: int|
                0 <= j < old(self).objects.objects@.len() ==> #[trigger] final(self).objects.objects@[j] == tombstoned_if(
                    old(self).objects.objects@[j],
                    stone_in_area(old(self).objects.objects@[j], first),
                ),
    {
        let ghost objs = self.objects.objects@;
        let mut i: usize = 0;
        while i < self.objects.objects.len()
            invariant
                self.wf(),
                self.char_state == old(self).char_state,
                self.saved_char_state == old(self).saved_char_state,
                self.objects.live@ == old(self).objects.live@,
                objs == old(self).objects.objects@,
                self.objects.objects@.len() == objs.len(),
                i <= objs.len(),
                forall|j: int|
                    0 <= j < i ==> #[trigger] self.objects.objects@[j] == tombstoned_if(
                        objs[j],
                        stone_in_area(objs[j], first),
                    ),
                forall|j: int| i <= j < objs.len() ==> #[trigger] self.objects.objects@[j] == objs[j],
            decreases objs.len() - i,
        {
            let o = self.objects.objects[i];
            match o.data {
                GameObjectData::Stone { at } => {
                    let hit = if first {
                        34 <= at.x && at.x <= 54 && 56 <= at.y && at.y <= 76
                    } else {
                        at.y >= 180
                    };
                    if hit {
                        self.objects.tombstone(i);
                    }
                },
                _ => {},
            }
            i = i + 1;
        }
    }

    /// Triggers interaction `interaction`: the first two fire their laser, when it is ready,
    /// record the interaction as completed and clear their stones; the third does nothing.
    /// Returns whether a laser fired.
    pub fn apply_interaction(
        &mut self,
        interaction: i32,
        laser1_ready: bool,
        laser2_ready: bool,
    ) -> (r: Result<bool, UnknownInteraction>)
        requires
            old(self).wf(),
        ensures
            final(self).wf(),
            final(self).saved_char_state == old(self).saved_char_state,
            final(self).objects.live@ == old(self).objects.live@,
            r is Err <==> !(1 <= interaction <= 3),
            r matches Err(e) ==> e.interaction_number == interaction,
            r matches Ok(fired) ==> fired == ((interaction == 1 && laser1_ready) || (interaction
                == 2 && laser2_ready)),
            r matches Ok(fired) ==> {
                &&& fired ==> final(self).char_state.model() == (if interaction == 1 {
                    CharModel { int1_completed: true, ..old(self).char_state.model() }
                } else {
                    CharModel { int2_completed: true, ..old(self).char_state.model() }
                })
                &&& !fired ==> final(self).char_state == old(self).char_state
                    && final(self).objects == old(self).objects
                &&& final(self).objects.objects@.len() == old(self).objects.objects@.len()
                &&& forall|j: int|
                    0 <= j < old(self).objects.objects@.len() ==> #[trigger] final(self).objects.objects@[j] == tombstoned_if(
                        old(self).objects.objects@[j],
                        fired && stone_in_area(old(self).objects.objects@[j], interaction == 1),
                    )
            },
    {
        if interaction == 1 {
            if laser1_ready {
                self.char_state.int1_completed = true;
                self.interaction1_delete_stone();
            }
            Ok(laser1_ready)
        } else if interaction == 2 {
            if laser2_ready {
                self.char_state.int2_completed = true;
                self.interaction2_delete_stone();
            }
            Ok(laser2_ready)
        } else if interaction == 3 {
            Ok(false)
        } else {
            Err(UnknownInteraction { interaction_number: interaction })
        }
    }

    /// Restores the progress of the last save point, at full health, and empties the level, which
    /// the host then loads again from that progress.
    pub fn respawn(&mut self)
        requires
            old(self).wf(),
        ensures
            final(self).wf(),
            final(self).objects.objects@.len() == 0,
            final(self).saved_char_state == old(self).saved_char_state,
            final(self).char_state.model() == (CharModel {
                hp: full_hp(old(self).saved_char_state.hp_ups@.len()),
                ..old(self).saved_char_state.model()
            }),
            final(self).char_state.save_point == old(self).saved_char_state.save_point,
    {
        self.char_state = self.saved_char_state.snapshot();
        self.char_state.reset_hp();
        self.objects = Registry::new();
    }

    /// Clears the stones of the interactions that the progress records as completed; run after a
    /// level load.
    pub fn apply_completed_interactions(&mut self)
        requires
            old(self).wf(),
        ensures
            final(self).wf(),
            final(self).char_state == old(self).char_state,
            final(self).saved_char_state == old(self).saved_char_state,
            final(self).objects.live@ == old(self).objects.live@,
            final(self).objects.objects@.len() == old(self).objects.objects@.len(),
            forall|j: int|
                0 <= j < old(self).objects.objects@.len() ==> #[trigger] final(self).objects.objects@[j] == tombstoned_if(
                    old(self).objects.objects@[j],
                    (old(self).char_state.int1_completed && stone_in_area(
                        old(self).objects.objects@[j],
                        true,
                    )) || (old(self).char_state.int2_completed && stone_in_area(
                        old(self).objects.objects@[j],
                        false,
                    )),
                ),
    {
        let ghost objs = self.objects.objects@;
        if self.char_state.int1_completed {
            self.interaction1_delete_stone();
        }
        let ghost mid = self.objects.objects@;
        if self.char_state.int2_completed {
            self.interaction2_delete_stone();
        }
        proof {
            assert forall|j: int| 0 <= j < objs.len() implies #[trigger] self.objects.objects@[j]
                == tombstoned_if(
                objs[j],
                (self.char_state.int1_completed && stone_in_area(objs[j], true)) || (
                self.char_state.int2_completed && stone_in_area(objs[j], false)),
            ) by {
                assert(mid[j] == tombstoned_if(
                    objs[j],
                    self.char_state.int1_completed && stone_in_area(objs[j], true),
                ));
            }
        }
    }
}

/// The object is a coin wall whose threshold `coins` collected coins meet.
pub open spec fn wall_breaks(o: GameObject, coins: nat) -> bool {
    match o.data {
        GameObjectData::CoinWall { count } => coins >= count,
        _ => false,
    }
}

/// The object is a stone in the first laser's area (`first`) or the second's.
pub open spec fn stone_in_area(o: GameObject, first: bool) -> bool {
    match o.data {
        GameObjectData::Stone { at } => if first {
            in_first_stone_area(at)
        } else {
            in_second_stone_area(at)
        },
        _ => false,
    }
}

} // verus!
