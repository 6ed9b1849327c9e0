use vstd::prelude::*;

use crate::units::HalfTile;

verus! {

/// A stable identifier of a unique pickup: `1_000_000 * tile_y + tile_x`.
pub type EntityId = i32;

/// An ability that the player can own.
#[derive(Clone, Copy, Debug, PartialEq, Eq, Structural)]
pub enum PowerUp {
    Dash,
    DoubleJump,
    WallJump,
    Small,
    Water,
    Lava,
}

/// Whether `v` holds `x`.
pub fn contains_id(v: &Vec<EntityId>, x: EntityId) -> (r: bool)
    ensures
        r == v@.contains(x),
{
    let mut i: usize = 0;
    while i < v.len()
        invariant
            i <= v@.len(),
            forall|j: int| 0 <= j < i ==> v@[j] != x,
        decreases v@.len() - i,
    {
        if v[i] == x {
            return true;
        }
        i = i + 1;
    }
    false
}

/// Whether `v` holds `p`.
pub fn contains_power_up(v: &Vec<PowerUp>, p: PowerUp) -> (r: bool)
    ensures
        r == v@.contains(p),
{
    let mut i: usize = 0;
    while i < v.len()
        invariant
            i <= v@.len(),
            forall|j: int| 0 <= j < i ==> v@[j] != p,
        decreases v@.len() - i,
    {
        if v[i] == p {
            return true;
        }
        i = i + 1;
    }
    false
}

/// Adds `x` to `v` unless it is already there.
fn insert_id(v: &mut Vec<EntityId>, x: EntityId)
    requires
        old(v)@.no_duplicates(),
    ensures
        final(v)@.no_duplicates(),
        final(v)@.to_set() == old(v)@.to_set().insert(x),
        old(v)@.contains(x) ==> final(v)@ == old(v)@,
        !old(v)@.contains(x) ==> final(v)@ == old(v)@.push(x),
{
    if !contains_id(v, x) {
        v.push(x);
        proof {
            assert(final(v)@.to_set() =~= old(v)@.to_set().insert(x)) by {
                assert forall|y: EntityId| final(v)@.contains(y) <==> old(v)@.contains(y) || y == x by {
                    if final(v)@.contains(y) && y != x {
                        let j = choose|j: int| 0 <= j < final(v)@.len() && final(v)@[j] == y;
                        assert(old(v)@[j] == y);
                    }
                    if y == x {
                        assert(final(v)@[final(v)@.len() - 1] == x);
                    }
                    if old(v)@.contains(y) {
                        let j = choose|j: int| 0 <= j < old(v)@.len() && old(v)@[j] == y;
                        assert(final(v)@[j] == y);
                    }
                }
            }
        }
    } else {
        proof {
            assert(old(v)@.to_set().insert(x) =~= old(v)@.to_set());
        }
    }
}

/// Adds `p` to `v` unless it is already there.
fn insert_power_up(v: &mut Vec<PowerUp>, p: PowerUp)
    requires
        old(v)@.no_duplicates(),
    ensures
        final(v)@.no_duplicates(),
        final(v)@.to_set() == old(v)@.to_set().insert(p),
{
    if !contains_power_up(v, p) {
        v.push(p);
        proof {
            assert(final(v)@.to_set() =~= old(v)@.to_set().insert(p)) by {
                assert forall|y: PowerUp| final(v)@.contains(y) <==> old(v)@.contains(y) || y == p by {
                    if final(v)@.contains(y) && y != p {
                        let j = choose|j: int| 0 <= j < final(v)@.len() && final(v)@[j] == y;
                        assert(old(v)@[j] == y);
                    }
                    if y == p {
                        assert(final(v)@[final(v)@.len() - 1] == p);
                    }
                    if old(v)@.contains(y) {
                        let j = choose|j: int| 0 <= j < old(v)@.len() && old(v)@[j] == y;
                        assert(final(v)@[j] == y);
                    }
                }
            }
        }
    } else {
        proof {
            assert(old(v)@.to_set().insert(p) =~= old(v)@.to_set());
        }
    }
}

/// Whether every element of `a` is in `b`.
fn ids_within(a: &Vec<EntityId>, b: &Vec<EntityId>) -> (r: bool)
    ensures
        r == a@.to_set().subset_of(b@.to_set()),
{
    let mut i: usize = 0;
    while i < a.len()
        invariant
            i <= a@.len(),
            forall|j: int| 0 <= j < i ==> b@.contains(#[trigger] a@[j]),
        decreases a@.len() - i,
    {
        if !contains_id(b, a[i]) {
            proof {
                assert(a@.to_set().contains(a@[i as int]));
            }
            return false;
        }
        i = i + 1;
    }
    proof {
        assert forall|x: EntityId| a@.to_set().contains(x) implies b@.to_set().contains(x) by {
            let j = choose|j: int| 0 <= j < a@.len() && a@[j] == x;
        }
    }
    true
}

/// Whether `a` and `b` hold the same identifiers, in any order.
fn same_ids(a: &Vec<EntityId>, b: &Vec<EntityId>) -> (r: bool)
    ensures
        r == (a@.to_set() == b@.to_set()),
{
    let r = ids_within(a, b) && ids_within(b, a);
    proof {
        if a@.to_set().subset_of(b@.to_set()) && b@.to_set().subset_of(a@.to_set()) {
            assert(a@.to_set() =~= b@.to_set());
        }
    }
    r
}

/// Whether `a` and `b` hold the same abilities, in any order.
fn same_power_ups(a: &Vec<PowerUp>, b: &Vec<PowerUp>) -> (r: bool)
    ensures
        r == (a@.to_set() == b@.to_set()),
{
    let mut i: usize = 0;
    while i < a.len()
        invariant
            i <= a@.len(),
            forall|j: int| 0 <= j < i ==> b@.contains(#[trigger] a@[j]),
        decreases a@.len() - i,
    {
        if !contains_power_up(b, a[i]) {
            proof {
                assert(a@.to_set().contains(a@[i as int]));
            }
            return false;
        }
        i = i + 1;
    }
    let mut k: usize = 0;
    while k < b.len()
        invariant
            k <= b@.len(),
            forall|j: int| 0 <= j < a@.len() ==> b@.contains(#[trigger] a@[j]),
            forall|j: int| 0 <= j < k ==> a@.contains(#[trigger] b@[j]),
        decreases b@.len() - k,
    {
        if !contains_power_up(a, b[k]) {
            proof {
                assert(b@.to_set().contains(b@[k as int]));
            }
            return false;
        }
        k = k + 1;
    }
    proof {
        assert forall|x: PowerUp| a@.to_set().contains(x) <==> b@.to_set().contains(x) by {
            if a@.contains(x) {
                let j = choose|j: int| 0 <= j < a@.len() && a@[j] == x;
            }
            if b@.contains(x) {
                let j = choose|j: int| 0 <= j < b@.len() && b@[j] == x;
            }
        }
        assert(a@.to_set() =~= b@.to_set());
    }
    true
}

/// A copy of `v`.
fn copy_ids(v: &Vec<EntityId>) -> (r: Vec<EntityId>)
    ensures
        r@ == v@,
{
    let mut r: Vec<EntityId> = Vec::new();
    let mut i: usize = 0;
    while i < v.len()
        invariant
            i <= v@.len(),
            r@ == v@.subrange(0, i as int),
        decreases v@.len() - i,
    {
        r.push(v[i]);
        i = i + 1;
        proof {
            assert(r@ =~= v@.subrange(0, i as int));
        }
    }
    proof {
        assert(r@ =~= v@);
    }
    r
}

/// A copy of `v`.
fn copy_power_ups(v: &Vec<PowerUp>) -> (r: Vec<PowerUp>)
    ensures
        r@ == v@,
{
    let mut r: Vec<PowerUp> = Vec::new();
    let mut i: usize = 0;
    while i < v.len()
        invariant
            i <= v@.len(),
            r@ == v@.subrange(0, i as int),
        decreases v@.len() - i,
    {
        r.push(v[i]);
        i = i + 1;
        proof {
            assert(r@ =~= v@.subrange(0, i as int));
        }
    }
    proof {
        assert(r@ =~= v@);
    }
    r
}

/// The player's persistent progress.
pub struct CharState {
    pub save_point: HalfTile,
    pub hp: i32,
    pub power_ups: Vec<PowerUp>,
    pub coins: Vec<EntityId>,
    pub rare_coins: Vec<EntityId>,
    pub hp_ups: Vec<EntityId>,
    pub int1_completed: bool,
    pub int2_completed: bool,
}

impl Default for CharState {
    fn default() -> (r: CharState)
        ensures
            r.wf(),
            r.model() == CharState::new_model(),
    {
        CharState::new()
    }
}

/// What a character state records, with its collections taken as sets.
pub struct CharModel {
    pub save_point: HalfTile,
    pub hp: int,
    pub power_ups: Set<PowerUp>,
    pub coins: Set<EntityId>,
    pub rare_coins: Set<EntityId>,
    pub hp_ups: Set<EntityId>,
    pub int1_completed: bool,
    pub int2_completed: bool,
}

/// The hit points that `hp_up_count` collected hp-ups give, saturating at `i32::MAX`.
pub open spec fn full_hp(hp_up_count: nat) -> int {
    if hp_up_count < i32::MAX {
        hp_up_count as int + 1
    } else {
        i32::MAX as int
    }
}

impl CharState {
    /// The progress of a fresh start.
    pub open spec fn new_model() -> CharModel {
        CharModel {
            save_point: HalfTile { x: 0, y: 0 },
            hp: 1,
            power_ups: Set::empty(),
            coins: Set::empty(),
            rare_coins: Set::empty(),
            hp_ups: Set::empty(),
            int1_completed: false,
            int2_completed: false,
        }
    }

    /// Each collection holds an item at most once.
    pub open spec fn wf(&self) -> bool {
        &&& self.power_ups@.no_duplicates()
        &&& self.coins@.no_duplicates()
        &&& self.rare_coins@.no_duplicates()
        &&& self.hp_ups@.no_duplicates()
    }

    pub open spec fn model(&self) -> CharModel {
        CharModel {
            save_point: self.save_point,
            hp: self.hp as int,
            power_ups: self.power_ups@.to_set(),
            coins: self.coins@.to_set(),
            rare_coins: self.rare_coins@.to_set(),
            hp_ups: self.hp_ups@.to_set(),
            int1_completed: self.int1_completed,
            int2_completed: self.int2_completed,
        }
    }

    /// Whether `id` has been collected as a coin, rare coin or hp-up.
    pub open spec fn has_collected(&self, id: EntityId) -> bool {
        self.coins@.contains(id) || self.rare_coins@.contains(id) || self.hp_ups@.contains(id)
    }

    /// A fresh start: one hit point, nothing collected, the save point at the origin.
    pub fn new() -> (r: CharState)
        ensures
            r.wf(),
            r.save_point == (HalfTile { x: 0, y: 0 }),
            r.hp == 1,
            r.power_ups@.len() == 0,
            r.coins@.len() == 0,
            r.rare_coins@.len() == 0,
            r.hp_ups@.len() == 0,
            !r.int1_completed,
            !r.int2_completed,
            r.model() == CharState::new_model(),
    {
        let r = CharState {
            save_point: HalfTile { x: 0, y: 0 },
            hp: 1,
            power_ups: Vec::new(),
            coins: Vec::new(),
            rare_coins: Vec::new(),
            hp_ups: Vec::new(),
            int1_completed: false,
            int2_completed: false,
        };
        proof {
            assert(r.power_ups@.to_set() =~= Set::empty());
            assert(r.coins@.to_set() =~= Set::empty());
            assert(r.rare_coins@.to_set() =~= Set::empty());
            assert(r.hp_ups@.to_set() =~= Set::empty());
        }
        r
    }

    /// Restores full health: one hit point plus one per collected hp-up.
    pub fn reset_hp(&mut self)
        requires
            old(self).wf(),
        ensures
            final(self).wf(),
            final(self).hp == full_hp(old(self).hp_ups@.len()),
            final(self).hp_ups@ == old(self).hp_ups@,
            final(self).model() == (CharModel { hp: final(self).hp as int, ..old(self).model() }),
    {
        if self.hp_ups.len() < i32::MAX as usize {
            self.hp = self.hp_ups.len() as i32 + 1;
        } else {
            self.hp = i32::MAX;
        }
    }

    /// A copy of this state.
    pub fn snapshot(&self) -> (r: CharState)
        ensures
            r.save_point == self.save_point,
            r.hp == self.hp,
            r.power_ups@ == self.power_ups@,
            r.coins@ == self.coins@,
            r.rare_coins@ == self.rare_coins@,
            r.hp_ups@ == self.hp_ups@,
            r.int1_completed == self.int1_completed,
            r.int2_completed == self.int2_completed,
    {
        CharState {
            save_point: self.save_point,
            hp: self.hp,
            power_ups: copy_power_ups(&self.power_ups),
            coins: copy_ids(&self.coins),
            rare_coins: copy_ids(&self.rare_coins),
            hp_ups: copy_ids(&self.hp_ups),
            int1_completed: self.int1_completed,
            int2_completed: self.int2_completed,
        }
    }

    /// Whether both states record the same progress.
    pub fn same_progress(&self, other: &CharState) -> (r: bool)
        ensures
            r == (self.model() == other.model()),
    {
        let r = self.save_point == other.save_point
            && self.hp == other.hp && self.int1_completed
            == other.int1_completed && self.int2_completed == other.int2_completed
            && same_power_ups(&self.power_ups, &other.power_ups) && same_ids(
            &self.coins,
            &other.coins,
        ) && same_ids(&self.rare_coins, &other.rare_coins) && same_ids(
            &self.hp_ups,
            &other.hp_ups,
        );
        r
    }

    pub fn has_power_up(&self, p: PowerUp) -> (r: bool)
        ensures
            r == self.power_ups@.contains(p),
    {
        contains_power_up(&self.power_ups, p)
    }

    /// Records that the pickup `id` was collected as a coin.
    pub fn collect_coin(&mut self, id: EntityId)
        requires
            old(self).wf(),
        ensures
            final(self).wf(),
            final(self).model() == (CharModel {
                coins: old(self).model().coins.insert(id),
                ..old(self).model()
            }),
    {
        insert_id(&mut self.coins, id);
    }

    /// Records that the pickup `id` was collected as a rare coin.
    pub fn collect_rare_coin(&mut self, id: EntityId)
        requires
            old(self).wf(),
        ensures
            final(self).wf(),
            final(self).model() == (CharModel {
                rare_coins: old(self).model().rare_coins.insert(id),
                ..old(self).model()
            }),
    {
        insert_id(&mut self.rare_coins, id);
    }

    /// Records that the hp-up `id` was collected and restores full health with it.
    pub fn collect_hp_up(&mut self, id: EntityId)
        requires
            old(self).wf(),
        ensures
            final(self).wf(),
            final(self).model() == (CharModel {
                hp_ups: old(self).model().hp_ups.insert(id),
                hp: final(self).hp as int,
                ..old(self).model()
            }),
            final(self).hp == full_hp(final(self).hp_ups@.len()),
            final(self).hp_ups@.len() == old(self).hp_ups@.len() + if old(self).hp_ups@.contains(
                id,
            ) {
                0int
            } else {
                1int
            },
    {
        insert_id(&mut self.hp_ups, id);
        self.reset_hp();
    }

    /// Adds an ability.
    pub fn gain_power_up(&mut self, p: PowerUp)
        requires
            old(self).wf(),
        ensures
            final(self).wf(),
            final(self).model() == (CharModel {
                power_ups: old(self).model().power_ups.insert(p),
                ..old(self).model()
            }),
    {
        insert_power_up(&mut self.power_ups, p);
    }

    /// Takes `damage` hit points when the player is alive and not blinking from an earlier hit;
    /// returns whether the damage was taken. Hit points saturate at `i32::MIN`.
    pub fn take_damage(&mut self, damage: i32, blinking: bool) -> (taken: bool)
        requires
            old(self).wf(),
            damage >= 0,
        ensures
            final(self).wf(),
            taken == (!blinking && old(self).hp > 0),
            final(self).hp == if taken {
                old(self).hp - damage
            } else {
                old(self).hp as int
            },
            final(self).model() == (CharModel { hp: final(self).hp as int, ..old(self).model() }),
    {
        if !blinking && self.hp > 0 {
            self.hp = self.hp - damage;
            true
        } else {
            false
        }
    }
}

} // verus!
