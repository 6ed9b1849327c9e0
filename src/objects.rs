use vstd::prelude::*;

use crate::char_state::{EntityId, PowerUp};
use crate::units::{Dir, HalfTile};

verus! {

/// The phase of a falling block.
#[derive(Clone, Copy, Debug, PartialEq, Eq, Structural)]
pub enum ThwumpState {
    Idle,
    Falling,
    Rising,
}

/// The identity of a physics object: its body, when it has one, and its collider, each as the
/// raw id that the physics world hands out. Never dereferenced here.
#[derive(Clone, Copy, Debug, PartialEq, Eq, Structural)]
pub struct PhysicsObjectHandle {
    pub rigid_body: Option<u64>,
    pub collider: u64,
}

/// What a game object is. Positions are in half-tile units; directions are unit vectors along an
/// axis. Continuous per-object state (timers, angles, velocities) is kept beside the object by
/// the host that steps the physics.
#[derive(Clone, Copy, Debug, PartialEq, Eq, Structural)]
pub enum GameObjectData {
    Coin { entity_id: EntityId },
    RareCoin { entity_id: EntityId },
    HpUp { entity_id: EntityId },
    PowerUp { power_up: PowerUp },
    CoinWall { count: i32 },
    Spike,
    SavePoint { at: HalfTile },
    Shooter1 { orientation: Dir },
    Bullet,
    Water,
    Lava,
    Platform { currently_solid: bool },
    MovingPlatform { orientation: Dir },
    Thwump { orientation: Dir, state: ThwumpState },
    TurnLaser { orientation: Dir, is_mirrored: bool },
    FloatyText,
    Stone { at: HalfTile },
    VanishBlock { is_solid: bool },
    DestroyedDoor,
    Interaction { interaction_number: i32 },
    Beehive,
    Bee,
    DeleteMe,
}

/// A game object: its physics handle and what it is.
#[derive(Clone, Copy, Debug, PartialEq, Eq, Structural)]
pub struct GameObject {
    pub physics_handle: PhysicsObjectHandle,
    pub data: GameObjectData,
}

/// The object is tombstoned and waits for the next sweep.
pub open spec fn is_deleted(o: GameObject) -> bool {
    o.data == GameObjectData::DeleteMe
}

/// The objects that a sweep keeps, in order.
pub open spec fn kept(s: Seq<GameObject>) -> Seq<GameObject>
    decreases s.len(),
{
    if s.len() == 0 {
        s
    } else if is_deleted(s.last()) {
        kept(s.drop_last())
    } else {
        kept(s.drop_last()).push(s.last())
    }
}

/// The handles that a sweep releases, in order.
pub open spec fn released(s: Seq<GameObject>) -> Seq<PhysicsObjectHandle>
    decreases s.len(),
{
    if s.len() == 0 {
        Seq::empty()
    } else if is_deleted(s.last()) {
        released(s.drop_last()).push(s.last().physics_handle)
    } else {
        released(s.drop_last())
    }
}

/// The colliders of a sequence of objects.
pub open spec fn colliders(s: Seq<GameObject>) -> Set<u64> {
    Set::new(|c: u64| exists|i: int| 0 <= i < s.len() && s[i].physics_handle.collider == c)
}

/// The colliders of a sequence of handles.
pub open spec fn handle_colliders(h: Seq<PhysicsObjectHandle>) -> Set<u64> {
    Set::new(|c: u64| exists|i: int| 0 <= i < h.len() && h[i].collider == c)
}

/// The colliders of the objects of `s` that are tombstoned (`deleted`) or not.
pub open spec fn colliders_where(s: Seq<GameObject>, deleted: bool) -> Set<u64> {
    Set::new(
        |c: u64|
            exists|i: int|
                0 <= i < s.len() && is_deleted(s[i]) == deleted && s[i].physics_handle.collider == c,
    )
}

/// No two objects share a collider.
pub open spec fn unique_colliders(s: Seq<GameObject>) -> bool {
    forall|i: int, j: int|
        0 <= i < s.len() && 0 <= j < s.len() && i != j ==> s[i].physics_handle.collider
            != s[j].physics_handle.collider
}

/// What a sweep keeps and releases together account for every object it saw.
proof fn lemma_sweep_parts(s: Seq<GameObject>)
    ensures
        forall|i: int| 0 <= i < kept(s).len() ==> !is_deleted(#[trigger] kept(s)[i]),
        colliders(kept(s)) == colliders_where(s, false),
        handle_colliders(released(s)) == colliders_where(s, true),
        unique_colliders(s) ==> unique_colliders(kept(s)),
    decreases s.len(),
{
    if s.len() == 0 {
        assert(colliders(kept(s)) =~= colliders_where(s, false));
        assert(handle_colliders(released(s)) =~= colliders_where(s, true));
    } else {
        let p = s.drop_last();
        lemma_sweep_parts(p);
        assert forall|c: u64|
            colliders(kept(s)).contains(c) <==> colliders_where(s, false).contains(c) by {
            if colliders(kept(s)).contains(c) {
                let i = choose|i: int|
                    0 <= i < kept(s).len() && kept(s)[i].physics_handle.collider == c;
                if i < kept(p).len() {
                    assert(kept(s)[i] == kept(p)[i]);
                    assert(colliders(kept(p)).contains(c));
                    assert(colliders_where(p, false).contains(c));
                    let j = choose|j: int|
                        0 <= j < p.len() && is_deleted(p[j]) == false && p[j].physics_handle.collider == c;
                    assert(s[j] == p[j]);
                } else {
                    assert(s[s.len() - 1] == s.last());
                }
            }
            if colliders_where(s, false).contains(c) {
                let i = choose|i: int|
                    0 <= i < s.len() && is_deleted(s[i]) == false && s[i].physics_handle.collider == c;
                if i < s.len() - 1 {
                    assert(p[i] == s[i]);
                    assert(colliders_where(p, false).contains(c));
                    assert(colliders(kept(p)).contains(c));
                    let j = choose|j: int|
                        0 <= j < kept(p).len() && kept(p)[j].physics_handle.collider == c;
                    assert(kept(s)[j] == kept(p)[j]);
                    assert(colliders(kept(s)).contains(c));
                } else {
                    assert(kept(s)[kept(s).len() - 1] == s.last());
                    assert(colliders(kept(s)).contains(c));
                }
            }
        }
        assert forall|c: u64|
            handle_colliders(released(s)).contains(c) <==> colliders_where(s, true).contains(c) by {
            if handle_colliders(released(s)).contains(c) {
                let i = choose|i: int| 0 <= i < released(s).len() && released(s)[i].collider == c;
                if i < released(p).len() {
                    assert(released(s)[i] == released(p)[i]);
                    assert(handle_colliders(released(p)).contains(c));
                    assert(colliders_where(p, true).contains(c));
                    let j = choose|j: int|
                        0 <= j < p.len() && is_deleted(p[j]) == true && p[j].physics_handle.collider == c;
                    assert(s[j] == p[j]);
                } else {
                    assert(s[s.len() - 1] == s.last());
                }
            }
            if colliders_where(s, true).contains(c) {
                let i = choose|i: int|
                    0 <= i < s.len() && is_deleted(s[i]) == true && s[i].physics_handle.collider == c;
                if i < s.len() - 1 {
                    assert(p[i] == s[i]);
                    assert(colliders_where(p, true).contains(c));
                    assert(handle_colliders(released(p)).contains(c));
                    let j = choose|j: int| 0 <= j < released(p).len() && released(p)[j].collider == c;
                    assert(released(s)[j] == released(p)[j]);
                } else {
                    assert(released(s)[released(s).len() - 1].collider == c);
                }
            }
        }
        assert(colliders(kept(s)) =~= colliders_where(s, false));
        assert(handle_colliders(released(s)) =~= colliders_where(s, true));
        if unique_colliders(s) {
            assert(unique_colliders(p)) by {
                assert forall|i: int, j: int|
                    0 <= i < p.len() && 0 <= j < p.len() && i != j implies p[i].physics_handle.collider
                    != p[j].physics_handle.collider by {
                    assert(p[i] == s[i] && p[j] == s[j]);
                }
            }
            if !is_deleted(s.last()) {
                assert forall|i: int, j: int|
                    0 <= i < kept(s).len() && 0 <= j < kept(s).len() && i != j implies kept(
                    s,
                )[i].physics_handle.collider != kept(s)[j].physics_handle.collider by {
                    let n = kept(p).len() as int;
                    if i == n || j == n {
                        let other = if i == n {
                            j
                        } else {
                            i
                        };
                        assert(kept(s)[other] == kept(p)[other]);
                        if kept(p)[other].physics_handle.collider == s.last().physics_handle.collider {
                            assert(colliders(kept(p)).contains(s.last().physics_handle.collider));
                            assert(colliders_where(p, false).contains(s.last().physics_handle.collider));
                            let k = choose|k: int|
                                0 <= k < p.len() && is_deleted(p[k]) == false && p[k].physics_handle.collider
                                    == s.last().physics_handle.collider;
                            assert(s[k] == p[k]);
                            assert(s[s.len() - 1] == s.last());
                        }
                    } else {
                        assert(kept(s)[i] == kept(p)[i]);
                        assert(kept(s)[j] == kept(p)[j]);
                    }
                }
            }
        }
    }
}

/// Sweeping what a sweep kept keeps it all and releases nothing.
pub proof fn lemma_kept_has_no_tombstones(s: Seq<GameObject>)
    ensures
        kept(kept(s)) == kept(s),
        released(kept(s)).len() == 0,
{
    lemma_sweep_parts(s);
    lemma_no_tombstones_sweep(kept(s));
}

/// Where no object is tombstoned, a sweep keeps every object and releases nothing.
proof fn lemma_no_tombstones_sweep(s: Seq<GameObject>)
    requires
        forall|i: int| 0 <= i < s.len() ==> !is_deleted(#[trigger] s[i]),
    ensures
        kept(s) == s,
        released(s).len() == 0,
    decreases s.len(),
{
    if s.len() > 0 {
        let p = s.drop_last();
        assert forall|i: int| 0 <= i < p.len() implies !is_deleted(#[trigger] p[i]) by {
            assert(p[i] == s[i]);
        }
        lemma_no_tombstones_sweep(p);
        assert(!is_deleted(s[s.len() - 1]));
        assert(kept(s) =~= s);
    }
}

/// The game objects of a level, each under its own collider. The ghost set `live` holds the
/// colliders that were handed to this registry and not yet released by a sweep.
pub struct Registry {
    pub objects: Vec<GameObject>,
    pub live: Ghost<Set<u64>>,
}

impl Registry {
    /// Colliders are unique, and the live colliders are exactly those of the objects held.
    pub open spec fn wf(&self) -> bool {
        &&& unique_colliders(self.objects@)
        &&& self.live@ == colliders(self.objects@)
    }

    pub fn new() -> (r: Registry)
        ensures
            r.wf(),
            r.objects@.len() == 0,
            r.live@.is_empty(),
    {
        let r = Registry { objects: Vec::new(), live: Ghost(Set::empty()) };
        proof {
            assert(colliders(r.objects@) =~= Set::empty());
        }
        r
    }

    /// Where collider `c` is held, if anywhere.
    pub fn find(&self, c: u64) -> (r: Option<usize>)
        requires
            self.wf(),
        ensures
            match r {
                Some(i) => i < self.objects@.len() && self.objects@[i as int].physics_handle.collider
                    == c,
                None => !self.live@.contains(c),
            },
    {
        let mut i: usize = 0;
        while i < self.objects.len()
            invariant
                i <= self.objects@.len(),
                forall|j: int| 0 <= j < i ==> self.objects@[j].physics_handle.collider != c,
            decreases self.objects@.len() - i,
        {
            if self.objects[i].physics_handle.collider == c {
                return Some(i);
            }
            i = i + 1;
        }
        None
    }

    /// Registers a freshly created physics object under its collider.
    pub fn spawn(&mut self, physics_handle: PhysicsObjectHandle, data: GameObjectData)
        requires
            old(self).wf(),
            !old(self).live@.contains(physics_handle.collider),
        ensures
            final(self).wf(),
            final(self).objects@ == old(self).objects@.push(
                GameObject { physics_handle, data },
            ),
            final(self).live@ == old(self).live@.insert(physics_handle.collider),
    {
        let ghost before = self.objects@;
        self.objects.push(GameObject { physics_handle, data });
        proof {
            self.live@ = self.live@.insert(physics_handle.collider);
            let s = self.objects@;
            assert forall|c: u64| colliders(s).contains(c) <==> self.live@.contains(c) by {
                if colliders(before).contains(c) {
                    let i = choose|i: int|
                        0 <= i < before.len() && before[i].physics_handle.collider == c;
                    assert(s[i] == before[i]);
                }
                if colliders(s).contains(c) && c != physics_handle.collider {
                    let i = choose|i: int| 0 <= i < s.len() && s[i].physics_handle.collider == c;
                    assert(before[i] == s[i]);
                    assert(colliders(before).contains(c));
                }
                if c == physics_handle.collider {
                    assert(s[s.len() - 1].physics_handle.collider == c);
                }
            }
            assert(colliders(s) =~= self.live@);
            assert forall|i: int, j: int|
                0 <= i < s.len() && 0 <= j < s.len() && i != j implies s[i].physics_handle.collider
                != s[j].physics_handle.collider by {
                if i == s.len() - 1 {
                    assert(s[j] == before[j]);
                    assert(colliders(before).contains(before[j].physics_handle.collider));
                } else if j == s.len() - 1 {
                    assert(s[i] == before[i]);
                    assert(colliders(before).contains(before[i].physics_handle.collider));
                } else {
                    assert(s[i] == before[i] && s[j] == before[j]);
                }
            }
        }
    }

    /// Marks the object at `i` for removal at the next sweep.
    pub fn tombstone(&mut self, i: usize)
        requires
            old(self).wf(),
            i < old(self).objects@.len(),
        ensures
            final(self).wf(),
            final(self).live@ == old(self).live@,
            final(self).objects@ == old(self).objects@.update(
                i as int,
                GameObject { data: GameObjectData::DeleteMe, ..old(self).objects@[i as int] },
            ),
    {
        self.set_data(i, GameObjectData::DeleteMe);
    }

    /// Replaces what the object at `i` is, keeping its handle.
    pub fn set_data(&mut self, i: usize, data: GameObjectData)
        requires
            old(self).wf(),
            i < old(self).objects@.len(),
        ensures
            final(self).wf(),
            final(self).live@ == old(self).live@,
            final(self).objects@ == old(self).objects@.update(
                i as int,
                GameObject { data, ..old(self).objects@[i as int] },
            ),
    {
        let ghost before = self.objects@;
        let h = self.objects[i].physics_handle;
        self.objects.set(i, GameObject { physics_handle: h, data });
        proof {
            let s = self.objects@;
            assert forall|j: int| 0 <= j < s.len() implies s[j].physics_handle
                == before[j].physics_handle by {}
            assert(colliders(s) =~= colliders(before)) by {
                assert forall|c: u64| colliders(s).contains(c) <==> colliders(before).contains(c) by {
                    if colliders(s).contains(c) {
                        let j = choose|j: int| 0 <= j < s.len() && s[j].physics_handle.collider == c;
                        assert(before[j].physics_handle.collider == c);
                    }
                    if colliders(before).contains(c) {
                        let j = choose|j: int|
                            0 <= j < before.len() && before[j].physics_handle.collider == c;
                        assert(s[j].physics_handle.collider == c);
                    }
                }
            }
        }
    }

    /// Drops every tombstoned object and returns their handles, in registry order, for the
    /// physics world to release. The objects and the live colliders shrink together.
    pub fn sweep(&mut self) -> (handles: Vec<PhysicsObjectHandle>)
        requires
            old(self).wf(),
        ensures
            final(self).wf(),
            final(self).objects@ == kept(old(self).objects@),
            handles@ == released(old(self).objects@),
            handle_colliders(handles@).subset_of(old(self).live@),
            final(self).live@ == old(self).live@.difference(handle_colliders(handles@)),
    {
        let ghost s = self.objects@;
        let mut out: Vec<GameObject> = Vec::new();
        let mut handles: Vec<PhysicsObjectHandle> = Vec::new();
        let mut i: usize = 0;
        while i < self.objects.len()
            invariant
                self.objects@ == s,
                i <= s.len(),
                out@ == kept(s.subrange(0, i as int)),
                handles@ == released(s.subrange(0, i as int)),
            decreases s.len() - i,
        {
            let o = self.objects[i];
            proof {
                assert(s.subrange(0, i + 1).drop_last() =~= s.subrange(0, i as int));
                assert(s.subrange(0, i + 1).last() == o);
            }
            match o.data {
                GameObjectData::DeleteMe => handles.push(o.physics_handle),
                _ => out.push(o),
            }
            i = i + 1;
        }
        proof {
            assert(s.subrange(0, s.len() as int) =~= s);
            lemma_sweep_parts(s);
        }
        self.objects = out;
        proof {
            self.live@ = colliders(self.objects@);
            assert forall|c: u64|
                self.live@.contains(c) <==> old(self).live@.difference(
                    handle_colliders(handles@),
                ).contains(c) by {
                if old(self).live@.contains(c) {
                    let k = choose|k: int| 0 <= k < s.len() && s[k].physics_handle.collider == c;
                    if is_deleted(s[k]) {
                        assert(colliders_where(s, true).contains(c));
                    } else {
                        assert(colliders_where(s, false).contains(c));
                        if colliders_where(s, true).contains(c) {
                            let k2 = choose|k2: int|
                                0 <= k2 < s.len() && is_deleted(s[k2]) == true
                                    && s[k2].physics_handle.collider == c;
                            assert(k2 != k);
                        }
                    }
                }
                if self.live@.contains(c) {
                    assert(colliders_where(s, false).contains(c));
                    let k = choose|k: int|
                        0 <= k < s.len() && is_deleted(s[k]) == false && s[k].physics_handle.collider == c;
                    assert(colliders(s).contains(c));
                    if colliders_where(s, true).contains(c) {
                        let k2 = choose|k2: int|
                            0 <= k2 < s.len() && is_deleted(s[k2]) == true
                                && s[k2].physics_handle.collider == c;
                        assert(k2 != k);
                    }
                }
            }
            assert(self.live@ =~= old(self).live@.difference(handle_colliders(handles@)));
            assert forall|c: u64| handle_colliders(handles@).contains(c) implies old(self).live@.contains(c) by {
                assert(colliders_where(s, true).contains(c));
                let k = choose|k: int|
                    0 <= k < s.len() && is_deleted(s[k]) == true && s[k].physics_handle.collider == c;
                assert(colliders(s).contains(c));
            }
        }
        handles
    }
}

/// Whatever spawns, tombstones and sweeps happened, every object held has a live handle, and every
/// live collider belongs to exactly one object held.
pub proof fn lemma_handle_bijection(r: Registry)
    requires
        r.wf(),
    ensures
        forall|i: int|
            0 <= i < r.objects@.len() ==> r.live@.contains(
                #[trigger] r.objects@[i].physics_handle.collider,
            ),
        forall|c: u64|
            r.live@.contains(c) ==> exists|i: int|
                0 <= i < r.objects@.len() && r.objects@[i].physics_handle.collider == c && forall|
                    j: int,
                |
                    0 <= j < r.objects@.len() && #[trigger] r.objects@[j].physics_handle.collider
                        == c ==> j == i,
{
    assert forall|i: int| 0 <= i < r.objects@.len() implies r.live@.contains(
        #[trigger] r.objects@[i].physics_handle.collider,
    ) by {
        assert(colliders(r.objects@).contains(r.objects@[i].physics_handle.collider));
    }
}

/// A second sweep with no tombstone in between keeps every object and releases no handle.
pub proof fn lemma_sweep_idempotent(before: Registry, after: Registry)
    requires
        before.wf(),
        after.objects@ == kept(before.objects@),
    ensures
        kept(after.objects@) == after.objects@,
        released(after.objects@).len() == 0,
{
    lemma_kept_has_no_tombstones(before.objects@);
}

} // verus!
