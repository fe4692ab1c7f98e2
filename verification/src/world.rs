//! The balls of the scene: their rigid bodies in the physics world, and, kept position by
//! position beside them, their per-instance GPU records and their slots in the light uniform.

use vstd::prelude::*;
use rapier3d::prelude::{Collider, PhysicsWorld, RigidBody};

use crate::physics::{attached_colliders, detached, insert_body, remove_body, rigid_bodies, BodyHandle};
use crate::sweep::{
    lemma_alive_from_bound, lemma_sweep_len, lemma_sweep_map, lemma_sweep_no_dead,
    lemma_sweep_take, lemma_sweep_positions, positions,
    survivors, swap_at, sweep,
};

verus! {

/// `<[T]>::swap` exchanges the elements at the two positions; it panics when either position is
/// out of bounds.
pub assume_specification<T>[ <[T]>::swap ](s: &mut [T], a: usize, b: usize)
    requires
        a < old(s)@.len(),
        b < old(s)@.len(),
    ensures
        final(s)@ == old(s)@.update(a as int, old(s)@[b as int]).update(b as int, old(s)@[a as int]),
;

/// The number of balls the scene's buffers are sized for.
pub const NUM_MAX_OBJECT: usize = 3000;

/// Whether a ball is still in play.
#[derive(Clone, Copy, Debug, PartialEq, Eq, Structural)]
pub enum GameObjectState {
    Alive,
    Dead,
}

/// A ball: what is drawn of it (`I`), its rigid body, and whether it is still in play.
pub struct GameObject<I> {
    pub instance: I,
    pub handle: BodyHandle,
    pub state: GameObjectState,
}

/// The balls of the scene, with the physics world that simulates them. `instance_raws[k]` is
/// the GPU record of `objects[k]`.
pub struct World<I, R> {
    pub physics_world: PhysicsWorld,
    pub objects: Vec<GameObject<I>>,
    pub instance_raws: Vec<R>,
}

/// The body handles, as keys, of the dead objects at positions `from` and above.
pub open spec fn dead_keys_from<I>(objects: Seq<GameObject<I>>, from: int) -> Set<(u32, u32)> {
    Set::new(
        |x: (u32, u32)|
            exists|k: int|
                from <= k < objects.len() && (#[trigger] objects[k]).state is Dead
                    && objects[k].handle.key() == x,
    )
}

/// The body handles, as keys, of the dead objects.
pub open spec fn dead_keys<I>(objects: Seq<GameObject<I>>) -> Set<(u32, u32)> {
    dead_keys_from(objects, 0)
}

/// Which of the objects are dead, position by position.
pub open spec fn dead_marks<I>(objects: Seq<GameObject<I>>) -> Seq<bool> {
    objects.map_values(|o: GameObject<I>| o.state is Dead)
}

impl<I, R> World<I, R> {
    /// Every object has its GPU record.
    pub open spec fn wf(&self) -> bool {
        self.objects.len() == self.instance_raws.len()
    }

    /// The GPU records, position by position.
    pub open spec fn raws(&self) -> Seq<R> {
        self.instance_raws@
    }

    /// The handles of the bodies that the physics world holds.
    pub open spec fn bodies(&self) -> Set<(u32, u32)> {
        rigid_bodies(self.physics_world)
    }

    /// The colliders attached to bodies, each mapped to its body's handle.
    pub open spec fn colliders(&self) -> Map<(u32, u32), (u32, u32)> {
        attached_colliders(self.physics_world)
    }

    /// A world without balls around the given physics world.
    pub fn new(physics_world: PhysicsWorld) -> (w: Self)
        ensures
            w.wf(),
            w.objects@ == Seq::<GameObject<I>>::empty(),
            w.raws() == Seq::<R>::empty(),
            w.physics_world == physics_world,
            w.bodies() == rigid_bodies(physics_world),
    {
        World {
            physics_world,
            objects: Vec::with_capacity(NUM_MAX_OBJECT),
            instance_raws: Vec::with_capacity(NUM_MAX_OBJECT),
        }
    }

    /// Replaces the GPU record of the ball at position `i`.
    pub fn set_instance_raw(&mut self, i: usize, raw: R)
        requires
            old(self).wf(),
            i < old(self).objects.len(),
        ensures
            final(self).wf(),
            final(self).raws() == old(self).raws().update(i as int, raw),
            final(self).objects == old(self).objects,
            final(self).physics_world == old(self).physics_world,
            final(self).bodies() == old(self).bodies(),
    {
        self.instance_raws.set(i, raw);
    }

    /// Puts a new live ball into play: its body goes into the physics world with the collider
    /// attached to it, and the
    /// ball, with the handle of its body, and its GPU record are appended.
    pub fn add_object(&mut self, instance: I, raw: R, body: RigidBody, collider: Collider)
        requires
            old(self).wf(),
        ensures
            final(self).wf(),
            ({
                let h = final(self).objects@.last().handle;
                &&& final(self).objects@ == old(self).objects@.push(
                    GameObject { instance, handle: h, state: GameObjectState::Alive },
                )
                &&& !old(self).bodies().contains(h.key())
                &&& final(self).bodies() == old(self).bodies().insert(h.key())
                &&& exists|c: (u32, u32)|
                    !old(self).colliders().dom().contains(c) && final(self).colliders()
                        == old(self).colliders().insert(c, h.key())
            }),
            final(self).raws() == old(self).raws().push(raw),
    {
        let ghost cols0 = self.colliders();
        let handle = insert_body(&mut self.physics_world, body, collider);
        let obj = GameObject { instance, handle, state: GameObjectState::Alive };
        self.instance_raws.push(raw);
        self.objects.push(obj);
        proof {
            let c = choose|c: (u32, u32)|
                !cols0.dom().contains(c) && attached_colliders(self.physics_world) == cols0.insert(
                    c,
                    handle.key(),
                );
            assert(!cols0.dom().contains(c) && self.colliders() == cols0.insert(c, handle.key()));
        }
    }

    /// Marks dead every ball for which `fell` holds; the others keep their state.
    pub fn mark_dead_if<F: Fn(&I) -> bool>(&mut self, fell: F)
        requires
            forall|k: int|
                0 <= k < old(self).objects.len() ==> fell.requires((&old(self).objects@[k].instance,)),
        ensures
            final(self).objects.len() == old(self).objects.len(),
            final(self).instance_raws == old(self).instance_raws,
            final(self).physics_world == old(self).physics_world,
            forall|k: int|
                0 <= k < final(self).objects.len() ==> {
                    &&& (#[trigger] final(self).objects@[k]).instance == old(self).objects@[k].instance
                    &&& final(self).objects@[k].handle == old(self).objects@[k].handle
                    &&& {
                        ||| final(self).objects@[k].state == GameObjectState::Dead && fell.ensures(
                            (&old(self).objects@[k].instance,),
                            true,
                        )
                        ||| final(self).objects@[k].state == old(self).objects@[k].state
                            && fell.ensures((&old(self).objects@[k].instance,), false)
                    }
                },
    {
        let n = self.objects.len();
        let mut i: usize = 0;
        while i < n
            invariant
                n == self.objects.len(),
                n == old(self).objects.len(),
                i <= n,
                self.instance_raws == old(self).instance_raws,
                self.physics_world == old(self).physics_world,
                forall|k: int| 0 <= k < n ==> fell.requires((&old(self).objects@[k].instance,)),
                forall|k: int|
                    0 <= k < n ==> {
                        &&& (#[trigger] self.objects@[k]).instance == old(self).objects@[k].instance
                        &&& self.objects@[k].handle == old(self).objects@[k].handle
                    },
                forall|k: int| i <= k < n ==> #[trigger] self.objects@[k].state == old(self).objects@[k].state,
                forall|k: int|
                    0 <= k < i ==> {
                        ||| (#[trigger] self.objects@[k]).state == GameObjectState::Dead && fell.ensures(
                            (&old(self).objects@[k].instance,),
                            true,
                        )
                        ||| self.objects@[k].state == old(self).objects@[k].state && fell.ensures(
                            (&old(self).objects@[k].instance,),
                            false,
                        )
                    },
            decreases n - i,
        {
            let hit = fell(&self.objects[i].instance);
            if hit {
                self.objects[i].state = GameObjectState::Dead;
            }
            i = i + 1;
        }
    }

    /// Writes each ball's contribution into its slot of the light uniform (slot `k` for ball
    /// `k`, computed by `place` from the ball and the slot's old content) and sets the ball
    /// count to the number of balls. Slots past the last ball keep their content.
    pub fn apply_ao_uniform<B: Copy, F: Fn(&I, B) -> B>(
        &self,
        balls: &mut [B],
        ball_count: &mut u32,
        place: F,
    )
        requires
            self.objects.len() <= old(balls)@.len(),
            forall|k: int, b: B|
                0 <= k < self.objects.len() ==> place.requires((&self.objects@[k].instance, b)),
        ensures
            final(balls)@.len() == old(balls)@.len(),
            forall|k: int|
                0 <= k < self.objects.len() ==> place.ensures(
                    (&self.objects@[k].instance, old(balls)@[k]),
                    #[trigger] final(balls)@[k],
                ),
            forall|k: int| self.objects.len() <= k < final(balls)@.len() ==> #[trigger] final(balls)@[k]
                == old(balls)@[k],
            *final(ball_count) == self.objects.len() as u32,
    {
        let n = self.objects.len();
        let mut i: usize = 0;
        while i < n
            invariant
                n == self.objects.len(),
                n <= balls@.len(),
                i <= n,
                balls@.len() == old(balls)@.len(),
                forall|k: int, b: B| 0 <= k < n ==> place.requires((&self.objects@[k].instance, b)),
                forall|k: int|
                    0 <= k < i ==> place.ensures(
                        (&self.objects@[k].instance, old(balls)@[k]),
                        #[trigger] balls@[k],
                    ),
                forall|k: int| i <= k < balls@.len() ==> #[trigger] balls@[k] == old(balls)@[k],
            decreases n - i,
        {
            let b = place(&self.objects[i].instance, balls[i]);
            balls[i] = b;
            i = i + 1;
        }
        *ball_count = n as u32;
    }

    /// Takes every dead ball out of play, from the highest position down: the dead ball's light
    /// slot is exchanged with that of the last ball, the dead ball and its GPU record are
    /// swap-removed, the ball count is set to the number of balls left, and its body leaves the
    /// physics world together with the colliders attached to it. Live balls keep their GPU record and their light slot, and, unless a dead
    /// ball has the same handle, their body. With no dead ball nothing changes.
    pub fn drop_deads<B>(&mut self, balls: &mut [B], ball_count: &mut u32)
        requires
            old(self).wf(),
            survivors(dead_marks(old(self).objects@), old(self).objects.len() as nat)
                < old(self).objects.len() ==> old(self).objects.len() <= old(balls)@.len(),
        ensures
            final(self).wf(),
            ({
                let n = old(self).objects.len() as nat;
                let dead = dead_marks(old(self).objects@);
                let m = survivors(dead, n);
                let p = sweep(positions(n), dead, n, n);
                &&& final(self).objects@ == sweep(old(self).objects@, dead, n, n).take(m as int)
                &&& final(self).raws() == sweep(old(self).raws(), dead, n, n).take(m as int)
                &&& final(balls)@ == sweep(old(balls)@, dead, n, n)
                &&& *final(ball_count) == (if m < n {
                    m as u32
                } else {
                    *old(ball_count)
                })
                // every ball left is alive, with the record and light slot it had
                &&& forall|k: int|
                    0 <= k < m ==> {
                        &&& 0 <= #[trigger] p[k] < n
                        &&& !dead[p[k]]
                        &&& final(self).objects@[k] == old(self).objects@[p[k]]
                        &&& final(self).raws()[k] == old(self).raws()[p[k]]
                        &&& k < old(balls)@.len() ==> final(balls)@[k] == old(balls)@[p[k]]
                    }
                // and every live ball is left
                &&& forall|v: int|
                    0 <= v < n && !dead[v] ==> exists|k: int| 0 <= k < m && #[trigger] p[k] == v
                // exactly the bodies of the dead balls have left the physics world
                &&& final(self).bodies() == old(self).bodies().difference(
                    dead_keys(old(self).objects@),
                )
                // so a ball left keeps its body, unless a dead ball had the same handle
                &&& forall|k: int|
                    0 <= k < m && old(self).bodies().contains(
                        (#[trigger] final(self).objects@[k]).handle.key(),
                    ) && !dead_keys(old(self).objects@).contains(final(self).objects@[k].handle.key())
                        ==> final(self).bodies().contains(final(self).objects@[k].handle.key())
                // and the colliders attached to those bodies left with them
                &&& final(self).colliders() == detached(
                    old(self).colliders(),
                    dead_keys(old(self).objects@).intersect(old(self).bodies()),
                )
                // with no dead ball the physics world is untouched
                &&& m == n ==> final(self).physics_world == old(self).physics_world
            }),
    {
        let n = self.objects.len();
        let ghost dead = dead_marks(self.objects@);
        let ghost objs0 = self.objects@;
        let ghost raws0 = self.instance_raws@;
        let ghost balls0 = balls@;
        let ghost bodies0 = self.bodies();
        let ghost world0 = self.physics_world;
        let ghost cols0 = self.colliders();
        let ghost count0 = *ball_count;
        let ghost mut arr_o = objs0;
        let ghost mut arr_r = raws0;
        let mut i = n;
        proof {
            lemma_alive_from_bound(dead, 0, n as nat);
            assert(dead_keys_from(objs0, n as int) =~= Set::<(u32, u32)>::empty());
            assert(bodies0.difference(dead_keys_from(objs0, n as int)) =~= bodies0);
            assert(detached(cols0, dead_keys_from(objs0, n as int).intersect(bodies0)) =~= cols0);
        }
        while i > 0
            invariant
                i <= self.objects.len() <= n,
                n == objs0.len(),
                dead == dead_marks(objs0),
                self.objects.len() == self.instance_raws.len(),
                arr_o.len() == n,
                arr_r.len() == n,
                balls@.len() == balls0.len(),
                self.objects@ == arr_o.take(self.objects.len() as int),
                self.instance_raws@ == arr_r.take(self.objects.len() as int),
                forall|k: int| 0 <= k < i ==> arr_o[k] == objs0[k],
                sweep(objs0, dead, n as nat, n as nat) == sweep(
                    arr_o,
                    dead,
                    i as nat,
                    self.objects.len() as nat,
                ),
                sweep(raws0, dead, n as nat, n as nat) == sweep(
                    arr_r,
                    dead,
                    i as nat,
                    self.objects.len() as nat,
                ),
                sweep(balls0, dead, n as nat, n as nat) == sweep(
                    balls@,
                    dead,
                    i as nat,
                    self.objects.len() as nat,
                ),
                self.objects.len() == i + crate::sweep::alive_from(dead, i as nat, n as nat),
                survivors(dead, n as nat) < n ==> n <= balls0.len(),
                survivors(dead, n as nat) <= n,
                *ball_count == (if self.objects.len() < n {
                    self.objects.len() as u32
                } else {
                    count0
                }),
                rigid_bodies(self.physics_world) == bodies0.difference(
                    dead_keys_from(objs0, i as int),
                ),
                self.objects.len() == n ==> self.physics_world == world0,
                attached_colliders(self.physics_world) == detached(
                    cols0,
                    dead_keys_from(objs0, i as int).intersect(bodies0),
                ),
            decreases i,
        {
            let j = i - 1;
            let is_dead = match self.objects[j].state {
                GameObjectState::Dead => true,
                GameObjectState::Alive => false,
            };
            proof {
                assert(self.objects@[j as int] == arr_o[j as int]);
                assert(dead[j as int] == is_dead);
                assert(crate::sweep::alive_from(dead, j as nat, n as nat) == (if dead[j as int] {
                    0nat
                } else {
                    1nat
                }) + crate::sweep::alive_from(dead, i as nat, n as nat));
            }
            if is_dead {
                proof {
                    lemma_alive_from_bound(dead, 0, n as nat);
                    assert(0 <= j < n && dead[j as int]);
                }
                let last = self.objects.len() - 1;
                balls.swap(j, last);
                let obj = self.objects.swap_remove(j);
                self.instance_raws.swap_remove(j);
                *ball_count = self.objects.len() as u32;
                let _ = remove_body(&mut self.physics_world, obj.handle);
                proof {
                    let len = last + 1;
                    assert(swap_at(arr_o, j as int, last as int).take(last as int)
                        =~= self.objects@);
                    assert(swap_at(arr_r, j as int, last as int).take(last as int)
                        =~= self.instance_raws@);
                    arr_o = swap_at(arr_o, j as int, last as int);
                    arr_r = swap_at(arr_r, j as int, last as int);
                    assert(obj == objs0[j as int]);
                    assert(objs0[j as int].state is Dead);
                    assert(dead_keys_from(objs0, j as int) =~= dead_keys_from(objs0, i as int).insert(
                        obj.handle.key(),
                    )) by {
                        assert forall|x: (u32, u32)| dead_keys_from(objs0, j as int).contains(x) implies
                            #[trigger] dead_keys_from(objs0, i as int).insert(obj.handle.key()).contains(x) by {
                            let k = choose|k: int|
                                j <= k < objs0.len() && (#[trigger] objs0[k]).state is Dead
                                    && objs0[k].handle.key() == x;
                            if k != j {
                                assert(i <= k < objs0.len() && objs0[k].state is Dead
                                    && objs0[k].handle.key() == x);
                            }
                        }
                        assert forall|x: (u32, u32)| dead_keys_from(objs0, i as int).insert(obj.handle.key()).contains(x) implies
                            #[trigger] dead_keys_from(objs0, j as int).contains(x) by {
                            if x == obj.handle.key() {
                                assert(j <= j < objs0.len() && objs0[j as int].state is Dead
                                    && objs0[j as int].handle.key() == x);
                            } else {
                                let k = choose|k: int|
                                    i <= k < objs0.len() && (#[trigger] objs0[k]).state is Dead
                                        && objs0[k].handle.key() == x;
                                assert(j <= k < objs0.len() && objs0[k].state is Dead
                                    && objs0[k].handle.key() == x);
                            }
                        }
                    }
                    assert(bodies0.difference(dead_keys_from(objs0, i as int)).remove(obj.handle.key())
                        =~= bodies0.difference(dead_keys_from(objs0, j as int)));
                    let gi = dead_keys_from(objs0, i as int).intersect(bodies0);
                    let gj = dead_keys_from(objs0, j as int).intersect(bodies0);
                    let hk = obj.handle.key();
                    if bodies0.difference(dead_keys_from(objs0, i as int)).contains(hk) {
                        assert(gj =~= gi.insert(hk));
                        assert(detached(detached(cols0, gi), set![hk]) =~= detached(cols0, gj));
                    } else {
                        assert(detached(cols0, gi) =~= detached(cols0, gj)) by {
                            assert forall|c: (u32, u32)| #[trigger] detached(cols0, gi).dom().contains(c)
                                implies !gj.contains(cols0[c]) by {
                                if cols0[c] == hk {
                                    assert(!bodies0.contains(hk) || dead_keys_from(objs0, i as int).contains(hk));
                                }
                            }
                        }
                    }
                }
            }
            i = j;
        }
        proof {
            let m = survivors(dead, n as nat);
            assert(self.objects.len() == m);
            assert(sweep(objs0, dead, n as nat, n as nat) == arr_o);
            assert(sweep(raws0, dead, n as nat, n as nat) == arr_r);
            let p = sweep(positions(n as nat), dead, n as nat, n as nat);
            lemma_sweep_positions(dead, n as nat, n as nat);
            let fo = |k: int| objs0[k];
            let fr = |k: int| raws0[k];
            assert(positions(n as nat).map_values(fo) =~= objs0);
            assert(positions(n as nat).map_values(fr) =~= raws0);
            lemma_sweep_map(positions(n as nat), fo, dead, n as nat, n as nat);
            lemma_sweep_map(positions(n as nat), fr, dead, n as nat, n as nat);
            let cnt = balls0.len() as nat;
            if m < n {
                let fb = |k: int| balls0[k];
                assert(positions(cnt).map_values(fb) =~= balls0);
                lemma_sweep_map(positions(cnt), fb, dead, n as nat, n as nat);
                lemma_sweep_len(positions(cnt), dead, n as nat, n as nat);
                lemma_sweep_take(positions(cnt), dead, n as nat, n as nat, n as nat);
                assert(positions(cnt).take(n as int) =~= positions(n as nat));
                assert forall|k: int| 0 <= k < m implies balls@[k] == balls0[p[k]] by {
                    assert(sweep(positions(cnt), dead, n as nat, n as nat).take(n as int)[k]
                        == p[k]);
                }
            } else {
                assert forall|k: int| 0 <= k < n implies !dead[k] by {
                    if dead[k] {
                        lemma_alive_from_bound(dead, 0, n as nat);
                    }
                }
                lemma_sweep_no_dead(balls0, dead, n as nat, n as nat);
                lemma_sweep_no_dead(positions(n as nat), dead, n as nat, n as nat);
            }
        }
    }
}

} // verus!
