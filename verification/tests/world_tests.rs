use ballpit::physics::BodyHandle;
use ballpit::world::{GameObjectState, World};
use rapier3d::prelude::{ColliderBuilder, PhysicsWorld, RigidBodyBuilder, RigidBodyHandle, Vector};

fn ball_at(x: f32) -> (rapier3d::prelude::RigidBody, rapier3d::prelude::Collider) {
    (
        RigidBodyBuilder::dynamic().translation(Vector::new(x, 0.0, 0.0)).build(),
        ColliderBuilder::ball(1.0).build(),
    )
}

fn raw_handle(h: BodyHandle) -> RigidBodyHandle {
    RigidBodyHandle::from_raw_parts(h.index, h.generation)
}

/// A world with `n` balls; ball `k` carries `k` as its instance and `100 + k` as its record.
fn world_with(n: u32) -> World<u32, u32> {
    let mut world: World<u32, u32> = World::new(PhysicsWorld::new());
    for k in 0..n {
        let (body, collider) = ball_at(k as f32);
        world.add_object(k, 100 + k, body, collider);
    }
    world
}

#[test]
fn new_world_is_empty() {
    let world: World<u32, u32> = World::new(PhysicsWorld::new());
    assert!(world.objects.is_empty());
    assert!(world.instance_raws.is_empty());
}

#[test]
fn add_object_appends_live_ball_with_new_body() {
    let world = world_with(3);
    assert_eq!(world.objects.len(), 3);
    assert_eq!(world.instance_raws, vec![100, 101, 102]);
    assert_eq!(world.physics_world.bodies.len(), 3);
    for (k, obj) in world.objects.iter().enumerate() {
        assert_eq!(obj.instance, k as u32);
        assert_eq!(obj.state, GameObjectState::Alive);
        assert!(world.physics_world.bodies.contains(raw_handle(obj.handle)));
    }
    let h: Vec<BodyHandle> = world.objects.iter().map(|o| o.handle).collect();
    assert_ne!(h[0], h[1]);
    assert_ne!(h[1], h[2]);
    assert_ne!(h[0], h[2]);
}

#[test]
fn set_instance_raw_replaces_one_record() {
    let mut world = world_with(3);
    world.set_instance_raw(1, 7);
    assert_eq!(world.instance_raws, vec![100, 7, 102]);
}

#[test]
fn drop_deads_swap_removes_from_the_top() {
    // balls 0..5, with 1 and 3 dead
    let mut world = world_with(5);
    world.objects[1].state = GameObjectState::Dead;
    world.objects[3].state = GameObjectState::Dead;
    let dead_handles = [world.objects[1].handle, world.objects[3].handle];
    let mut balls = [10u32, 11, 12, 13, 14, 15, 16];
    let mut count = 5u32;
    world.drop_deads(&mut balls, &mut count);
    // 3 is exchanged with 4 and cut off, giving [0, 1, 2, 4]; then 1 with 4, giving [0, 4, 2]
    let instances: Vec<u32> = world.objects.iter().map(|o| o.instance).collect();
    assert_eq!(instances, vec![0, 4, 2]);
    assert_eq!(world.instance_raws, vec![100, 104, 102]);
    assert_eq!(balls, [10, 14, 12, 11, 13, 15, 16]);
    assert_eq!(count, 3);
    assert!(world.objects.iter().all(|o| o.state == GameObjectState::Alive));
    for h in dead_handles {
        assert!(!world.physics_world.bodies.contains(raw_handle(h)));
    }
    for o in &world.objects {
        assert!(world.physics_world.bodies.contains(raw_handle(o.handle)));
    }
    assert_eq!(world.physics_world.bodies.len(), 3);
    assert_eq!(world.physics_world.colliders.len(), 3);
}

#[test]
fn drop_deads_without_dead_changes_nothing() {
    let mut world = world_with(3);
    let mut balls = [1u32, 2, 3];
    let mut count = 42u32;
    world.drop_deads(&mut balls, &mut count);
    assert_eq!(world.objects.len(), 3);
    assert_eq!(world.instance_raws, vec![100, 101, 102]);
    assert_eq!(balls, [1, 2, 3]);
    assert_eq!(count, 42);
}

#[test]
fn drop_deads_all_dead_empties_world() {
    let mut world = world_with(4);
    for o in world.objects.iter_mut() {
        o.state = GameObjectState::Dead;
    }
    let mut balls = [0u32, 1, 2, 3];
    let mut count = 4u32;
    world.drop_deads(&mut balls, &mut count);
    assert!(world.objects.is_empty());
    assert!(world.instance_raws.is_empty());
    assert_eq!(count, 0);
    assert_eq!(world.physics_world.bodies.len(), 0);
    // every dead ball's slot was exchanged with the last live slot at the time
    assert_eq!(balls, [0, 1, 2, 3]);
}

#[test]
fn drop_deads_last_ball_dead() {
    let mut world = world_with(3);
    world.objects[2].state = GameObjectState::Dead;
    let mut balls = [5u32, 6, 7, 8];
    let mut count = 3u32;
    world.drop_deads(&mut balls, &mut count);
    let instances: Vec<u32> = world.objects.iter().map(|o| o.instance).collect();
    assert_eq!(instances, vec![0, 1]);
    assert_eq!(world.instance_raws, vec![100, 101]);
    assert_eq!(balls, [5, 6, 7, 8]);
    assert_eq!(count, 2);
}

#[test]
fn drop_deads_keeps_records_and_slots_aligned() {
    let mut world = world_with(8);
    for k in [0usize, 2, 5, 7] {
        world.objects[k].state = GameObjectState::Dead;
    }
    let mut balls: Vec<u32> = (0..10).map(|k| 200 + k).collect();
    let mut count = 8u32;
    world.drop_deads(&mut balls[..], &mut count);
    assert_eq!(count, 4);
    let mut left: Vec<u32> = world.objects.iter().map(|o| o.instance).collect();
    for (k, obj) in world.objects.iter().enumerate() {
        assert_eq!(world.instance_raws[k], 100 + obj.instance);
        assert_eq!(balls[k], 200 + obj.instance);
    }
    left.sort();
    assert_eq!(left, vec![1, 3, 4, 6]);
}

#[test]
fn mark_dead_if_marks_only_matching_balls() {
    let mut world = world_with(5);
    world.mark_dead_if(|inst: &u32| *inst % 2 == 1);
    let states: Vec<GameObjectState> = world.objects.iter().map(|o| o.state).collect();
    assert_eq!(
        states,
        vec![
            GameObjectState::Alive,
            GameObjectState::Dead,
            GameObjectState::Alive,
            GameObjectState::Dead,
            GameObjectState::Alive,
        ]
    );
    assert_eq!(world.instance_raws, vec![100, 101, 102, 103, 104]);
    // an already dead ball stays dead
    world.mark_dead_if(|_inst: &u32| false);
    assert_eq!(world.objects[1].state, GameObjectState::Dead);
}

#[test]
fn apply_ao_uniform_fills_slots_and_count() {
    let world = world_with(3);
    let mut balls = [[0u32, 9]; 5];
    let mut count = 0u32;
    world.apply_ao_uniform(&mut balls, &mut count, |inst: &u32, slot: [u32; 2]| [*inst + 1, slot[1]]);
    assert_eq!(balls, [[1, 9], [2, 9], [3, 9], [0, 9], [0, 9]]);
    assert_eq!(count, 3);
}

#[test]
fn fell_balls_leave_and_light_stays_aligned() {
    // the game's step: mark the balls that fell, then drop them
    let mut world = world_with(6);
    let mut balls = [[0u32; 2]; 8];
    let mut count = 0u32;
    world.apply_ao_uniform(&mut balls, &mut count, |inst: &u32, _slot: [u32; 2]| [*inst, 7]);
    world.mark_dead_if(|inst: &u32| *inst == 0 || *inst == 4);
    world.drop_deads(&mut balls, &mut count);
    assert_eq!(count, 4);
    for (k, obj) in world.objects.iter().enumerate() {
        assert_eq!(balls[k][0], obj.instance);
        assert_eq!(world.instance_raws[k], 100 + obj.instance);
    }
}

#[test]
fn drop_deads_takes_colliders_with_bodies() {
    let mut world = world_with(4);
    assert_eq!(world.physics_world.colliders.len(), 4);
    world.objects[0].state = GameObjectState::Dead;
    let mut balls = [0u32; 4];
    let mut count = 4u32;
    world.drop_deads(&mut balls, &mut count);
    assert_eq!(world.physics_world.colliders.len(), 3);
    for o in &world.objects {
        let body = &world.physics_world.bodies[raw_handle(o.handle)];
        assert_eq!(body.colliders().len(), 1);
    }
}
