use shooter2d::collision::{handle_projectile_enemy_collision, Collidable, SpatialIndex};
use shooter2d::constants::{
    ENEMY_HEALTH, ENEMY_SPAWN_BATCH, HIT_RADIUS, MAX_NUM_ENEMIES, PROJECTILE_DAMAGE,
    SPAWN_DIST_MAX, SPAWN_DIST_MIN,
};
use shooter2d::enemy::{
    despawn_dead_enemies, get_random_spawn_position, spawn_count, spawn_enemy_wave,
    update_enemy_transform, Enemy,
};

use shooter2d::geom::Pos;

fn index_of(enemies: &[Enemy]) -> SpatialIndex {
    let entries: Vec<Collidable> =
        enemies.iter().map(|e| Collidable { pos: e.pos, id: e.id }).collect();
    let mut index = SpatialIndex::empty();
    index.rebuild(&entries);
    index
}

#[test]
fn spawn_count_scenarios() {
    assert_eq!(spawn_count(495, 500, 10), 5);
    assert_eq!(spawn_count(500, 500, 10), 0);
    assert_eq!(spawn_count(0, 500, 10), 10);
    assert_eq!(spawn_count(499, 500, 10), 1);
    assert_eq!(spawn_count(600, 500, 10), 0);
}

#[test]
fn two_projectiles_kill_target_and_removal_despawns_it() {
    // Hit radius 50, damage 50, health 100: two in-radius projectiles in the
    // same tick bring health to 0; the next removal pass despawns.
    let mut enemies = vec![Enemy::new(1, Pos { x: 0, y: 0 }, ENEMY_HEALTH)];
    let index = index_of(&enemies);
    let projectiles = vec![Pos { x: 30, y: 40 }, Pos { x: 0, y: 50 }];
    handle_projectile_enemy_collision(
        &mut enemies,
        &index,
        &projectiles,
        HIT_RADIUS,
        PROJECTILE_DAMAGE,
    );
    assert_eq!(enemies[0].health, 0);
    despawn_dead_enemies(&mut enemies);
    assert!(enemies.is_empty());
}

#[test]
fn damage_accumulates_within_and_across_ticks() {
    let mut enemies = vec![Enemy { id: 7, pos: Pos { x: 10, y: 10 }, health: 500 }];
    let index = index_of(&enemies);
    let tick1 = vec![Pos { x: 10, y: 10 }, Pos { x: 15, y: 10 }, Pos { x: 10, y: 20 }];
    handle_projectile_enemy_collision(&mut enemies, &index, &tick1, HIT_RADIUS, PROJECTILE_DAMAGE);
    assert_eq!(enemies[0].health, 500 - 3 * PROJECTILE_DAMAGE);
    let tick2 = vec![Pos { x: 12, y: 9 }];
    handle_projectile_enemy_collision(&mut enemies, &index, &tick2, HIT_RADIUS, PROJECTILE_DAMAGE);
    assert_eq!(enemies[0].health, 500 - 4 * PROJECTILE_DAMAGE);
}

#[test]
fn one_projectile_damages_every_target_in_radius() {
    let mut enemies = vec![
        Enemy { id: 1, pos: Pos { x: 10, y: 0 }, health: 100 },
        Enemy { id: 2, pos: Pos { x: -10, y: 0 }, health: 100 },
        Enemy { id: 3, pos: Pos { x: 200, y: 0 }, health: 100 },
    ];
    let index = index_of(&enemies);
    let projectiles = vec![Pos { x: 0, y: 0 }];
    handle_projectile_enemy_collision(
        &mut enemies,
        &index,
        &projectiles,
        HIT_RADIUS,
        PROJECTILE_DAMAGE,
    );
    assert_eq!(enemies[0].health, 100 - PROJECTILE_DAMAGE);
    assert_eq!(enemies[1].health, 100 - PROJECTILE_DAMAGE);
    assert_eq!(enemies[2].health, 100);
}

#[test]
fn hits_go_by_indexed_positions_not_live_ones() {
    let mut enemies = vec![Enemy { id: 1, pos: Pos { x: 0, y: 0 }, health: 100 }];
    let index = index_of(&enemies);
    // The target moves after the rebuild; the snapshot is stale on purpose.
    enemies[0].pos = Pos { x: 5000, y: 5000 };
    let projectiles = vec![Pos { x: 0, y: 0 }];
    handle_projectile_enemy_collision(
        &mut enemies,
        &index,
        &projectiles,
        HIT_RADIUS,
        PROJECTILE_DAMAGE,
    );
    assert_eq!(enemies[0].health, 100 - PROJECTILE_DAMAGE);
}

#[test]
fn removal_pass_drops_dead_keeps_alive_in_order() {
    let mut enemies = vec![
        Enemy { id: 1, pos: Pos { x: 0, y: 0 }, health: 100 },
        Enemy { id: 2, pos: Pos { x: 1, y: 0 }, health: 0 },
        Enemy { id: 3, pos: Pos { x: 2, y: 0 }, health: -50 },
        Enemy { id: 4, pos: Pos { x: 3, y: 0 }, health: 30 },
    ];
    despawn_dead_enemies(&mut enemies);
    let ids: Vec<u64> = enemies.iter().map(|e| e.id).collect();
    assert_eq!(ids, vec![1, 4]);
    assert_eq!(enemies.iter().filter(|e| e.id == 1).count(), 1);
    assert_eq!(enemies.iter().filter(|e| e.id == 4).count(), 1);
}

#[test]
fn movement_steps_toward_anchor_without_overshooting() {
    let anchor = Pos { x: 0, y: 0 };
    let mut enemies = vec![
        Enemy { id: 1, pos: Pos { x: 10, y: -7 }, health: 100 },
        Enemy { id: 2, pos: Pos { x: 1, y: 0 }, health: 100 },
        Enemy { id: 3, pos: anchor, health: 100 },
    ];
    update_enemy_transform(&mut enemies, anchor, 3);
    assert_eq!(enemies[0].pos, Pos { x: 7, y: -4 });
    assert_eq!(enemies[1].pos, Pos { x: 0, y: 0 });
    // A target exactly at the anchor must not move at all.
    assert_eq!(enemies[2].pos, anchor);
    assert_eq!(enemies[0].health, 100);
    assert_eq!(enemies[0].id, 1);
}

#[test]
fn spawn_position_lands_in_the_annulus() {
    let anchor = Pos { x: 100, y: -200 };
    for _ in 0..20 {
        let p = get_random_spawn_position(anchor, SPAWN_DIST_MIN, SPAWN_DIST_MAX);
        let dx = anchor.x - p.x;
        let dy = anchor.y - p.y;
        let d2 = dx * dx + dy * dy;
        assert!(d2 >= SPAWN_DIST_MIN * SPAWN_DIST_MIN);
        assert!(d2 <= SPAWN_DIST_MAX * SPAWN_DIST_MAX);
    }
}

#[test]
fn spawn_position_stays_inside_world_range_at_the_edge() {
    let limit = 1_000_000_000;
    let anchor = Pos { x: limit, y: limit };
    for _ in 0..5 {
        let p = get_random_spawn_position(anchor, SPAWN_DIST_MIN, SPAWN_DIST_MAX);
        assert!(p.x.abs() <= limit && p.y.abs() <= limit);
    }
}

#[test]
fn wave_spawns_min_of_deficit_and_batch() {
    let anchor = Some(Pos { x: 0, y: 0 });
    let mut enemies: Vec<Enemy> = (0..495)
        .map(|i| Enemy { id: i, pos: Pos { x: i as i64, y: 0 }, health: ENEMY_HEALTH })
        .collect();
    let mut next_id: u64 = 495;
    spawn_enemy_wave(
        &mut enemies,
        &mut next_id,
        anchor,
        MAX_NUM_ENEMIES,
        ENEMY_SPAWN_BATCH,
        ENEMY_HEALTH,
        SPAWN_DIST_MIN,
        SPAWN_DIST_MAX,
    );
    assert_eq!(enemies.len(), 500);
    assert_eq!(next_id, 500);
    for (off, e) in enemies[495..].iter().enumerate() {
        assert_eq!(e.id, 495 + off as u64);
        assert_eq!(e.health, ENEMY_HEALTH);
        let dx = e.pos.x;
        let dy = e.pos.y;
        let d2 = dx * dx + dy * dy;
        assert!(d2 >= SPAWN_DIST_MIN * SPAWN_DIST_MIN && d2 <= SPAWN_DIST_MAX * SPAWN_DIST_MAX);
    }
}

#[test]
fn wave_spawns_nothing_at_cap_or_without_anchor() {
    let full: Vec<Enemy> = (0..500)
        .map(|i| Enemy { id: i, pos: Pos { x: 0, y: 0 }, health: ENEMY_HEALTH })
        .collect();
    let mut enemies = full.clone();
    let mut next_id: u64 = 500;
    spawn_enemy_wave(
        &mut enemies,
        &mut next_id,
        Some(Pos { x: 0, y: 0 }),
        MAX_NUM_ENEMIES,
        ENEMY_SPAWN_BATCH,
        ENEMY_HEALTH,
        SPAWN_DIST_MIN,
        SPAWN_DIST_MAX,
    );
    assert_eq!(enemies.len(), 500);
    assert_eq!(next_id, 500);

    let mut some = vec![Enemy { id: 0, pos: Pos { x: 0, y: 0 }, health: ENEMY_HEALTH }];
    let mut next_id2: u64 = 1;
    spawn_enemy_wave(
        &mut some,
        &mut next_id2,
        None,
        MAX_NUM_ENEMIES,
        ENEMY_SPAWN_BATCH,
        ENEMY_HEALTH,
        SPAWN_DIST_MIN,
        SPAWN_DIST_MAX,
    );
    assert_eq!(some.len(), 1);
    assert_eq!(next_id2, 1);
}

#[test]
fn population_never_exceeds_cap_over_many_waves() {
    let anchor = Some(Pos { x: 0, y: 0 });
    let mut enemies: Vec<Enemy> = Vec::new();
    let mut next_id: u64 = 0;
    for _ in 0..100 {
        spawn_enemy_wave(
            &mut enemies,
            &mut next_id,
            anchor,
            30,
            10,
            ENEMY_HEALTH,
            SPAWN_DIST_MIN,
            SPAWN_DIST_MAX,
        );
        assert!(enemies.len() <= 30);
    }
    assert_eq!(enemies.len(), 30);
}
