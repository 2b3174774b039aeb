use shooter2d::constants::{
    ENEMY_HEALTH, ENEMY_SPAWN_BATCH, ENEMY_SPEED, HIT_RADIUS, MAX_NUM_ENEMIES, PLAYER_SPEED,
    PROJECTILE_DAMAGE, PROJECTILE_SPEED, SPAWN_DIST_MAX, SPAWN_DIST_MIN,
};
use shooter2d::geom::Pos;
use shooter2d::animation::{animate_player, sprite_faces_left};
use shooter2d::player::{
    handle_player_death, handle_player_enemy_collision_events, handle_player_input, Health,
    PlayerEnemyCollisionEvent, PlayerState,
};
use shooter2d::state::{next_state, GameEvent, GameState};
use shooter2d::weapon::{
    despawn_old_projectiles, handle_weapon_input, update_projectile, Projectile,
};
use shooter2d::world::{decorate_world, SimConfig, World};

fn config() -> SimConfig {
    SimConfig {
        cap: MAX_NUM_ENEMIES,
        batch_limit: ENEMY_SPAWN_BATCH,
        hit_radius: HIT_RADIUS,
        damage_amount: PROJECTILE_DAMAGE,
        enemy_health: ENEMY_HEALTH,
        enemy_speed: ENEMY_SPEED,
        spawn_min_dist: SPAWN_DIST_MIN,
        spawn_max_dist: SPAWN_DIST_MAX,
    }
}

#[test]
fn player_input_moves_and_animates() {
    let start = Pos { x: 10, y: 10 };
    let (p, s) = handle_player_input(start, false, false, false, false, PLAYER_SPEED);
    assert_eq!(p, start);
    assert_eq!(s, PlayerState::Idle);

    let (p, s) = handle_player_input(start, false, false, false, true, PLAYER_SPEED);
    assert_eq!(p, Pos { x: 10 + PLAYER_SPEED, y: 10 });
    assert_eq!(s, PlayerState::Moving);

    // Opposite keys cancel out: no movement, no undefined direction, idle.
    let (p, s) = handle_player_input(start, true, true, false, false, PLAYER_SPEED);
    assert_eq!(p, start);
    assert_eq!(s, PlayerState::Idle);

    let (p, s) = handle_player_input(start, true, false, true, false, PLAYER_SPEED);
    assert_eq!(p, Pos { x: 10 - PLAYER_SPEED, y: 10 + PLAYER_SPEED });
    assert_eq!(s, PlayerState::Moving);
}

#[test]
fn player_collision_events_subtract_damage_per_event() {
    let three = vec![
        PlayerEnemyCollisionEvent,
        PlayerEnemyCollisionEvent,
        PlayerEnemyCollisionEvent,
    ];
    let h = handle_player_enemy_collision_events(Health(100), &three, 10);
    assert_eq!(h, Health(70));
    let none: Vec<PlayerEnemyCollisionEvent> = Vec::new();
    let h = handle_player_enemy_collision_events(h, &none, 10);
    assert_eq!(h, Health(70));
}

#[test]
fn animation_cycles_frames_and_faces_the_cursor() {
    // Idle row cycles 0..4; the walking row sits 4 frames later.
    assert_eq!(animate_player(true, PlayerState::Idle, 0), 1);
    assert_eq!(animate_player(true, PlayerState::Idle, 3), 0);
    assert_eq!(animate_player(true, PlayerState::Moving, 0), 5);
    assert_eq!(animate_player(true, PlayerState::Moving, 3), 4);
    assert_eq!(animate_player(false, PlayerState::Moving, 2), 2);
    assert!(sprite_faces_left(-5, 0));
    assert!(!sprite_faces_left(5, 0));
}

#[test]
fn player_death_at_zero_or_below() {
    assert!(handle_player_death(Health(0)));
    assert!(handle_player_death(Health(-5)));
    assert!(!handle_player_death(Health(1)));
}

#[test]
fn state_machine_transitions() {
    assert_eq!(next_state(GameState::Loading, GameEvent::AssetsLoaded), GameState::Menu);
    assert_eq!(next_state(GameState::Menu, GameEvent::PlayPressed), GameState::Bootstraping);
    assert_eq!(next_state(GameState::Bootstraping, GameEvent::WorldReady), GameState::Playing);
    assert_eq!(next_state(GameState::Playing, GameEvent::PlayerDied), GameState::Menu);
    // Events in the wrong phase leave the state alone.
    assert_eq!(next_state(GameState::Menu, GameEvent::PlayerDied), GameState::Menu);
    assert_eq!(next_state(GameState::Playing, GameEvent::PlayPressed), GameState::Playing);
    assert_eq!(next_state(GameState::Loading, GameEvent::WorldReady), GameState::Loading);
}

#[test]
fn weapon_fires_a_burst_only_when_pressed_and_ready() {
    let wp = Pos { x: 5, y: 6 };
    let shots = handle_weapon_input(true, true, wp, PROJECTILE_SPEED, 0, 2);
    assert_eq!(shots.len(), 3);
    for s in &shots {
        assert_eq!(s.pos, wp);
        assert_eq!(s.age, 0);
        assert!(PROJECTILE_SPEED - 2 <= s.vel_x && s.vel_x <= PROJECTILE_SPEED + 2);
        assert!(-2 <= s.vel_y && s.vel_y <= 2);
    }
    assert!(handle_weapon_input(false, true, wp, PROJECTILE_SPEED, 0, 2).is_empty());
    assert!(handle_weapon_input(true, false, wp, PROJECTILE_SPEED, 0, 2).is_empty());
}

#[test]
fn projectiles_fly_and_age_and_expire() {
    let mut ps = vec![
        Projectile { pos: Pos { x: 0, y: 0 }, vel_x: 15, vel_y: -3, age: 0 },
        Projectile { pos: Pos { x: 100, y: 100 }, vel_x: -1, vel_y: 0, age: 17 },
    ];
    update_projectile(&mut ps);
    assert_eq!(ps[0].pos, Pos { x: 15, y: -3 });
    assert_eq!(ps[0].age, 1);
    assert_eq!(ps[1].pos, Pos { x: 99, y: 100 });
    assert_eq!(ps[1].age, 18);
    despawn_old_projectiles(&mut ps, 17);
    assert_eq!(ps.len(), 1);
    assert_eq!(ps[0].age, 1);
}

#[test]
fn decorations_fill_the_world_rectangle() {
    let ds = decorate_world();
    assert_eq!(ds.len(), 1000);
    for d in &ds {
        assert!(-3000 <= d.pos.x && d.pos.x < 3000);
        assert!(-2500 <= d.pos.y && d.pos.y < 2500);
        assert!(d.sprite_index == 24 || d.sprite_index == 25);
    }
}

#[test]
fn world_ticks_keep_population_capped_and_alive() {
    let mut world = World::new(config());
    let anchor = Some(Pos { x: 0, y: 0 });
    for t in 0..50 {
        let projectiles = vec![Pos { x: 1200 + t, y: 0 }, Pos { x: -1200, y: t }];
        world.tick(anchor, &projectiles, true, t % 4 == 0);
        assert!(world.enemies.len() <= MAX_NUM_ENEMIES);
        assert!(world.enemies.iter().all(|e| e.health > 0));
    }
    assert!(!world.enemies.is_empty());
}

#[test]
fn world_tick_spawn_timer_gates_spawning() {
    let mut world = World::new(config());
    let none: Vec<Pos> = Vec::new();
    world.tick(Some(Pos { x: 0, y: 0 }), &none, false, false);
    assert!(world.enemies.is_empty());
    world.tick(Some(Pos { x: 0, y: 0 }), &none, true, false);
    assert_eq!(world.enemies.len(), ENEMY_SPAWN_BATCH);
}
