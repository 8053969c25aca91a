use ghostly_core::collision::CollBox;
use ghostly_core::enemy::{
    new_angry_ghost, new_stalker, new_turret, Bullet, EnemyType, STALKER_ANGER_FLOOR,
    TURRET_FIRE_RECOV,
};
use ghostly_core::fx::Vec2Fx;

fn player_at(x: i64, y: i64) -> CollBox {
    CollBox { pos: Vec2Fx { x, y }, half_dim: Vec2Fx { x: 4000, y: 6000 } }
}

#[test]
fn turret_fires_exactly_one_bullet_per_expiry() {
    let mut t = new_turret(Vec2Fx { x: 0, y: 0 });
    let pb = player_at(10000, 0);
    let mut bullets: Vec<Bullet> = Vec::new();
    // recoil starts at zero and the player is in range: exactly one shot
    t.update(&pb, &mut bullets, false, false, 50);
    assert_eq!(bullets.len(), 1);
    assert_eq!(t.enemy_type, EnemyType::Turret(TURRET_FIRE_RECOV));
    // the recoil forbids another shot in the following frames
    t.update(&pb, &mut bullets, false, false, 50);
    t.update(&pb, &mut bullets, false, false, 50);
    assert_eq!(bullets.len(), 1);
}

#[test]
fn turret_out_of_range_holds_fire() {
    let mut t = new_turret(Vec2Fx { x: 0, y: 0 });
    let pb = player_at(500000, 0);
    let mut bullets: Vec<Bullet> = Vec::new();
    t.update(&pb, &mut bullets, false, false, 50);
    assert_eq!(bullets.len(), 0);
}

#[test]
fn angry_ghost_latches_active() {
    let mut g = new_angry_ghost(Vec2Fx { x: 0, y: 0 });
    let near = player_at(10000, 0);
    let far = player_at(500000, 0);
    let mut bullets: Vec<Bullet> = Vec::new();
    g.update(&near, &mut bullets, false, false, 100);
    match g.enemy_type {
        EnemyType::AngryGhosts(_, active) => assert!(active),
        _ => panic!("wrong variant"),
    }
    // once active, leaving the radius does not calm it down
    g.update(&far, &mut bullets, false, false, 100);
    match g.enemy_type {
        EnemyType::AngryGhosts(_, active) => assert!(active),
        _ => panic!("wrong variant"),
    }
}

#[test]
fn stalker_anger_floors_at_the_negative_sentinel() {
    let mut s = new_stalker(Vec2Fx { x: 0, y: 0 });
    let pb = player_at(10000, 0);
    let mut bullets: Vec<Bullet> = Vec::new();
    // a trap trip angers it; the timer then decays past zero down to the
    // sentinel, never further
    s.update(&pb, &mut bullets, false, true, 100);
    for _ in 0..10 {
        s.update(&pb, &mut bullets, false, false, 100);
    }
    match s.enemy_type {
        EnemyType::StalkingGhost(_, anger, agro) => {
            assert!(agro);
            assert_eq!(anger, STALKER_ANGER_FLOOR);
        },
        _ => panic!("wrong variant"),
    }
}

#[test]
fn bullet_lifetime_expiry() {
    let mut b = Bullet::new(
        ghostly_core::collision::CollCircle { pos: Vec2Fx { x: 0, y: 0 }, radius: 2000 },
        Vec2Fx { x: 100000, y: 0 },
        Some(100),
    );
    b.update(50);
    assert_eq!(b.coll.pos.x, 5000);
    assert!(!b.life_time_update(50));
    assert!(b.life_time_update(51));
}
