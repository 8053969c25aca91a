use ghostly_core::collision::{CollBox, MultiCollider};
use ghostly_core::fx::Vec2Fx;
use ghostly_core::player::{Player, PlayerInput, PlayerState, COYOTE_TIME, PLAYER_FLIGHT_TIME};
use ghostly_core::staticobj::GhostBlocks;

fn input(left: bool, right: bool, up: bool, down: bool, jump: bool, fly: bool) -> PlayerInput {
    PlayerInput::from_keys(left, right, up, down, jump, fly)
}

fn no_ghost() -> GhostBlocks {
    GhostBlocks::new(Vec2Fx { x: 8000, y: 8000 })
}

#[test]
fn flight_round_trip() {
    let mut p = Player::new();
    p.grounded = true;
    p.flight_time = PLAYER_FLIGHT_TIME;
    // holding the flight input while fuelled enters flight
    let fly_in = input(false, true, false, false, false, true);
    p.update(&fly_in, 50);
    assert!(matches!(p.player_state, PlayerState::Flying(_)));
    assert_eq!(p.flight_time, PLAYER_FLIGHT_TIME);
    // flying into the input direction drains the resource strictly
    let mut last = p.flight_time;
    for _ in 0..4 {
        p.update(&fly_in, 50);
        assert!(matches!(p.player_state, PlayerState::Flying(_)));
        assert!(p.flight_time < last);
        last = p.flight_time;
    }
    // an exhausted resource forces the return to the normal state
    p.flight_time = 0;
    p.update(&fly_in, 50);
    assert_eq!(p.player_state, PlayerState::Normal(0));
    assert_eq!(p.flight_time, 0);
}

#[test]
fn coyote_time_window() {
    let mut p = Player::new();
    p.grounded = true;
    let idle = input(false, false, false, false, false, false);
    p.update(&idle, 50);
    // ground contact opens the full window
    assert_eq!(p.player_state, PlayerState::Normal(COYOTE_TIME));
    // walking off the ledge: airborne and falling counts the window down
    p.grounded = false;
    p.update(&idle, 100);
    assert_eq!(p.player_state, PlayerState::Normal(COYOTE_TIME - 100));
    p.update(&idle, 100);
    assert_eq!(p.player_state, PlayerState::Normal(COYOTE_TIME - 200));
    // a jump inside the window is honoured with the full jump speed
    let jump_in = input(false, false, false, false, true, false);
    p.update(&jump_in, 10);
    assert_eq!(p.motion.y, -ghostly_core::player::PLAYER_JUMP_SPEED);
    // ascending after the jump, the window is immediately closed
    assert_eq!(p.player_state, PlayerState::Normal(0));
    // and with a closed window a second jump is refused
    let vy_before = p.motion.y;
    p.update(&jump_in, 10);
    assert!(p.motion.y > vy_before, "gravity applies; no second jump impulse");
}

#[test]
fn horizontal_resolution_clamps_and_zeroes_velocity() {
    // player box at the origin with half-extents (4, 6); a wall with
    // half-extents (4, 6) at (10, 0); closing speed 50 units per second.
    // A fifth of a second lands the player exactly on the wall, the x sweep
    // resolves the penetration to zero and zeroes the x velocity.
    let mut p = Player::new();
    p.cbox = CollBox {
        pos: Vec2Fx { x: 0, y: 0 },
        half_dim: Vec2Fx { x: 4000, y: 6000 },
    };
    p.motion = Vec2Fx { x: 50000, y: 0 };
    let wall = CollBox {
        pos: Vec2Fx { x: 10000, y: 0 },
        half_dim: Vec2Fx { x: 4000, y: 6000 },
    };
    let mut sector = MultiCollider::new(CollBox {
        pos: Vec2Fx { x: 0, y: 0 },
        half_dim: Vec2Fx { x: 64000, y: 64000 },
    });
    sector.add_if_intersect(&wall);
    let walls = vec![sector];
    p.physics_update_mc(&walls, &[], &no_ghost(), 200);
    // flush against the wall's edge: 10 - (4 + 4) = 2 units
    assert_eq!(p.cbox.pos.x, 2000);
    assert_eq!(p.motion.x, 0);
    assert!(!p.cbox.check_intersection(&wall));
}

#[test]
fn grounding_comes_only_from_the_vertical_sweep() {
    let mut p = Player::new();
    p.cbox.pos = Vec2Fx { x: 0, y: -10000 };
    p.motion = Vec2Fx { x: 0, y: 50000 };
    let floor = CollBox {
        pos: Vec2Fx { x: 0, y: 8000 },
        half_dim: Vec2Fx { x: 32000, y: 8000 },
    };
    let mut sector = MultiCollider::new(CollBox {
        pos: Vec2Fx { x: 0, y: 0 },
        half_dim: Vec2Fx { x: 64000, y: 64000 },
    });
    sector.add_if_intersect(&floor);
    let walls = vec![sector];
    assert!(!p.grounded);
    p.physics_update_mc(&walls, &[], &no_ghost(), 200);
    assert!(p.grounded);
    assert_eq!(p.motion.y, 0);
    // resting flush on the floor's top edge: 0 - (8 + 6) = -14 units
    assert_eq!(p.cbox.pos.y, 8000 - 14000);
}

#[test]
fn set_to_flying_refills_and_damps() {
    let mut p = Player::new();
    p.motion = Vec2Fx { x: 0, y: 100000 };
    p.set_to_flying();
    assert!(matches!(p.player_state, PlayerState::Flying(_)));
    assert_eq!(p.flight_time, PLAYER_FLIGHT_TIME);
    assert_eq!(p.motion.y, 75000);
    // dead players stay dead
    let mut d = Player::new();
    d.disable_player();
    d.set_to_flying();
    assert_eq!(d.player_state, PlayerState::Dead);
}
