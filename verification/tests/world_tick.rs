use ghostly_core::game_world::{
    get_level_size, read_level, GameState, GameWorld, LevelAction, TILE_SIZE,
};
use ghostly_core::player::{PlayerInput, PlayerState};
use ghostly_core::staticobj::TriggerType;

fn idle() -> PlayerInput {
    PlayerInput::from_keys(false, false, false, false, false, false)
}

const LEVEL: &str = "timeScale = 1;layout =.\np  #\n      f  ^  *\n;";

#[test]
fn layout_reading() {
    let tiles = read_level("p #\n^", TILE_SIZE);
    assert_eq!(tiles.len(), 3);
    assert_eq!(tiles[0].ty, 'p');
    assert_eq!(tiles[0].pos.x, 0);
    assert_eq!(tiles[1].ty, '#');
    assert_eq!(tiles[1].pos.x, 2 * TILE_SIZE);
    assert_eq!(tiles[2].ty, '^');
    assert_eq!(tiles[2].pos.y, TILE_SIZE);
    let (cols, rows) = get_level_size("p #\n^");
    assert_eq!(cols, 3);
    assert_eq!(rows, 2);
}

#[test]
fn load_and_setup_places_entities() {
    let mut w = GameWorld::new();
    w.load_level_from_str(LEVEL);
    assert_eq!(w.time_speed, 1000);
    w.setup();
    // the player stands on the start tile (second layout row)
    assert_eq!(w.player.cbox.pos.x, 0);
    assert_eq!(w.player.cbox.pos.y, TILE_SIZE);
    // one wall sprite was logged
    assert_eq!(w.wall_man.wall_sprites().len(), 1);
    // the cull left no empty sector behind
    assert!(w.wall_man.wall_colliders.iter().all(|s| !s.read_multi().is_empty()));
    // triggers ordered: fly zone first, trap next, spikes last
    assert_eq!(w.triggers.len(), 3);
    assert!(matches!(w.triggers[0].trigger_type, TriggerType::FlyBox));
    assert!(matches!(w.triggers[1].trigger_type, TriggerType::Trap(_)));
    assert!(matches!(w.triggers[2].trigger_type, TriggerType::Spikes));
}

#[test]
fn pause_freezes_the_world() {
    let mut w = GameWorld::new();
    w.load_level_from_str(LEVEL);
    w.setup();
    let before = w.player.cbox.pos;
    // escape pauses; a paused frame moves nothing
    w.update(&idle(), true, 100);
    assert_eq!(w.game_state, GameState::Paused);
    assert_eq!(w.player.cbox.pos, before);
    // escape again resumes
    w.update(&idle(), true, 100);
    assert_eq!(w.game_state, GameState::Unpaused);
}

#[test]
fn gravity_pulls_the_player_down() {
    let mut w = GameWorld::new();
    w.load_level_from_str(LEVEL);
    w.setup();
    let y0 = w.player.cbox.pos.y;
    w.update(&idle(), false, 100);
    w.update(&idle(), false, 100);
    assert!(w.player.cbox.pos.y > y0, "the player should be falling");
    assert!(matches!(w.player.player_state, PlayerState::Normal(_)));
}

#[test]
fn falling_out_of_the_world_kills_and_queues_a_reset() {
    let mut w = GameWorld::new();
    w.load_level_from_str(LEVEL);
    w.setup();
    w.player.cbox.pos.y = w.world_size.y + 1;
    w.update(&idle(), false, 100);
    assert_eq!(w.player.player_state, PlayerState::Dead);
    assert!(w.time_until_level_switch.is_some());
    assert!(!w.effects.is_empty(), "the death burst was emitted");
    // the queued reset matures into a reset order
    for _ in 0..4 {
        w.update(&idle(), false, 100);
    }
    assert_eq!(w.handle_levels(3), LevelAction::Reset);
}

#[test]
fn entering_the_exit_advances_the_level() {
    let mut w = GameWorld::new();
    w.load_level_from_str("layout =.\npX\n;");
    w.setup();
    assert!(w.level_exit.is_some());
    // stand the player on the exit
    let (ebox, _) = w.level_exit.unwrap();
    w.player.cbox.pos = ebox.pos;
    assert_eq!(w.handle_levels(3), LevelAction::Hold);
    assert!(w.time_until_level_switch.is_some());
    for _ in 0..4 {
        w.update(&idle(), false, 100);
    }
    assert_eq!(w.handle_levels(3), LevelAction::Advance);
    assert_eq!(w.level_index, 1);
}

#[test]
fn note_reading_flag() {
    let mut w = GameWorld::new();
    w.load_level_from_str("layout =.\npN\n;");
    w.setup();
    assert!(w.note.is_some());
    // the player spawns next to the note, well inside its reading range
    assert!(w.player_reading_note());
    w.player.cbox.pos.x = 500000;
    assert!(!w.player_reading_note());
}
