use noise::Seedable;
use std::time::{Duration, SystemTime, UNIX_EPOCH};
use worldgen::map::{Color, MapType, WorldMap};
use worldgen::terminal::scene::{Scene, SceneType};
use worldgen::terminal::{
    frame_delay, generator_from_arg, map_type_from_arg, set_map_from_args, InputEvent, Key,
    MainLoop, Terminal,
};

const ON: &str = "\x1B[47;30m";
const OFF: &str = "\x1B[0m";

fn args(v: &[&str]) -> Vec<String> {
    v.iter().map(|s| s.to_string()).collect()
}

fn generated_map(words: &[&str], dimensions: (u16, u16)) -> WorldMap {
    let mut map = set_map_from_args(&args(words));
    map.calculate_size(&dimensions);
    let n = map.size as usize * map.size as usize;
    let tiles = (0..n).map(|i| Color(i as u8, 0, 0)).collect();
    map.place_tiles(tiles, vec![true; n]);
    map
}

fn menu_terminal() -> Terminal {
    let words = ["prog", "simplex", "circle"];
    let mut t = Terminal::new(args(&words), (30, 20), generated_map(&words, (30, 20)));
    let mut menu = Scene::new("#Start#\n#Settings#\n#Quit#".to_string(), SceneType::Settings, vec![2, 1, -1]);
    menu.center_content(t.dimensions);
    t.set_scenes(vec![
        menu,
        Scene::new(String::new(), SceneType::Settings, vec![0]),
        Scene::new(String::new(), SceneType::Game, vec![0]),
    ]);
    t
}

#[test]
fn command_line_words() {
    assert_eq!(generator_from_arg("random"), Some(0));
    assert_eq!(generator_from_arg("simplex"), Some(1));
    assert_eq!(generator_from_arg("wfc"), Some(2));
    assert_eq!(generator_from_arg("perlin"), None);
    assert_eq!(map_type_from_arg("square"), Some(MapType::Square));
    assert_eq!(map_type_from_arg("circle"), Some(MapType::Circle));
    assert_eq!(map_type_from_arg("hex"), None);
}

#[test]
fn map_from_command_line() {
    let m = set_map_from_args(&args(&["prog"]));
    assert_eq!((m.generator_id, m.map_type), (0, MapType::Square));
    let m = set_map_from_args(&args(&["prog", "wfc"]));
    assert_eq!((m.generator_id, m.map_type), (2, MapType::Square));
    let m = set_map_from_args(&args(&["prog", "simplex", "circle"]));
    assert_eq!((m.generator_id, m.map_type), (1, MapType::Circle));
    assert_eq!(m.size, 0);
}

#[test]
fn new_terminal_fits_the_map() {
    let words = ["prog", "random", "square"];
    let t = Terminal::new(args(&words), (80, 24), generated_map(&words, (80, 24)));
    assert_eq!(t.map.size, 20);
    assert_eq!(t.map.content.len(), 400);
    assert_eq!(t.map.content[399], Color(143, 0, 0));
    assert_eq!(t.map.generator_id, 0);
    assert_eq!(t.fps, 0);
    assert_eq!(t.dimensions, (80, 24));
    assert!(t.scenes.is_empty());
    assert_eq!(t.current_scene, 0);
    assert_eq!(t.args, args(&["prog", "random", "square"]));
}

#[test]
fn menu_keys_move_the_selection() {
    let mut t = menu_terminal();
    assert!(t.can_handle(InputEvent::Key(Key::Down)));
    assert!(t.handle_event(InputEvent::Key(Key::Down)));
    let menu = &t.scenes[0];
    assert_eq!(menu.current_button_id, 1);
    assert_eq!(menu.modified_content[1], "Start");
    assert_eq!(menu.modified_content[3], format!("{}Settings{}", ON, OFF));
    assert!(t.handle_event(InputEvent::Key(Key::Up)));
    assert!(t.handle_event(InputEvent::Key(Key::Up)));
    let menu = &t.scenes[0];
    assert_eq!(menu.current_button_id, 2);
    assert_eq!(menu.modified_content[1], "Start");
    assert_eq!(menu.modified_content[5], format!("{}Quit{}", ON, OFF));
    // Enter on Quit leads to scene -1: the loop ends.
    assert!(!t.handle_event(InputEvent::Key(Key::Enter)));
    assert_eq!(t.current_scene, 0);
    assert!(!t.handle_event(InputEvent::Key(Key::Esc)));
    assert!(!t.handle_event(InputEvent::Key(Key::Char('x'))));
    assert!(t.handle_event(InputEvent::Other));
}

#[test]
fn enter_follows_the_selected_button() {
    let mut t = menu_terminal();
    assert!(t.handle_event(InputEvent::Key(Key::Enter)));
    assert_eq!(t.current_scene, 2);
}

#[test]
fn empty_menu_refuses_moving_keys() {
    let mut t = menu_terminal();
    t.current_scene = 1;
    assert!(!t.can_handle(InputEvent::Key(Key::Enter)));
    assert!(!t.can_handle(InputEvent::Key(Key::Up)));
    assert!(t.can_handle(InputEvent::Key(Key::Esc)));
    t.current_scene = 3;
    assert!(!t.can_handle(InputEvent::Other));
}

#[test]
fn game_keys_move_and_switch_the_map() {
    let mut t = menu_terminal();
    t.current_scene = 2;
    let seed = t.map.generators.1.seed();
    assert!(t.handle_event(InputEvent::Key(Key::Up)));
    assert!(t.handle_event(InputEvent::Key(Key::Up)));
    assert!(t.handle_event(InputEvent::Key(Key::Left)));
    assert_eq!(t.map.pos_offset, (-1, 2));
    assert!(t.handle_event(InputEvent::Key(Key::Down)));
    assert!(t.handle_event(InputEvent::Key(Key::Right)));
    assert_eq!(t.map.pos_offset, (0, 1));
    assert!(t.handle_event(InputEvent::Key(Key::Char('s'))));
    assert_eq!(t.map.map_type, MapType::Square);
    assert!(t.handle_event(InputEvent::Key(Key::Char('c'))));
    assert_eq!(t.map.map_type, MapType::Circle);
    assert!(t.handle_event(InputEvent::Key(Key::Char(' '))));
    let _ = seed;
    assert!(!t.handle_event(InputEvent::Key(Key::Enter)));
    assert!(!t.handle_event(InputEvent::Key(Key::Esc)));
    t.map.pos_offset = (0, i32::MAX);
    assert!(!t.can_handle(InputEvent::Key(Key::Up)));
    assert!(t.can_handle(InputEvent::Key(Key::Down)));
}

#[test]
fn resize_refits_the_map() {
    let mut t = menu_terminal();
    assert!(t.handle_event(InputEvent::Resize(80, 24)));
    assert_eq!(t.dimensions, (80, 24));
    assert_eq!(t.map.size, 20);
    assert!(!t.can_handle(InputEvent::Resize(5, 24)));
    assert!(!t.can_handle(InputEvent::Resize(80, 3)));
}

#[test]
fn frames() {
    let mut t = menu_terminal();
    assert_eq!(
        t.scene_frame(),
        format!("\x1B[3J\x1Bc\x1B[?25l{}\n", t.scenes[0].get_printable_content())
    );
    t.current_scene = 2;
    t.fps = 59;
    t.map.size = 1;
    t.map.map_type = MapType::Square;
    t.map.place_tiles(vec![Color(1, 2, 3)], vec![true]);
    assert_eq!(
        t.scene_frame(),
        format!("\x1Bc\x1B[?25lFPS: 59\n{}\n", t.map.as_string())
    );
    assert_eq!(t.fps_frame(), "\x1B[H\x1B[KFPS: 59\n");
}

#[test]
fn frame_pacing() {
    assert_eq!(frame_delay(1, 0), 16666666);
    assert_eq!(frame_delay(2, 30000000), 3333332);
    assert_eq!(frame_delay(2, 40000000), 0);
    assert_eq!(frame_delay(257, 0), 4283333162);
}

#[test]
fn main_loop_counts_frames() {
    let mut t = menu_terminal();
    let mut ml = MainLoop::new();
    assert_eq!(ml.loop_counter, 0);
    let wait = ml.tail();
    assert_eq!(ml.loop_counter, 1);
    assert!(wait <= 16666666);
    ml.tail();
    ml.count_second(&mut t, 0, SystemTime::now());
    assert_eq!((t.fps, ml.loop_counter), (0, 2));
    let later = SystemTime::now() + Duration::from_secs(5);
    ml.count_second(&mut t, 1, later);
    assert_eq!((t.fps, ml.loop_counter), (2, 0));
    assert_eq!(ml.start_time, later);
    ml.tail();
    ml.count_second(&mut t, 2, SystemTime::now());
    assert_eq!((t.fps, ml.loop_counter), (2, 1));
    ml.head(&mut t);
    ml.reset_loop();
    assert_eq!(ml.loop_counter, 0);
    let at = UNIX_EPOCH + Duration::from_secs(7);
    let fresh = MainLoop::starting_at(at);
    assert_eq!((fresh.start_time, fresh.loop_counter), (at, 0));
    ml.tail();
    ml.restart_at(at);
    assert_eq!((ml.start_time, ml.loop_counter), (at, 0));
}

#[test]
fn menu_up_then_down_restores_the_scene() {
    let mut t = menu_terminal();
    let before = t.scenes[0].modified_content.clone();
    assert!(t.handle_event(InputEvent::Key(Key::Up)));
    assert_ne!(t.scenes[0].modified_content, before);
    assert!(t.handle_event(InputEvent::Key(Key::Down)));
    assert_eq!(t.scenes[0].modified_content, before);
    assert_eq!(t.scenes[0].current_button_id, 0);
}

#[test]
fn game_moves_undo_each_other_and_esc_changes_nothing() {
    let mut t = menu_terminal();
    t.current_scene = 2;
    assert!(t.handle_event(InputEvent::Key(Key::Up)));
    assert!(t.handle_event(InputEvent::Key(Key::Down)));
    assert!(t.handle_event(InputEvent::Key(Key::Right)));
    assert!(t.handle_event(InputEvent::Key(Key::Left)));
    assert_eq!(t.map.pos_offset, (0, 0));
    assert!(!t.handle_event(InputEvent::Key(Key::Esc)));
    assert_eq!(t.map.pos_offset, (0, 0));
    assert_eq!(t.current_scene, 2);
}
