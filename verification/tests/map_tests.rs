use noise::Seedable;
use std::time::{SystemTime, UNIX_EPOCH};
use worldgen::map::generators::random::Random;
use worldgen::map::generators::seed_below;
use worldgen::map::generators::wfc::WFC;
use worldgen::map::generators::Generators;
use worldgen::map::{Color, MapType, Vec2, WorldMap};

#[test]
fn colors() {
    assert_eq!(Color::black(), Color(0, 0, 0));
    assert_eq!(Color(1, 2, 3).copy(), Color(1, 2, 3));
}

#[test]
fn generators_are_built_for_their_seed() {
    let _ = Random::new();
    let _ = WFC::new();
    let mut g = Generators::with_seed(5);
    assert_eq!(g.1.seed(), 5);
    g.reseed_simplex(9);
    assert_eq!(g.1.seed(), 9);
    g.reseed_simplex(9);
    assert_eq!(g.1.seed(), 9);
}

#[test]
fn clock_seed_lies_below_the_seconds_since_the_epoch() {
    let before = SystemTime::now().duration_since(UNIX_EPOCH).unwrap().as_secs();
    for _ in 0..20 {
        assert!(seed_below(3) < 3);
    }
    assert_eq!(seed_below(0), 0);
    assert_eq!(seed_below(1), 0);
    let mut g = Generators::with_seed(0);
    g.set_simplex_seed();
    assert!((g.1.seed() as u64) < before);
}

#[test]
fn new_map_is_empty() {
    let m = WorldMap::with_seed(1, MapType::Circle, 42);
    assert_eq!(m.size, 0);
    assert!(m.content.is_empty());
    assert_eq!(m.average, Color(0, 0, 0));
    assert_eq!(m.generator_id, 1);
    assert_eq!(m.map_type, MapType::Circle);
    assert_eq!(m.pos_offset, (0, 0));
    assert_eq!(m.generators.1.seed(), 42);
    assert!(m.is_simplex() && !m.is_random() && !m.is_wfc());
    let m = WorldMap::new(0, MapType::Square);
    assert!(m.is_random());
    let m = WorldMap::new(2, MapType::Square);
    assert!(m.is_wfc());
}

#[test]
fn average_rounds_down() {
    let m = WorldMap::with_seed(0, MapType::Square, 0);
    let colors = vec![Color(0, 10, 255), Color(1, 11, 254), Color(1, 12, 0)];
    assert_eq!(m.average_colors(&colors), Color(0, 11, 169));
    assert_eq!(m.average_colors(&vec![Color(7, 8, 9), Color(7, 8, 9), Color(7, 8, 9), Color(7, 8, 9)]), Color(7, 8, 9));
}

#[test]
fn size_fits_the_terminal() {
    let mut m = WorldMap::with_seed(0, MapType::Square, 0);
    m.calculate_size(&(80, 24));
    assert_eq!(m.size, 20);
    m.calculate_size(&(30, 40));
    assert_eq!(m.size, 8);
    m.calculate_size(&(18, 8));
    assert_eq!(m.size, 4);
    m.calculate_size(&(6, 4));
    assert_eq!(m.size, 0);
}

#[test]
fn tile_points_run_left_to_right_then_down() {
    let mut m = WorldMap::with_seed(0, MapType::Square, 0);
    m.calculate_size(&(12, 6));
    assert_eq!(m.size, 2);
    assert!(m.can_list_tiles());
    assert_eq!(
        m.tile_points(),
        vec![Vec2(0, 2), Vec2(1, 2), Vec2(0, 1), Vec2(1, 1)]
    );
    m.pos_offset = (-3, 5);
    assert_eq!(m.tile_point(3), Vec2(-2, 6));
    m.pos_offset = (i32::MAX, 0);
    assert!(!m.can_list_tiles());
    m.pos_offset = (i32::MAX - 1, i32::MAX - 2);
    assert!(m.can_list_tiles());
    m.size = 256;
    assert!(!m.can_list_tiles());
}

#[test]
fn square_shows_and_averages_every_tile() {
    let mut m = WorldMap::with_seed(0, MapType::Square, 0);
    m.size = 2;
    let tiles = vec![Color(4, 0, 0), Color(0, 4, 0), Color(0, 0, 4), Color(4, 4, 4)];
    let inside = vec![false, true, false, true];
    assert!(m.can_place_tiles(&tiles, &inside));
    m.place_tiles(tiles, inside);
    assert_eq!(m.content, vec![Color(4, 0, 0), Color(0, 4, 0), Color(0, 0, 4), Color(4, 4, 4)]);
    assert_eq!(m.average, Color(2, 2, 2));
}

#[test]
fn circle_shows_black_outside_and_averages_inside() {
    let mut m = WorldMap::with_seed(0, MapType::Circle, 0);
    m.size = 2;
    let tiles = vec![Color(4, 0, 0), Color(0, 4, 0), Color(0, 0, 4), Color(4, 4, 5)];
    let inside = vec![false, true, false, true];
    assert!(m.can_place_tiles(&tiles, &inside));
    m.place_tiles(tiles, inside);
    assert_eq!(m.content, vec![Color(0, 0, 0), Color(0, 4, 0), Color(0, 0, 0), Color(4, 4, 5)]);
    assert_eq!(m.average, Color(2, 4, 2));
}

#[test]
fn placement_needs_something_to_average() {
    let mut m = WorldMap::with_seed(0, MapType::Circle, 0);
    m.size = 1;
    assert!(!m.can_place_tiles(&vec![Color(1, 1, 1)], &vec![false]));
    assert!(!m.can_place_tiles(&vec![Color(1, 1, 1)], &vec![]));
    assert!(!m.can_place_tiles(&vec![], &vec![]));
    m.map_type = MapType::Square;
    assert!(m.can_place_tiles(&vec![Color(1, 1, 1)], &vec![false]));
    m.size = 0;
    assert!(!m.can_place_tiles(&vec![], &vec![]));
}

#[test]
fn drawing_a_map() {
    let mut m = WorldMap::with_seed(0, MapType::Square, 0);
    m.size = 1;
    m.place_tiles(vec![Color(10, 200, 3)], vec![true]);
    assert!(m.can_draw());
    assert_eq!(
        m.as_string(),
        "\x1B[0m\n   \x1B[48;2;10;200;3m   \x1B[0m   \x1B[48;2;10;200;3m   \x1B[0m\n"
    );
    m.size = 2;
    assert!(!m.can_draw());
}

#[test]
fn drawing_rows() {
    let mut m = WorldMap::with_seed(0, MapType::Square, 0);
    m.size = 2;
    m.place_tiles(vec![Color(1, 1, 1), Color(2, 2, 2), Color(3, 3, 3), Color(6, 6, 6)], vec![true; 4]);
    let expected = format!(
        "{}{}{}{}{}{}{}",
        "\x1B[0m\n   ",
        "\x1B[48;2;1;1;1m   \x1B[48;2;2;2;2m   ",
        "\x1B[0m\n   ",
        "\x1B[48;2;3;3;3m   \x1B[48;2;6;6;6m   ",
        "\x1B[0m   ",
        "\x1B[48;2;3;3;3m   ",
        "\x1B[0m\n"
    );
    assert_eq!(m.as_string(), expected);
}

#[test]
fn generating_twice_gives_the_same_map() {
    let mut m = WorldMap::with_seed(2, MapType::Circle, 0);
    m.calculate_size(&(12, 6));
    let tiles = vec![Color(9, 9, 9), Color(1, 2, 3), Color(4, 5, 6), Color(0, 0, 0)];
    let inside = vec![true, false, true, true];
    let points = m.tile_points();
    m.place_tiles(tiles.clone_colors(), inside.clone());
    let (content, average) = (m.content.iter().map(|c| c.copy()).collect::<Vec<_>>(), m.average.copy());
    assert_eq!(m.tile_points(), points);
    m.place_tiles(tiles.clone_colors(), inside);
    assert_eq!(m.content, content);
    assert_eq!(m.average, average);
}

trait CloneColors {
    fn clone_colors(&self) -> Vec<Color>;
}

impl CloneColors for Vec<Color> {
    fn clone_colors(&self) -> Vec<Color> {
        self.iter().map(|c| c.copy()).collect()
    }
}
