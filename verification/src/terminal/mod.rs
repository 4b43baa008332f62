//! The terminal: its map, its scenes, and the decisions of the main loop.
//! Reading keys, printing and sleeping are left to the caller, which hands
//! the library what happened and gets back what to do.
use std::time::SystemTime;
use vstd::prelude::*;

pub mod scene;

use crate::clock::{system_now, elapsed_since, whole_secs, total_nanos};
use crate::map::{WorldMap, MapType, smaller, map_text};
use crate::map::generators::seeded_simplex;
use crate::terminal::scene::{
    Scene, SceneType, highlighted, unhighlighted, button_above, button_below, menu_ready,
};
use crate::terminal::scene::{highlight_on, highlight_off, lemma_deselect_undoes_select};
use crate::text::{text_eq, concat_all, decimal, push_decimal, free_of};

verus! {

/// Nanoseconds in a second.
pub const SEC_AS_NANOSEC: u32 = 1000000000;

/// The frame rate the main loop aims at.
pub const TARGET_FPS: u32 = 60;

/// The keys the library reacts to; every other key is `Other`.
#[derive(Clone, Copy, PartialEq, Eq, Structural, Debug)]
pub enum Key {
    Esc,
    Enter,
    Up,
    Down,
    Left,
    Right,
    Char(char),
    Other,
}

/// What the terminal reports: a new size (columns, rows), a key, or
/// anything else.
#[derive(Clone, Copy, PartialEq, Eq, Structural, Debug)]
pub enum InputEvent {
    Resize(u16, u16),
    Key(Key),
    Other,
}

/// The generator id a command-line word names: 0 random, 1 simplex, 2 wfc.
pub open spec fn generator_named(word: Seq<char>) -> Option<u8> {
    if word == "random"@ {
        Some(0u8)
    } else if word == "simplex"@ {
        Some(1u8)
    } else if word == "wfc"@ {
        Some(2u8)
    } else {
        None
    }
}

/// The map type a command-line word names.
pub open spec fn map_type_named(word: Seq<char>) -> Option<MapType> {
    if word == "square"@ {
        Some(MapType::Square)
    } else if word == "circle"@ {
        Some(MapType::Circle)
    } else {
        None
    }
}

/// The command line is understood: where there is a first argument it names
/// a generator, and where there is a second one it names a map type.
pub open spec fn args_valid(args: Seq<Seq<char>>) -> bool {
    &&& args.len() > 2 ==> map_type_named(args[2]) is Some
    &&& args.len() > 1 ==> generator_named(args[1]) is Some
}

/// The generator the command line asks for (random when it names none).
pub open spec fn requested_generator(args: Seq<Seq<char>>) -> u8 {
    if args.len() > 1 {
        generator_named(args[1]).unwrap()
    } else {
        0
    }
}

/// The map type the command line asks for (square when it names none).
pub open spec fn requested_map_type(args: Seq<Seq<char>>) -> MapType {
    if args.len() > 2 {
        map_type_named(args[2]).unwrap()
    } else {
        MapType::Square
    }
}

/// The generator id a command-line word names, if any.
pub fn generator_from_arg(word: &str) -> (r: Option<u8>)
    ensures
        r == generator_named(word@),
{
    if text_eq(word, "random") {
        Some(0)
    } else if text_eq(word, "simplex") {
        Some(1)
    } else if text_eq(word, "wfc") {
        Some(2)
    } else {
        None
    }
}

/// The map type a command-line word names, if any.
pub fn map_type_from_arg(word: &str) -> (r: Option<MapType>)
    ensures
        r == map_type_named(word@),
{
    if text_eq(word, "square") {
        Some(MapType::Square)
    } else if text_eq(word, "circle") {
        Some(MapType::Circle)
    } else {
        None
    }
}

/// The map the command line asks for: the first argument names the
/// generator and the second the map type.
pub fn set_map_from_args(args: &Vec<String>) -> (m: WorldMap)
    requires
        args_valid(args.deep_view()),
    ensures
        m.generator_id == requested_generator(args.deep_view()),
        m.map_type == requested_map_type(args.deep_view()),
        m.size == 0,
        m.content@.len() == 0,
        m.average == crate::map::Color(0, 0, 0),
        m.pos_offset == (0i32, 0i32),
        exists|seed: u32| m.generators.1 == seeded_simplex(seed),
{
    let mut map_type = MapType::Square;
    if args.len() > 1 {
        if args.len() > 2 {
            map_type = map_type_from_arg(args[2].as_str()).unwrap();
        }
        let generator_id = generator_from_arg(args[1].as_str()).unwrap();
        WorldMap::new(generator_id, map_type)
    } else {
        WorldMap::new(0, map_type)
    }
}

/// The frame that shows the frame rate: cursor home, line cleared.
pub open spec fn fps_text(fps: u32) -> Seq<char> {
    "\x1B[H\x1B[K"@ + "FPS: "@ + decimal(fps as nat) + "\n"@
}

/// The frame that shows a scene: a menu clears the screen and its
/// scrollback, hides the cursor and prints its pieces; the game clears the
/// screen, hides the cursor, prints the frame rate and draws the map.
pub open spec fn frame_text(scene_type: SceneType, printable: Seq<char>, fps: u32, map: Seq<char>) -> Seq<char> {
    match scene_type {
        SceneType::Settings => "\x1B[3J\x1Bc\x1B[?25l"@ + printable + "\n"@,
        SceneType::Game => "\x1Bc"@ + "\x1B[?25l"@ + "FPS: "@ + decimal(fps as nat) + "\n"@ + map + "\n"@,
    }
}

/// What a key in a menu needs from the scene it acts on: Enter a selected
/// button; Up and Down also the pieces of the button left and the button
/// reached.
pub open spec fn menu_key_ready(scene: Scene, key: Key) -> bool {
    let c = scene.current_button_id as int;
    let n = scene.buttons.len() as int;
    let m = scene.modified_content.len() as int;
    match key {
        Key::Enter => c < n,
        Key::Up => c < n && scene.buttons[c].content_id < m
            && scene.buttons[button_above(c, n)].content_id < m,
        Key::Down => c < n && scene.buttons[c].content_id < m
            && scene.buttons[button_below(c, n)].content_id < m,
        _ => true,
    }
}

/// What a key in the game needs: moving the map must not overflow its offset.
pub open spec fn game_key_ready(offset: (i32, i32), key: Key) -> bool {
    match key {
        Key::Up => offset.1 < i32::MAX,
        Key::Down => offset.1 > i32::MIN,
        Key::Right => offset.0 < i32::MAX,
        Key::Left => offset.0 > i32::MIN,
        _ => true,
    }
}

/// The scene after moving its selection from the current button to button
/// `to`: the old piece loses its highlight, the new one gains it.
pub open spec fn moved_selection(scene: Scene, to: int, pieces: Seq<Seq<char>>) -> bool {
    let from_piece = scene.buttons[scene.current_button_id as int].content_id as int;
    let to_piece = scene.buttons[to].content_id as int;
    let old_pieces = scene.modified_content.deep_view();
    let cleared = old_pieces.update(from_piece, unhighlighted(old_pieces[from_piece]));
    pieces == cleared.update(to_piece, highlighted(cleared[to_piece]))
}

/// A scene whose selection can move takes every key.
pub proof fn lemma_ready_takes_keys(scene: Scene, key: Key)
    requires
        menu_ready(scene),
    ensures
        menu_key_ready(scene, key),
{
    let c = scene.current_button_id as int;
    let n = scene.buttons.len() as int;
    assert(scene.buttons[c].content_id < scene.modified_content.len());
    assert(scene.buttons[button_above(c, n)].content_id < scene.modified_content.len());
    assert(scene.buttons[button_below(c, n)].content_id < scene.modified_content.len());
}

/// What a key does in a menu: Esc quits; Enter follows the selected
/// button (quitting when it leads to a negative scene); Up and Down move the
/// selection, wrapping around; any other key quits.
pub open spec fn menu_outcome(before: Terminal, after: Terminal, key: Key, go_on: bool) -> bool {
    let cur = before.current_scene as int;
    let scene = before.scenes[cur];
    let n = scene.buttons.len() as int;
    let c = scene.current_button_id as int;
    match key {
        Key::Enter => {
            let next = scene.buttons[c].next_scene_id;
            if next < 0 {
                !go_on && after == before
            } else {
                go_on && after == (Terminal { current_scene: next as usize, ..before })
            }
        },
        Key::Up => go_on && moved_to(before, after, button_above(c, n)),
        Key::Down => go_on && moved_to(before, after, button_below(c, n)),
        _ => !go_on && after == before,
    }
}

/// `after` is `before` with the selection of the current scene moved to
/// button `to`.
pub open spec fn moved_to(before: Terminal, after: Terminal, to: int) -> bool {
    let cur = before.current_scene as int;
    let scene = before.scenes[cur];
    let moved = after.scenes[cur];
    &&& after.map == before.map
    &&& after.fps == before.fps
    &&& after.args == before.args
    &&& after.dimensions == before.dimensions
    &&& after.current_scene == before.current_scene
    &&& after.scenes.len() == before.scenes.len()
    &&& forall|j: int| 0 <= j < before.scenes.len() && j != cur ==> after.scenes[j] == before.scenes[j]
    &&& moved.content == scene.content
    &&& moved.scene_type == scene.scene_type
    &&& moved.buttons == scene.buttons
    &&& moved.next_scene_id_to_button_id == scene.next_scene_id_to_button_id
    &&& moved.current_button_id == to
    &&& moved_selection(scene, to, moved.modified_content.deep_view())
}

/// What a key does in the game: Esc quits; the arrows move the map by one
/// tile; space gives a simplex map a fresh seed; `s` and `c` switch to a
/// square or a circular map; any other key quits.
pub open spec fn game_outcome(before: Terminal, after: Terminal, key: Key, go_on: bool) -> bool {
    let o = before.map.pos_offset;
    match key {
        Key::Up => go_on && after == (Terminal {
            map: WorldMap { pos_offset: (o.0, (o.1 + 1) as i32), ..before.map },
            ..before
        }),
        Key::Down => go_on && after == (Terminal {
            map: WorldMap { pos_offset: (o.0, (o.1 - 1) as i32), ..before.map },
            ..before
        }),
        Key::Right => go_on && after == (Terminal {
            map: WorldMap { pos_offset: ((o.0 + 1) as i32, o.1), ..before.map },
            ..before
        }),
        Key::Left => go_on && after == (Terminal {
            map: WorldMap { pos_offset: ((o.0 - 1) as i32, o.1), ..before.map },
            ..before
        }),
        Key::Char(' ') => go_on && reseeded(before, after),
        Key::Char('s') => go_on && after == (Terminal {
            map: WorldMap { map_type: MapType::Square, ..before.map },
            ..before
        }),
        Key::Char('c') => go_on && after == (Terminal {
            map: WorldMap { map_type: MapType::Circle, ..before.map },
            ..before
        }),
        _ => !go_on && after == before,
    }
}

/// `after` is `before` where a simplex map may have been given a fresh seed;
/// a map of another generator is left as it was.
pub open spec fn reseeded(before: Terminal, after: Terminal) -> bool {
    &&& after == (Terminal { map: WorldMap { generators: after.map.generators, ..before.map }, ..before })
    &&& after.map.generators.0 == before.map.generators.0
    &&& after.map.generators.2 == before.map.generators.2
    &&& if before.map.generator_id == 1 {
        exists|seed: u32| after.map.generators.1 == seeded_simplex(seed)
    } else {
        after.map.generators.1 == before.map.generators.1
    }
}

/// What a new terminal size does: the map is refitted, a simplex map gets a
/// fresh seed, and the loop goes on.
pub open spec fn resize_outcome(before: Terminal, after: Terminal, w: u16, h: u16) -> bool {
    &&& after.dimensions == (w, h)
    &&& after.map.size == smaller(w / 3 - 2, h - 4)
    &&& after.map.content == before.map.content
    &&& after.map.average == before.map.average
    &&& after.map.generator_id == before.map.generator_id
    &&& after.map.map_type == before.map.map_type
    &&& after.map.pos_offset == before.map.pos_offset
    &&& after.map.generators.0 == before.map.generators.0
    &&& after.map.generators.2 == before.map.generators.2
    &&& if before.map.generator_id == 1 {
        exists|seed: u32| after.map.generators.1 == seeded_simplex(seed)
    } else {
        after.map.generators.1 == before.map.generators.1
    }
    &&& after.fps == before.fps
    &&& after.args == before.args
    &&& after.scenes == before.scenes
    &&& after.current_scene == before.current_scene
}

/// Moving the selection of a menu keeps it movable.
pub proof fn lemma_menu_moves_keep_ready(before: Terminal, after: Terminal, key: Key, go_on: bool)
    requires
        before.current_scene < before.scenes.len(),
        menu_ready(before.scenes[before.current_scene as int]),
        key == Key::Up || key == Key::Down,
        menu_outcome(before, after, key, go_on),
    ensures
        after.current_scene < after.scenes.len(),
        menu_ready(after.scenes[after.current_scene as int]),
{
    let cur = before.current_scene as int;
    let scene = before.scenes[cur];
    let moved = after.scenes[cur];
    assert(moved.modified_content.deep_view().len() == moved.modified_content.len());
    assert(scene.modified_content.deep_view().len() == scene.modified_content.len());
}

/// In a menu whose buttons name distinct pieces, moving the selection up
/// and then down restores the scene: the same button is selected and every
/// piece reads as before, provided the selected piece is a highlighted text
/// `x` and the piece moved to holds no escape sequence.
pub proof fn lemma_menu_up_down_returns(
    t0: Terminal,
    t1: Terminal,
    t2: Terminal,
    go1: bool,
    go2: bool,
    x: Seq<char>,
)
    requires
        t0.current_scene < t0.scenes.len(),
        menu_ready(t0.scenes[t0.current_scene as int]),
        forall|a: int, b: int|
            0 <= a < t0.scenes[t0.current_scene as int].buttons.len() && 0 <= b
                < t0.scenes[t0.current_scene as int].buttons.len() && a != b
                ==> #[trigger] t0.scenes[t0.current_scene as int].buttons[a].content_id
                != #[trigger] t0.scenes[t0.current_scene as int].buttons[b].content_id,
        t0.scenes[t0.current_scene as int].modified_content.deep_view()[t0.scenes[t0.current_scene as int].buttons[t0.scenes[t0.current_scene as int].current_button_id as int].content_id as int]
            == highlighted(x),
        free_of(x, highlight_on()),
        free_of(x, highlight_off()),
        ({
            let scene = t0.scenes[t0.current_scene as int];
            let n = scene.buttons.len() as int;
            let c = scene.current_button_id as int;
            let y = scene.modified_content.deep_view()[scene.buttons[button_above(c, n)].content_id as int];
            button_above(c, n) != c ==> free_of(y, highlight_on()) && free_of(y, highlight_off())
        }),
        menu_outcome(t0, t1, Key::Up, go1),
        menu_outcome(t1, t2, Key::Down, go2),
    ensures
        go1 && go2,
        t2.current_scene == t0.current_scene,
        t2.map == t0.map,
        t2.scenes.len() == t0.scenes.len(),
        t2.scenes[t0.current_scene as int].current_button_id
            == t0.scenes[t0.current_scene as int].current_button_id,
        t2.scenes[t0.current_scene as int].modified_content.deep_view()
            == t0.scenes[t0.current_scene as int].modified_content.deep_view(),
        t2.scenes[t0.current_scene as int].buttons == t0.scenes[t0.current_scene as int].buttons,
{
    let cur = t0.current_scene as int;
    let scene = t0.scenes[cur];
    let n = scene.buttons.len() as int;
    let c = scene.current_button_id as int;
    let a = button_above(c, n);
    crate::terminal::scene::lemma_up_down_inverse(c, n);
    let from = scene.buttons[c].content_id as int;
    let to = scene.buttons[a].content_id as int;
    let p0 = scene.modified_content.deep_view();
    assert(p0.len() == scene.modified_content.len());
    lemma_deselect_undoes_select(x);
    let p1 = t1.scenes[cur].modified_content.deep_view();
    let p2 = t2.scenes[cur].modified_content.deep_view();
    assert(t1.scenes[cur].current_button_id == a);
    assert(menu_ready(t1.scenes[cur])) by {
        lemma_menu_moves_keep_ready(t0, t1, Key::Up, go1);
    }
    if a != c {
        let y = p0[to];
        lemma_deselect_undoes_select(y);
        assert(from != to);
        assert(p1 =~= p0.update(from, x).update(to, highlighted(y)));
        assert(p2 =~= p0);
    } else {
        assert(p1 =~= p0);
        assert(p2 =~= p0);
    }
}

/// Moving the map up and then down, or right and then left, brings it back.
pub proof fn lemma_game_moves_undo(t0: Terminal, t1: Terminal, t2: Terminal, g1: bool, g2: bool)
    ensures
        game_key_ready(t0.map.pos_offset, Key::Up) && game_outcome(t0, t1, Key::Up, g1)
            && game_outcome(t1, t2, Key::Down, g2) ==> t2 == t0,
        game_key_ready(t0.map.pos_offset, Key::Right) && game_outcome(t0, t1, Key::Right, g1)
            && game_outcome(t1, t2, Key::Left, g2) ==> t2 == t0,
{
}

/// Esc ends the loop and changes nothing, in a menu and in the game.
pub proof fn lemma_esc_quits(t0: Terminal, t1: Terminal, go_on: bool)
    ensures
        menu_outcome(t0, t1, Key::Esc, go_on) ==> !go_on && t1 == t0,
        game_outcome(t0, t1, Key::Esc, go_on) ==> !go_on && t1 == t0,
{
}

/// The whole program state: the map, the frame rate shown, the command
/// line, the terminal's size, the scenes and which of them is shown.
pub struct Terminal {
    pub map: WorldMap,
    pub fps: u32,
    pub args: Vec<String>,
    pub dimensions: (u16, u16),
    pub scenes: Vec<Scene>,
    pub current_scene: usize,
}

impl Terminal {
    /// The state for a terminal of `dimensions` started with `args`, showing
    /// `map`: the map the command line asks for, fitted to the terminal and
    /// generated, with one colour per tile. There are no scenes yet.
    pub fn new(args: Vec<String>, dimensions: (u16, u16), map: WorldMap) -> (t: Self)
        requires
            args_valid(args.deep_view()),
            dimensions.0 / 3 >= 2,
            dimensions.1 >= 4,
            map.generator_id == requested_generator(args.deep_view()),
            map.map_type == requested_map_type(args.deep_view()),
            map.size == smaller(dimensions.0 / 3 - 2, dimensions.1 - 4),
            map.content.len() == map.size * map.size,
            map.pos_offset == (0i32, 0i32),
        ensures
            t.map == map,
            t.fps == 0,
            t.args@ == args@,
            t.dimensions == dimensions,
            t.scenes@.len() == 0,
            t.current_scene == 0,
    {
        Terminal { map, fps: 0, args, dimensions, scenes: Vec::new(), current_scene: 0 }
    }

    pub fn set_scenes(&mut self, scenes: Vec<Scene>)
        ensures
            final(self).scenes == scenes,
            final(self).map == old(self).map,
            final(self).fps == old(self).fps,
            final(self).args == old(self).args,
            final(self).dimensions == old(self).dimensions,
            final(self).current_scene == old(self).current_scene,
    {
        self.scenes = scenes;
    }

    /// The text that shows the current scene (see `frame_text`).
    pub fn scene_frame(&self) -> (s: String)
        requires
            self.current_scene < self.scenes.len(),
            self.scenes[self.current_scene as int].scene_type == SceneType::Game ==> {
                &&& self.map.size as int * self.map.size as int <= u16::MAX + 1
                &&& self.map.content.len() >= self.map.size as int * self.map.size as int
            },
        ensures
            s@ == frame_text(
                self.scenes[self.current_scene as int].scene_type,
                concat_all(self.scenes[self.current_scene as int].modified_content.deep_view()),
                self.fps,
                map_text(self.map.content@, self.map.size as nat, self.map.average),
            ),
    {
        let scene = &self.scenes[self.current_scene];
        let mut s = String::new();
        match scene.scene_type {
            SceneType::Settings => {
                s.append("\x1B[3J\x1Bc\x1B[?25l");
                let printable = scene.get_printable_content();
                s.append(printable.as_str());
                s.append("\n");
            },
            SceneType::Game => {
                s.append("\x1Bc");
                s.append("\x1B[?25l");
                s.append("FPS: ");
                push_decimal(&mut s, self.fps);
                s.append("\n");
                let drawn = self.map.as_string();
                s.append(drawn.as_str());
                s.append("\n");
            },
        }
        proof {
            assert(s@ =~= frame_text(
                scene.scene_type,
                concat_all(scene.modified_content.deep_view()),
                self.fps,
                map_text(self.map.content@, self.map.size as nat, self.map.average),
            ));
        }
        s
    }

    /// `handle_event` may be given `event`: the current scene exists; a new
    /// size leaves room for the map; a key finds what it acts on (see
    /// `menu_key_ready` and `game_key_ready`).
    pub open spec fn handles(&self, event: InputEvent) -> bool {
        &&& self.current_scene < self.scenes.len()
        &&& event matches InputEvent::Resize(w, h) ==> w / 3 >= 2 && h >= 4
        &&& event matches InputEvent::Key(key) ==> match self.scenes[self.current_scene as int].scene_type {
            SceneType::Settings => menu_key_ready(self.scenes[self.current_scene as int], key),
            SceneType::Game => game_key_ready(self.map.pos_offset, key),
        }
    }

    /// Whether `handle_event` may be given `event` (see `handles`).
    pub fn can_handle(&self, event: InputEvent) -> (r: bool)
        ensures
            r == self.handles(event),
    {
        if self.current_scene >= self.scenes.len() {
            return false;
        }
        match event {
            InputEvent::Resize(w, h) => w / 3 >= 2 && h >= 4,
            InputEvent::Other => true,
            InputEvent::Key(key) => {
                let scene = &self.scenes[self.current_scene];
                match scene.scene_type {
                    SceneType::Game => {
                        let o = self.map.pos_offset;
                        match key {
                            Key::Up => o.1 < i32::MAX,
                            Key::Down => o.1 > i32::MIN,
                            Key::Right => o.0 < i32::MAX,
                            Key::Left => o.0 > i32::MIN,
                            _ => true,
                        }
                    },
                    SceneType::Settings => {
                        let c = scene.current_button_id;
                        let n = scene.buttons.len();
                        let m = scene.modified_content.len();
                        match key {
                            Key::Enter => c < n,
                            Key::Up => {
                                if c >= n {
                                    false
                                } else {
                                    let above = if c == 0 { n - 1 } else { c - 1 };
                                    scene.buttons[c].content_id < m && scene.buttons[above].content_id < m
                                }
                            },
                            Key::Down => {
                                if c >= n {
                                    false
                                } else {
                                    let below = if c >= n - 1 { 0 } else { c + 1 };
                                    scene.buttons[c].content_id < m && scene.buttons[below].content_id < m
                                }
                            },
                            _ => true,
                        }
                    },
                }
            },
        }
    }

    /// Reacts to one event of the terminal and says whether the main loop
    /// goes on (see `resize_outcome`, `menu_outcome` and `game_outcome`);
    /// any event other than a resize or a key changes nothing and goes on.
    pub fn handle_event(&mut self, event: InputEvent) -> (go_on: bool)
        requires
            old(self).handles(event),
        ensures
            match event {
                InputEvent::Resize(w, h) => go_on && resize_outcome(*old(self), *final(self), w, h),
                InputEvent::Key(key) => match old(self).scenes[old(self).current_scene as int].scene_type {
                    SceneType::Settings => menu_outcome(*old(self), *final(self), key, go_on),
                    SceneType::Game => game_outcome(*old(self), *final(self), key, go_on),
                },
                InputEvent::Other => go_on && *final(self) == *old(self),
            },
    {
        match event {
            InputEvent::Resize(width, height) => {
                self.dimensions = (width, height);
                self.map.calculate_size(&self.dimensions);
                if self.map.is_simplex() {
                    self.map.generators.set_simplex_seed();
                }
                true
            },
            InputEvent::Key(key) => {
                match self.scenes[self.current_scene].scene_type {
                    SceneType::Settings => self.menu_key(key),
                    SceneType::Game => self.game_key(key),
                }
            },
            InputEvent::Other => true,
        }
    }

    fn menu_key(&mut self, key: Key) -> (go_on: bool)
        requires
            old(self).current_scene < old(self).scenes.len(),
            old(self).scenes[old(self).current_scene as int].scene_type == SceneType::Settings,
            menu_key_ready(old(self).scenes[old(self).current_scene as int], key),
        ensures
            menu_outcome(*old(self), *final(self), key, go_on),
    {
        let cur = self.current_scene;
        match key {
            Key::Esc => false,
            Key::Enter => {
                let scene = &self.scenes[cur];
                let scene_id = scene.buttons[scene.current_button_id].next_scene_id;
                if scene_id < 0 {
                    false
                } else {
                    self.current_scene = scene_id as usize;
                    true
                }
            },
            Key::Up => {
                let scene = &mut self.scenes[cur];
                let from = scene.buttons[scene.current_button_id].content_id;
                scene.deselect_button(from);
                scene.button_up();
                let to = scene.buttons[scene.current_button_id].content_id;
                scene.select_button(to);
                true
            },
            Key::Down => {
                let scene = &mut self.scenes[cur];
                let from = scene.buttons[scene.current_button_id].content_id;
                scene.deselect_button(from);
                scene.button_down();
                let to = scene.buttons[scene.current_button_id].content_id;
                scene.select_button(to);
                true
            },
            _ => false,
        }
    }

    fn game_key(&mut self, key: Key) -> (go_on: bool)
        requires
            game_key_ready(old(self).map.pos_offset, key),
        ensures
            game_outcome(*old(self), *final(self), key, go_on),
    {
        match key {
            Key::Up => {
                self.map.pos_offset.1 = self.map.pos_offset.1 + 1;
                true
            },
            Key::Down => {
                self.map.pos_offset.1 = self.map.pos_offset.1 - 1;
                true
            },
            Key::Right => {
                self.map.pos_offset.0 = self.map.pos_offset.0 + 1;
                true
            },
            Key::Left => {
                self.map.pos_offset.0 = self.map.pos_offset.0 - 1;
                true
            },
            Key::Char(' ') => {
                if self.map.is_simplex() {
                    self.map.generators.set_simplex_seed();
                }
                true
            },
            Key::Char('s') => {
                self.map.map_type = MapType::Square;
                true
            },
            Key::Char('c') => {
                self.map.map_type = MapType::Circle;
                true
            },
            _ => false,
        }
    }

    /// The text that rewrites the frame-rate line in place.
    pub fn fps_frame(&self) -> (s: String)
        ensures
            s@ == fps_text(self.fps),
    {
        let mut s = String::new();
        s.append("\x1B[H\x1B[K");
        s.append("FPS: ");
        push_decimal(&mut s, self.fps);
        s.append("\n");
        assert(s@ =~= fps_text(self.fps));
        s
    }
}

/// The nanoseconds to wait at the end of frame `frame` (counted from 1 in
/// the current second) so that frames keep to the target rate, when
/// `elapsed` nanoseconds of the second have passed; 0 when the frame is late.
pub open spec fn frame_delay_of(frame: nat, elapsed: nat) -> nat {
    let target = (SEC_AS_NANOSEC / TARGET_FPS) as nat * frame;
    if target > elapsed {
        (target - elapsed) as nat
    } else {
        0
    }
}

/// The wait at the end of frame `loop_counter` (see `frame_delay_of`).
pub fn frame_delay(loop_counter: u32, elapsed_nanos: u128) -> (d: u32)
    requires
        (SEC_AS_NANOSEC / TARGET_FPS) as int * loop_counter as int <= u32::MAX,
    ensures
        d == frame_delay_of(loop_counter as nat, elapsed_nanos as nat),
{
    let target = SEC_AS_NANOSEC / TARGET_FPS * loop_counter;
    if target as u128 > elapsed_nanos {
        (target as u128 - elapsed_nanos) as u32
    } else {
        0
    }
}

/// The pace of the main loop: when the current second began and how many
/// frames it has had.
pub struct MainLoop {
    pub start_time: SystemTime,
    pub loop_counter: u32,
}

impl MainLoop {
    /// A loop whose first second starts at `now`, with no frames yet.
    pub fn starting_at(now: SystemTime) -> (m: Self)
        ensures
            m.start_time == now,
            m.loop_counter == 0,
    {
        MainLoop { start_time: now, loop_counter: 0 }
    }

    /// A loop whose first second starts at the clock's current reading (see
    /// `starting_at`).
    pub fn new() -> (m: Self)
        ensures
            m.loop_counter == 0,
    {
        MainLoop::starting_at(system_now())
    }

    /// Starts a new second at `now`, with no frames yet.
    pub fn restart_at(&mut self, now: SystemTime)
        ensures
            final(self).start_time == now,
            final(self).loop_counter == 0,
    {
        self.start_time = now;
        self.loop_counter = 0;
    }

    /// Starts a new second at the clock's current reading (see `restart_at`).
    pub fn reset_loop(&mut self)
        ensures
            final(self).loop_counter == 0,
    {
        self.restart_at(system_now());
    }

    /// Once `elapsed_secs` whole seconds have passed since the second began:
    /// if that is exactly one, the frames counted become the frame rate shown
    /// and a new second starts at `now`; otherwise nothing changes.
    pub fn count_second(&mut self, terminal: &mut Terminal, elapsed_secs: u64, now: SystemTime)
        ensures
            elapsed_secs == 1 ==> final(terminal).fps == old(self).loop_counter
                && final(self).loop_counter == 0 && final(self).start_time == now,
            elapsed_secs != 1 ==> *final(terminal) == *old(terminal) && *final(self) == *old(self),
            final(terminal).map == old(terminal).map,
            final(terminal).args == old(terminal).args,
            final(terminal).dimensions == old(terminal).dimensions,
            final(terminal).scenes == old(terminal).scenes,
            final(terminal).current_scene == old(terminal).current_scene,
    {
        if elapsed_secs == 1 {
            terminal.fps = self.loop_counter;
            self.restart_at(now);
        }
    }

    /// The start of a frame: reads the clock and counts the second (see
    /// `count_second`). When std reports the clock as having gone back past
    /// the start of the second, nothing changes.
    pub fn head(&mut self, terminal: &mut Terminal)
        ensures
            final(terminal).fps == old(terminal).fps && *final(self) == *old(self)
                || final(terminal).fps == old(self).loop_counter && final(self).loop_counter == 0,
            final(terminal).map == old(terminal).map,
            final(terminal).args == old(terminal).args,
            final(terminal).dimensions == old(terminal).dimensions,
            final(terminal).scenes == old(terminal).scenes,
            final(terminal).current_scene == old(terminal).current_scene,
    {
        match elapsed_since(&self.start_time) {
            Some(d) => {
                let secs = whole_secs(&d);
                self.count_second(terminal, secs, system_now());
            },
            None => {},
        }
    }

    /// The end of a frame that finishes `elapsed_nanos` nanoseconds into the
    /// second (`None` when the clock cannot say): counts it and returns how
    /// many nanoseconds to wait before the next (see `frame_delay_of`); 0
    /// when the clock cannot say.
    pub fn tail_after(&mut self, elapsed_nanos: Option<u128>) -> (wait: u32)
        requires
            (SEC_AS_NANOSEC / TARGET_FPS) as int * (old(self).loop_counter as int + 1) <= u32::MAX,
        ensures
            final(self).loop_counter == old(self).loop_counter + 1,
            final(self).start_time == old(self).start_time,
            wait == match elapsed_nanos {
                Some(e) => frame_delay_of(final(self).loop_counter as nat, e as nat),
                None => 0,
            },
    {
        proof {
            let c = self.loop_counter as int;
            assert(SEC_AS_NANOSEC / TARGET_FPS == 16666666u32);
            assert(c + 1 <= 16666666 * (c + 1)) by (nonlinear_arith)
                requires c >= 0;
        }
        self.loop_counter = self.loop_counter + 1;
        match elapsed_nanos {
            Some(e) => frame_delay(self.loop_counter, e),
            None => 0,
        }
    }

    /// The end of a frame: reads how far into the second it finishes, counts
    /// it and returns how many nanoseconds to wait before the next (see
    /// `tail_after`); 0 when std reports the clock as having gone back past
    /// the start of the second.
    pub fn tail(&mut self) -> (wait: u32)
        requires
            (SEC_AS_NANOSEC / TARGET_FPS) as int * (old(self).loop_counter as int + 1) <= u32::MAX,
        ensures
            final(self).loop_counter == old(self).loop_counter + 1,
            final(self).start_time == old(self).start_time,
            exists|elapsed: nat| wait == frame_delay_of(final(self).loop_counter as nat, elapsed),
    {
        let reading = match elapsed_since(&self.start_time) {
            Some(d) => Some(total_nanos(&d)),
            None => None,
        };
        let wait = self.tail_after(reading);
        proof {
            if reading is None {
                let late = (SEC_AS_NANOSEC / TARGET_FPS) as nat * self.loop_counter as nat;
                assert(frame_delay_of(self.loop_counter as nat, late) == 0);
            }
        }
        wait
    }
}

/// A frame that finishes `elapsed` nanoseconds into the second waits until
/// frame `frame` is due, a sixtieth of a second (rounded down to whole
/// nanoseconds) per frame, and no longer: waiting and elapsed time together
/// reach the due time, and any wait at all ends exactly at it; a frame that
/// finishes early always waits.
pub proof fn lemma_frame_waits_until_due(frame: nat, elapsed: nat)
    ensures
        frame_delay_of(frame, elapsed) + elapsed >= 16666666 * frame,
        frame_delay_of(frame, elapsed) > 0 ==> frame_delay_of(frame, elapsed) + elapsed == 16666666 * frame,
        elapsed < 16666666 * frame ==> frame_delay_of(frame, elapsed) > 0,
{
    assert(SEC_AS_NANOSEC / TARGET_FPS == 16666666u32);
}

} // verus!
