//! Scenes: a text with buttons written between `#` marks, centred on the
//! terminal, one button highlighted at a time.
use vstd::prelude::*;

pub mod button;

use crate::terminal::scene::button::Button;
use crate::text::{
    split_on, split_text, remove_all, remove_pattern, concat_all, concat_strings, push_char,
    free_of, lemma_remove_front, lemma_remove_prefix_free, lemma_no_straddle,
};

verus! {

/// A menu of buttons, or the map itself.
#[derive(Clone, Copy, PartialEq, Eq, Structural, Debug)]
pub enum SceneType {
    Settings,
    Game,
}

/// The escape sequence that starts the highlight of a selected button.
pub open spec fn highlight_on() -> Seq<char> {
    "\x1B[47;30m"@
}

/// The escape sequence that ends a highlight (it resets all attributes).
pub open spec fn highlight_off() -> Seq<char> {
    "\x1B[0m"@
}

/// A piece of text, highlighted.
pub open spec fn highlighted(x: Seq<char>) -> Seq<char> {
    highlight_on() + x + highlight_off()
}

/// A piece of text with every highlight start and then every highlight end
/// taken out.
pub open spec fn unhighlighted(x: Seq<char>) -> Seq<char> {
    remove_all(remove_all(x, highlight_on()), highlight_off())
}

/// `n` spaces.
pub open spec fn spaces(n: nat) -> Seq<char> {
    Seq::new(n, |i: int| ' ')
}

/// A line centred in `width` columns: half the free columns (rounded down)
/// before it, the rest after it, then a line break.
pub open spec fn centered_line(line: Seq<char>, width: nat) -> Seq<char> {
    let left = ((width - line.len()) / 2) as nat;
    let right = (width - left - line.len()) as nat;
    spaces(left) + line + spaces(right) + seq!['\n']
}

/// The lines centred one after the other; a line as wide as the terminal or
/// wider is left out.
pub open spec fn centered_lines(lines: Seq<Seq<char>>, width: nat) -> Seq<char>
    decreases lines.len(),
{
    if lines.len() == 0 {
        Seq::<char>::empty()
    } else {
        centered_lines(lines.drop_last(), width) + if lines.last().len() < width {
            centered_line(lines.last(), width)
        } else {
            Seq::<char>::empty()
        }
    }
}

/// A text centred line by line in `width` columns.
pub open spec fn centered(content: Seq<char>, width: nat) -> Seq<char> {
    centered_lines(split_on(content, '\n'), width)
}

/// How many buttons a text holds: every second piece between `#` marks.
pub open spec fn button_count(s: Seq<char>) -> nat {
    split_on(s, '#').len() / 2
}

/// The buttons of a text: piece `2k + 1` is button `k`, leading to scene 0.
pub open spec fn found_buttons(buttons: Seq<Button>, s: Seq<char>) -> bool {
    &&& buttons.len() == button_count(s)
    &&& forall|k: int|
        0 <= k < buttons.len() ==> #[trigger] buttons[k] == (Button {
            content_id: (2 * k + 1) as usize,
            next_scene_id: 0,
        })
}

/// The button above `current` among `len`, wrapping from the first to the last.
pub open spec fn button_above(current: int, len: int) -> int {
    if current == 0 {
        len - 1
    } else {
        current - 1
    }
}

/// The button below `current` among `len`, wrapping from the last to the first.
pub open spec fn button_below(current: int, len: int) -> int {
    if current >= len - 1 {
        0
    } else {
        current + 1
    }
}

/// The text pieces of a freshly centred scene: the centred text split at
/// its `#` marks, with the first button's piece highlighted if there is one.
pub open spec fn centered_pieces(content: Seq<char>, width: nat) -> Seq<Seq<char>> {
    let pieces = split_on(centered(content, width), '#');
    if pieces.len() / 2 > 0 {
        pieces.update(1, highlighted(pieces[1]))
    } else {
        pieces
    }
}

/// Deselecting a selected piece gives the piece back, provided the piece
/// holds neither escape sequence itself.
pub proof fn lemma_deselect_undoes_select(x: Seq<char>)
    requires
        free_of(x, highlight_on()),
        free_of(x, highlight_off()),
    ensures
        unhighlighted(highlighted(x)) == x,
{
    reveal_strlit("\x1B[47;30m");
    reveal_strlit("\x1B[0m");
    let on = highlight_on();
    let off = highlight_off();
    assert(on =~= seq!['\x1B', '[', '4', '7', ';', '3', '0', 'm']);
    assert(off =~= seq!['\x1B', '[', '0', 'm']);
    // The start sequence comes off the front, and occurs nowhere after it.
    assert(highlighted(x) =~= on + (x + off));
    lemma_remove_front(on, x + off);
    lemma_no_straddle(x, off, on);
    lemma_remove_prefix_free(x, off, on);
    assert(remove_all(off, on) == off);
    // The end sequence is found only where it was appended.
    lemma_no_straddle(x, off, off);
    lemma_remove_prefix_free(x, off, off);
    assert(off =~= off + Seq::<char>::empty());
    lemma_remove_front(off, Seq::<char>::empty());
    assert(remove_all(Seq::<char>::empty(), off) == Seq::<char>::empty());
    assert(x + Seq::<char>::empty() =~= x);
}

/// Moving the selection up and then down comes back to the same button, and
/// so does moving it down and then up.
pub proof fn lemma_up_down_inverse(current: int, len: int)
    requires
        0 <= current < len,
    ensures
        button_below(button_above(current, len), len) == current,
        button_above(button_below(current, len), len) == current,
{
}

/// Down selects the next button and Up the previous one, both counted
/// modulo the number of buttons; so with two buttons or more, either key
/// selects a button other than the current one.
pub proof fn lemma_selection_steps_modulo(current: int, len: int)
    requires
        0 <= current < len,
    ensures
        button_below(current, len) == (current + 1) % len,
        button_above(current, len) == (current + len - 1) % len,
        0 <= button_below(current, len) < len,
        0 <= button_above(current, len) < len,
        len >= 2 ==> button_below(current, len) != current && button_above(current, len) != current,
{
    if current + 1 < len {
        assert((current + 1) % len == current + 1) by (nonlinear_arith)
            requires 0 <= current + 1 < len;
    } else {
        assert((current + 1) % len == 0) by (nonlinear_arith)
            requires current + 1 == len, len > 0;
    }
    if current > 0 {
        assert((current + len - 1) % len == current - 1) by (nonlinear_arith)
            requires 0 < current < len;
    } else {
        assert((current + len - 1) % len == len - 1) by (nonlinear_arith)
            requires current == 0, len > 0;
    }
}

/// A line shorter than the width is centred: it starts after half the free
/// columns (rounded down), spaces fill the columns before and after it, the
/// row is exactly as wide as the terminal, and a line break ends it.
pub proof fn lemma_centered_line_layout(line: Seq<char>, width: nat)
    requires
        line.len() < width,
    ensures
        ({
            let row = centered_line(line, width);
            let pad = width - line.len();
            let left = pad / 2;
            &&& row.len() == width + 1
            &&& row[width as int] == '\n'
            &&& row.subrange(left, left + line.len()) == line
            &&& forall|i: int| 0 <= i < left ==> row[i] == ' '
            &&& forall|i: int| left + line.len() <= i < width ==> row[i] == ' '
            &&& left <= width - line.len() - left <= left + 1
        }),
{
    let row = centered_line(line, width);
    let left = ((width - line.len()) / 2) as nat;
    assert(row.subrange(left as int, left + line.len() as int) =~= line);
}

/// Every centred line is exactly as wide as the terminal and ends with a
/// line break.
pub proof fn lemma_centered_line_width(line: Seq<char>, width: nat)
    requires
        line.len() < width,
    ensures
        centered_line(line, width).len() == width + 1,
        centered_line(line, width).last() == '\n',
{
}

/// Every button of a centred scene names one of its pieces: button `k` is
/// piece `2k + 1`, and there are at least twice as many pieces as buttons.
pub proof fn lemma_centered_buttons_in_pieces(content: Seq<char>, width: nat)
    ensures
        2 * button_count(centered(content, width)) <= centered_pieces(content, width).len(),
{
}

/// A scene whose selection can move: the selected button exists and every
/// button names one of the pieces.
pub open spec fn menu_ready(scene: Scene) -> bool {
    &&& scene.current_button_id < scene.buttons.len()
    &&& forall|k: int|
        0 <= k < scene.buttons.len() ==> #[trigger] scene.buttons[k].content_id
            < scene.modified_content.len()
}

/// A screen of text with buttons.
pub struct Scene {
    pub content: String,
    pub modified_content: Vec<String>,
    pub scene_type: SceneType,
    pub buttons: Vec<Button>,
    pub current_button_id: usize,
    pub next_scene_id_to_button_id: Vec<isize>,
}

/// Appends `n` spaces.
fn push_spaces(s: &mut String, n: usize)
    ensures
        final(s)@ == old(s)@ + spaces(n as nat),
{
    let mut i: usize = 0;
    while i < n
        invariant
            i <= n,
            s@ == old(s)@ + spaces(i as nat),
        decreases n - i,
    {
        push_char(s, ' ');
        i = i + 1;
        assert(s@ =~= old(s)@ + spaces(i as nat));
    }
}

/// `content` centred line by line in `width` columns (see `centered`).
pub fn centered_text(content: &str, width: u16) -> (string: String)
    ensures
        string@ == centered(content@, width as nat),
{
    let lines = split_text(content, '\n');
    let width = width as usize;
    let ghost w = width as nat;
    let mut string = String::new();
    let mut i: usize = 0;
    assert(lines.deep_view().take(0) =~= Seq::<Seq<char>>::empty());
    while i < lines.len()
        invariant
            i <= lines.len(),
            width == w,
            string@ == centered_lines(lines.deep_view().take(i as int), w),
        decreases lines.len() - i,
    {
        let line = lines[i].as_str();
        let len = line.unicode_len();
        let ghost before = string@;
        assert(lines.deep_view().take(i + 1).drop_last() =~= lines.deep_view().take(i as int));
        if len < width {
            let line_left = (width - len) / 2;
            let line_right = width - line_left - len;
            push_spaces(&mut string, line_left);
            string.append(line);
            push_spaces(&mut string, line_right);
            push_char(&mut string, '\n');
            assert(string@ =~= before + centered_line(lines.deep_view()[i as int], w));
        } else {
            assert(string@ =~= before + Seq::<char>::empty());
        }
        i = i + 1;
    }
    assert(lines.deep_view().take(lines.len() as int) =~= lines.deep_view());
    string
}

impl Scene {
    /// A scene showing `content`, with the buttons its `#` marks enclose.
    /// Nothing is laid out yet: the shown pieces are empty until the scene
    /// is centred.
    pub fn new(content: String, scene_type: SceneType, next_scene_id_to_button_id: Vec<isize>) -> (s: Self)
        ensures
            s.content@ == content@,
            s.modified_content@.len() == 0,
            s.scene_type == scene_type,
            found_buttons(s.buttons@, content@),
            s.current_button_id == 0,
            s.next_scene_id_to_button_id@ == next_scene_id_to_button_id@,
    {
        let buttons = Scene::find_buttons(&content);
        Scene {
            content,
            modified_content: Vec::new(),
            scene_type,
            buttons,
            current_button_id: 0,
            next_scene_id_to_button_id,
        }
    }

    /// The buttons of `string`: every second piece between `#` marks.
    pub fn find_buttons(string: &String) -> (buttons: Vec<Button>)
        ensures
            found_buttons(buttons@, string@),
    {
        let split = split_text(string.as_str(), '#');
        let mut buttons: Vec<Button> = Vec::new();
        let mut i: usize = 0;
        while i < split.len()
            invariant
                i <= split.len(),
                buttons.len() == i / 2,
                forall|k: int|
                    0 <= k < buttons.len() ==> #[trigger] buttons@[k] == (Button {
                        content_id: (2 * k + 1) as usize,
                        next_scene_id: 0,
                    }),
            decreases split.len() - i,
        {
            if i % 2 == 1 {
                buttons.push(Button::new(i, 0));
            }
            i = i + 1;
        }
        proof {
            assert(split.deep_view().len() == split.len());
        }
        buttons
    }

    /// `center_content` may lay the scene out on a terminal of `dimensions`:
    /// there is a next-scene index for every button of the centred text.
    pub open spec fn centerable(&self, dimensions: (u16, u16)) -> bool {
        button_count(centered(self.content@, dimensions.0 as nat))
            <= self.next_scene_id_to_button_id@.len()
    }

    /// Whether `center_content` may lay the scene out on a terminal of
    /// `dimensions` (see `centerable`).
    pub fn can_center(&self, dimensions: (u16, u16)) -> (r: bool)
        ensures
            r == self.centerable(dimensions),
    {
        let string = centered_text(self.content.as_str(), dimensions.0);
        let pieces = split_text(string.as_str(), '#');
        proof {
            assert(pieces.deep_view().len() == pieces.len());
        }
        pieces.len() / 2 <= self.next_scene_id_to_button_id.len()
    }

    /// Centres every line of the content in the terminal's width (lines as
    /// wide as the terminal are dropped), splits the result into pieces at
    /// the `#` marks, takes every second piece as a button leading where the
    /// next-scene indices say, and highlights the first button.
    pub fn center_content(&mut self, dimensions: (u16, u16))
        requires
            old(self).centerable(dimensions),
        ensures
            final(self).modified_content.deep_view()
                == centered_pieces(old(self).content@, dimensions.0 as nat),
            final(self).buttons.len() == button_count(centered(old(self).content@, dimensions.0 as nat)),
            forall|k: int|
                0 <= k < final(self).buttons.len() ==> #[trigger] final(self).buttons@[k] == (Button {
                    content_id: (2 * k + 1) as usize,
                    next_scene_id: old(self).next_scene_id_to_button_id@[k],
                }),
            final(self).content == old(self).content,
            final(self).scene_type == old(self).scene_type,
            final(self).current_button_id == old(self).current_button_id,
            final(self).next_scene_id_to_button_id == old(self).next_scene_id_to_button_id,
    {
        let string = centered_text(self.content.as_str(), dimensions.0);
        let found = Scene::find_buttons(&string);
        let mut buttons: Vec<Button> = Vec::new();
        let mut k: usize = 0;
        while k < found.len()
            invariant
                k <= found.len(),
                found_buttons(found@, string@),
                found.len() <= self.next_scene_id_to_button_id.len(),
                buttons.len() == k,
                forall|j: int|
                    0 <= j < k ==> #[trigger] buttons@[j] == (Button {
                        content_id: (2 * j + 1) as usize,
                        next_scene_id: self.next_scene_id_to_button_id@[j],
                    }),
            decreases found.len() - k,
        {
            assert(found@[k as int] == (Button { content_id: (2 * k + 1) as usize, next_scene_id: 0 }));
            buttons.push(Button::new(found[k].content_id, self.next_scene_id_to_button_id[k]));
            k = k + 1;
        }
        self.buttons = buttons;
        self.modified_content = split_text(string.as_str(), '#');
        if self.buttons.len() > 0 {
            assert(self.buttons@[0].content_id == 1);
            self.select_button(self.buttons[0].content_id);
        }
    }

    /// Highlights the piece `button_id`.
    pub fn select_button(&mut self, button_id: usize)
        requires
            button_id < old(self).modified_content.len(),
        ensures
            final(self).modified_content.deep_view() == old(self).modified_content.deep_view().update(
                button_id as int,
                highlighted(old(self).modified_content.deep_view()[button_id as int]),
            ),
            final(self).modified_content.len() == old(self).modified_content.len(),
            final(self).content == old(self).content,
            final(self).scene_type == old(self).scene_type,
            final(self).buttons == old(self).buttons,
            final(self).current_button_id == old(self).current_button_id,
            final(self).next_scene_id_to_button_id == old(self).next_scene_id_to_button_id,
    {
        let mut s = String::new();
        s.append("\x1B[47;30m");
        s.append(self.modified_content[button_id].as_str());
        s.append("\x1B[0m");
        self.modified_content.set(button_id, s);
        assert(self.modified_content.deep_view() =~= old(self).modified_content.deep_view().update(
            button_id as int,
            highlighted(old(self).modified_content.deep_view()[button_id as int]),
        ));
    }

    /// Takes every highlight start, then every highlight end, out of the
    /// piece `button_id`.
    pub fn deselect_button(&mut self, button_id: usize)
        requires
            button_id < old(self).modified_content.len(),
        ensures
            final(self).modified_content.deep_view() == old(self).modified_content.deep_view().update(
                button_id as int,
                unhighlighted(old(self).modified_content.deep_view()[button_id as int]),
            ),
            final(self).modified_content.len() == old(self).modified_content.len(),
            final(self).content == old(self).content,
            final(self).scene_type == old(self).scene_type,
            final(self).buttons == old(self).buttons,
            final(self).current_button_id == old(self).current_button_id,
            final(self).next_scene_id_to_button_id == old(self).next_scene_id_to_button_id,
    {
        let without_on = remove_pattern(self.modified_content[button_id].as_str(), "\x1B[47;30m");
        let without_off = remove_pattern(without_on.as_str(), "\x1B[0m");
        self.modified_content.set(button_id, without_off);
        assert(self.modified_content.deep_view() =~= old(self).modified_content.deep_view().update(
            button_id as int,
            unhighlighted(old(self).modified_content.deep_view()[button_id as int]),
        ));
    }

    /// Moves the selection one button up, from the first to the last.
    pub fn button_up(&mut self)
        requires
            old(self).current_button_id > 0 || old(self).buttons.len() > 0,
        ensures
            final(self).current_button_id == button_above(
                old(self).current_button_id as int,
                old(self).buttons.len() as int,
            ),
            final(self).content == old(self).content,
            final(self).modified_content == old(self).modified_content,
            final(self).scene_type == old(self).scene_type,
            final(self).buttons == old(self).buttons,
            final(self).next_scene_id_to_button_id == old(self).next_scene_id_to_button_id,
    {
        if self.current_button_id == 0 {
            self.current_button_id = self.buttons.len() - 1;
        } else {
            self.current_button_id = self.current_button_id - 1;
        }
    }

    /// Moves the selection one button down, from the last (or beyond) to the first.
    pub fn button_down(&mut self)
        requires
            old(self).buttons.len() > 0,
        ensures
            final(self).current_button_id == button_below(
                old(self).current_button_id as int,
                old(self).buttons.len() as int,
            ),
            final(self).content == old(self).content,
            final(self).modified_content == old(self).modified_content,
            final(self).scene_type == old(self).scene_type,
            final(self).buttons == old(self).buttons,
            final(self).next_scene_id_to_button_id == old(self).next_scene_id_to_button_id,
    {
        if self.current_button_id >= self.buttons.len() - 1 {
            self.current_button_id = 0;
        } else {
            self.current_button_id = self.current_button_id + 1;
        }
    }

    /// The pieces of the scene written one after the other.
    pub fn get_printable_content(&self) -> (s: String)
        ensures
            s@ == concat_all(self.modified_content.deep_view()),
    {
        concat_strings(&self.modified_content)
    }
}

} // verus!
