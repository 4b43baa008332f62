//! The tile map: its size, its tiles' colours, their average, and the text
//! that draws it on a terminal.
use vstd::prelude::*;

pub mod generators;

use crate::map::generators::{Generators, seeded_simplex, time_seed};
use crate::text::{decimal, push_decimal, concat_all};

verus! {

/// Whether the tiles fill the whole square or only a disc inside it.
#[derive(Clone, Copy, PartialEq, Eq, Structural, Debug)]
pub enum MapType {
    Square,
    Circle,
}

/// A 24-bit colour: red, green, blue.
#[derive(PartialEq, Eq, Structural, Debug)]
pub struct Color(pub u8, pub u8, pub u8);

impl Color {
    pub fn black() -> (c: Self)
        ensures
            c == Color(0, 0, 0),
    {
        Color(0, 0, 0)
    }

    pub fn copy(&self) -> (c: Self)
        ensures
            c == *self,
    {
        Color(self.0, self.1, self.2)
    }
}

/// A point of the plane with integer coordinates.
#[derive(PartialEq, Eq, Structural, Debug)]
pub struct Vec2(pub i32, pub i32);

/// One channel of a colour: 0 red, 1 green, otherwise blue.
pub open spec fn channel(c: Color, k: int) -> nat {
    if k == 0 {
        c.0 as nat
    } else if k == 1 {
        c.1 as nat
    } else {
        c.2 as nat
    }
}

/// The sum of one channel over all the colours.
pub open spec fn channel_sum(colors: Seq<Color>, k: int) -> nat
    decreases colors.len(),
{
    if colors.len() == 0 {
        0
    } else {
        channel_sum(colors.drop_last(), k) + channel(colors.last(), k)
    }
}

/// The channel-wise sums of the colours divided by `n`, each rounded down
/// and kept to its low byte.
pub open spec fn average_by(colors: Seq<Color>, n: nat) -> Color {
    Color(
        (channel_sum(colors, 0) / n) as u8,
        (channel_sum(colors, 1) / n) as u8,
        (channel_sum(colors, 2) / n) as u8,
    )
}

/// The channel-wise average of the colours, each channel rounded down.
pub open spec fn average_of(colors: Seq<Color>) -> Color {
    average_by(colors, colors.len())
}

/// A channel sums to at most 255 per colour.
pub proof fn lemma_channel_sum_bound(colors: Seq<Color>, k: int)
    ensures
        channel_sum(colors, k) <= 255 * colors.len(),
    decreases colors.len(),
{
    if colors.len() > 0 {
        lemma_channel_sum_bound(colors.drop_last(), k);
    }
}

/// The colours of the tiles that are kept in the disc.
pub open spec fn inside_tiles(tiles: Seq<Color>, inside: Seq<bool>) -> Seq<Color>
    decreases tiles.len(),
{
    if tiles.len() == 0 {
        Seq::<Color>::empty()
    } else {
        let init = inside_tiles(tiles.drop_last(), inside.take(tiles.len() - 1));
        if inside[tiles.len() - 1] {
            init.push(tiles.last())
        } else {
            init
        }
    }
}

/// The colours a map of the given type averages: all tiles of a square, the
/// tiles inside the disc of a circle.
pub open spec fn averaged_tiles(map_type: MapType, tiles: Seq<Color>, inside: Seq<bool>) -> Seq<Color> {
    match map_type {
        MapType::Square => tiles,
        MapType::Circle => inside_tiles(tiles, inside),
    }
}

/// The tiles a map of the given type shows: a square shows every tile, a
/// circle shows black where a tile lies outside the disc.
pub open spec fn shown_tiles(map_type: MapType, tiles: Seq<Color>, inside: Seq<bool>) -> Seq<Color> {
    match map_type {
        MapType::Square => tiles,
        MapType::Circle => Seq::new(
            tiles.len(),
            |i: int|
                if inside[i] {
                    tiles[i]
                } else {
                    Color(0, 0, 0)
                },
        ),
    }
}

/// The point of the plane where tile `i` of a `size` by `size` map lies:
/// tiles run left to right, then top to bottom, and the map is shifted by
/// `offset`.
pub open spec fn tile_point_of(size: u16, offset: (i32, i32), i: int) -> (int, int) {
    (i % (size as int) + offset.0, (size - i / (size as int)) + offset.1)
}

/// Every tile of a `size` by `size` map shifted by `offset` can be listed:
/// the tiles are counted by a `u16` and their points lie within `i32`. The
/// rightmost column is `size - 1` and the top row `size`, both shifted.
pub open spec fn tiles_fit(size: u16, offset: (i32, i32)) -> bool {
    &&& size * size <= u16::MAX
    &&& size > 0 ==> size - 1 + offset.0 <= i32::MAX && size + offset.1 <= i32::MAX
}

/// The text that sets the background to `c` and draws one tile (three spaces).
pub open spec fn cell_text(c: Color) -> Seq<char> {
    "\x1B[48;2;"@ + decimal(c.0 as nat) + ";"@ + decimal(c.1 as nat) + ";"@ + decimal(c.2 as nat)
        + "m   "@
}

/// The first `j` tiles of row `i`.
pub open spec fn row_text(content: Seq<Color>, size: nat, i: nat, j: nat) -> Seq<char>
    decreases j,
{
    if j == 0 {
        Seq::<char>::empty()
    } else {
        row_text(content, size, i, (j - 1) as nat) + cell_text(content[(i * size + j - 1) as int])
    }
}

/// The first `i` rows, each started on a new, indented line.
pub open spec fn rows_text(content: Seq<Color>, size: nat, i: nat) -> Seq<char>
    decreases i,
{
    if i == 0 {
        Seq::<char>::empty()
    } else {
        rows_text(content, size, (i - 1) as nat) + "\x1B[0m\n   "@ + row_text(content, size, (i - 1) as nat, size)
    }
}

/// The drawing of a map: its rows, then one tile of the average colour.
pub open spec fn map_text(content: Seq<Color>, size: nat, average: Color) -> Seq<char> {
    rows_text(content, size, size) + "\x1B[0m   "@ + cell_text(average) + "\x1B[0m\n"@
}

/// The smaller of two sizes, the first where they are equal.
pub open spec fn smaller(a: int, b: int) -> int {
    if b < a {
        b
    } else {
        a
    }
}

/// A map of `size` by `size` coloured tiles.
pub struct WorldMap {
    pub size: u16,
    pub content: Vec<Color>,
    pub average: Color,
    pub generator_id: u8,
    pub generators: Generators,
    pub map_type: MapType,
    pub pos_offset: (i32, i32),
}

/// Appends the drawing of one tile of colour `c`.
fn push_cell(s: &mut String, c: &Color)
    ensures
        final(s)@ == old(s)@ + cell_text(*c),
{
    s.append("\x1B[48;2;");
    push_decimal(s, c.0 as u32);
    s.append(";");
    push_decimal(s, c.1 as u32);
    s.append(";");
    push_decimal(s, c.2 as u32);
    s.append("m   ");
    proof {
        assert(s@ =~= old(s)@ + cell_text(*c));
    }
}

impl WorldMap {
    /// An empty map of the given generator and type whose simplex generator
    /// is built for `seed`.
    pub fn with_seed(generator_id: u8, map_type: MapType, seed: u32) -> (m: WorldMap)
        ensures
            m.size == 0,
            m.content@ == Seq::<Color>::empty(),
            m.average == Color(0, 0, 0),
            m.generator_id == generator_id,
            m.generators.1 == seeded_simplex(seed),
            m.map_type == map_type,
            m.pos_offset == (0i32, 0i32),
    {
        WorldMap {
            size: 0,
            content: Vec::new(),
            average: Color::black(),
            generator_id,
            generators: Generators::with_seed(seed),
            map_type,
            pos_offset: (0, 0),
        }
    }

    /// An empty map of the given generator and type; its simplex generator
    /// is seeded from the clock (see `time_seed`).
    pub fn new(generator_id: u8, map_type: MapType) -> (m: WorldMap)
        ensures
            m.size == 0,
            m.content@ == Seq::<Color>::empty(),
            m.average == Color(0, 0, 0),
            m.generator_id == generator_id,
            exists|seed: u32| m.generators.1 == seeded_simplex(seed),
            m.map_type == map_type,
            m.pos_offset == (0i32, 0i32),
    {
        let seed = time_seed();
        WorldMap::with_seed(generator_id, map_type, seed)
    }

    /// The channel-wise average of `colors`, each channel rounded down. The
    /// number of colours is taken as a `u32`, as are the sums.
    pub fn average_colors(&self, colors: &Vec<Color>) -> (avg: Color)
        requires
            colors.len() as u32 != 0,
            channel_sum(colors@, 0) <= u32::MAX,
            channel_sum(colors@, 1) <= u32::MAX,
            channel_sum(colors@, 2) <= u32::MAX,
        ensures
            avg == average_by(colors@, (colors.len() as u32) as nat),
            colors.len() <= u32::MAX ==> avg == average_of(colors@),
    {
        let mut r: u32 = 0;
        let mut g: u32 = 0;
        let mut b: u32 = 0;
        let size = colors.len() as u32;
        let mut i: usize = 0;
        while i < colors.len()
            invariant
                i <= colors.len(),
                channel_sum(colors@, 0) <= u32::MAX,
                channel_sum(colors@, 1) <= u32::MAX,
                channel_sum(colors@, 2) <= u32::MAX,
                r == channel_sum(colors@.take(i as int), 0),
                g == channel_sum(colors@.take(i as int), 1),
                b == channel_sum(colors@.take(i as int), 2),
            decreases colors.len() - i,
        {
            proof {
                assert(colors@.take(i + 1).drop_last() =~= colors@.take(i as int));
                let rest = colors@.skip(i + 1);
                assert(colors@ =~= colors@.take(i + 1) + rest);
                lemma_channel_sum_append(colors@.take(i + 1), rest, 0);
                lemma_channel_sum_append(colors@.take(i + 1), rest, 1);
                lemma_channel_sum_append(colors@.take(i + 1), rest, 2);
            }
            r = r + colors[i].0 as u32;
            g = g + colors[i].1 as u32;
            b = b + colors[i].2 as u32;
            i = i + 1;
        }
        proof {
            assert(colors@.take(colors.len() as int) =~= colors@);
        }
        Color((r / size) as u8, (g / size) as u8, (b / size) as u8)
    }

    /// Fits the map to a terminal of `terminal_size` (columns, rows): a tile
    /// is three columns wide, two columns and four rows are kept free, and
    /// the map is as large as both directions allow.
    pub fn calculate_size(&mut self, terminal_size: &(u16, u16))
        requires
            terminal_size.0 / 3 >= 2,
            terminal_size.1 >= 4,
        ensures
            final(self).size == smaller(terminal_size.0 / 3 - 2, terminal_size.1 - 4),
            final(self).content == old(self).content,
            final(self).average == old(self).average,
            final(self).generator_id == old(self).generator_id,
            final(self).generators == old(self).generators,
            final(self).map_type == old(self).map_type,
            final(self).pos_offset == old(self).pos_offset,
    {
        let width = terminal_size.0 / 3 - 2;
        let height = terminal_size.1 - 2 - 2;
        if height < width {
            self.size = height;
        } else {
            self.size = width;
        }
    }

    pub fn is_random(&self) -> (r: bool)
        ensures
            r == (self.generator_id == 0),
    {
        self.generator_id == 0
    }

    pub fn is_simplex(&self) -> (r: bool)
        ensures
            r == (self.generator_id == 1),
    {
        self.generator_id == 1
    }

    pub fn is_wfc(&self) -> (r: bool)
        ensures
            r == (self.generator_id == 2),
    {
        self.generator_id == 2
    }

    /// The point of the plane that tile `i` stands for.
    pub fn tile_point(&self, i: u16) -> (p: Vec2)
        requires
            self.size > 0,
            i < self.size * self.size,
            tile_point_of(self.size, self.pos_offset, i as int).0 <= i32::MAX,
            tile_point_of(self.size, self.pos_offset, i as int).1 <= i32::MAX,
        ensures
            p.0 == tile_point_of(self.size, self.pos_offset, i as int).0,
            p.1 == tile_point_of(self.size, self.pos_offset, i as int).1,
    {
        proof {
            assert((i as int / self.size as int) <= (i as int)) by (nonlinear_arith)
                requires self.size > 0, i >= 0;
            assert((i as int / self.size as int) < (self.size as int)) by (nonlinear_arith)
                requires self.size > 0, i < self.size * self.size;
        }
        Vec2(
            (i % self.size) as i32 + self.pos_offset.0,
            (self.size - i / self.size) as i32 + self.pos_offset.1,
        )
    }

    /// Whether every tile can be listed (see `tiles_fit`).
    pub fn can_list_tiles(&self) -> (r: bool)
        ensures
            r == tiles_fit(self.size, self.pos_offset),
    {
        proof {
            assert((self.size as int) * (self.size as int) <= 65535 * 65535) by (nonlinear_arith)
                requires self.size <= 65535;
        }
        let n = self.size as u32 * self.size as u32;
        if n > 65535 {
            return false;
        }
        if self.size == 0 {
            return true;
        }
        (self.size as i64 - 1 + self.pos_offset.0 as i64) <= i32::MAX as i64
            && (self.size as i64 + self.pos_offset.1 as i64) <= i32::MAX as i64
    }

    /// The points of all the tiles, in order (see `tile_point_of`).
    pub fn tile_points(&self) -> (points: Vec<Vec2>)
        requires
            tiles_fit(self.size, self.pos_offset),
        ensures
            points.len() == self.size * self.size,
            forall|i: int|
                0 <= i < points.len() ==> #[trigger] points@[i] == Vec2(
                    tile_point_of(self.size, self.pos_offset, i).0 as i32,
                    tile_point_of(self.size, self.pos_offset, i).1 as i32,
                ),
    {
        let n: u16 = self.size * self.size;
        let mut points: Vec<Vec2> = Vec::new();
        let mut i: u16 = 0;
        while i < n
            invariant
                i <= n,
                n == self.size * self.size,
                tiles_fit(self.size, self.pos_offset),
                points.len() == i,
                forall|k: int|
                    0 <= k < i ==> #[trigger] points@[k] == Vec2(
                        tile_point_of(self.size, self.pos_offset, k).0 as i32,
                        tile_point_of(self.size, self.pos_offset, k).1 as i32,
                    ),
            decreases n - i,
        {
            proof {
                let sz = self.size as int;
                assert(sz > 0) by (nonlinear_arith)
                    requires i < sz * sz, i >= 0, sz >= 0;
                assert((i as int) % sz <= sz - 1) by (nonlinear_arith)
                    requires sz > 0, i >= 0;
                assert(sz - (i as int) / sz <= sz) by (nonlinear_arith)
                    requires sz > 0, i >= 0;
            }
            let p = self.tile_point(i);
            points.push(p);
            i = i + 1;
        }
        points
    }

    /// Whether the map can be drawn: its rows and columns are counted by a
    /// `u16` and every tile has a colour.
    pub fn can_draw(&self) -> (r: bool)
        ensures
            r == (self.size as int * self.size as int <= u16::MAX + 1
                && self.content.len() >= self.size as int * self.size as int),
    {
        proof {
            assert((self.size as int) * (self.size as int) <= 65535 * 65535) by (nonlinear_arith)
                requires self.size <= 65535;
        }
        let n = self.size as u64 * self.size as u64;
        n <= 65536 && self.content.len() as u64 >= n
    }

    /// Whether `place_tiles` may be given these tiles: one colour and one
    /// flag per tile, at most as many tiles as a `u16` counts, and at least
    /// one colour to average.
    pub fn can_place_tiles(&self, tiles: &Vec<Color>, inside: &Vec<bool>) -> (r: bool)
        ensures
            r == (self.size * self.size <= u16::MAX && tiles.len() == self.size * self.size
                && inside.len() == tiles.len() && averaged_tiles(self.map_type, tiles@, inside@).len() > 0),
    {
        proof {
            assert((self.size as int) * (self.size as int) <= 65535 * 65535) by (nonlinear_arith)
                requires self.size <= 65535;
        }
        let n = self.size as u32 * self.size as u32;
        if n > 65535 || tiles.len() != n as usize || inside.len() != tiles.len() {
            return false;
        }
        match self.map_type {
            MapType::Square => tiles.len() > 0,
            MapType::Circle => {
                let mut i: usize = 0;
                while i < tiles.len()
                    invariant
                        i <= tiles.len(),
                        inside.len() == tiles.len(),
                        self.size * self.size <= u16::MAX,
                        tiles.len() == self.size * self.size,
                        self.map_type == MapType::Circle,
                        inside_tiles(tiles@.take(i as int), inside@.take(i as int)).len() == 0,
                    decreases tiles.len() - i,
                {
                    proof {
                        assert(tiles@.take(i + 1).drop_last() =~= tiles@.take(i as int));
                        assert(inside@.take(i + 1).take(i as int) =~= inside@.take(i as int));
                    }
                    if inside[i] {
                        proof {
                            assert(inside@.take(i + 1)[i as int]);
                            assert(tiles@.take(i + 1).len() == i + 1);
                            assert(inside_tiles(tiles@.take(i + 1), inside@.take(i + 1)).len() > 0);
                            lemma_inside_prefix(tiles@, inside@, i + 1);
                        }
                        return true;
                    }
                    i = i + 1;
                }
                assert(tiles@.take(tiles.len() as int) =~= tiles@);
                assert(inside@.take(tiles.len() as int) =~= inside@);
                false
            },
        }
    }

    /// Lays the tiles out: a square shows and averages every tile; a circle
    /// shows black outside the disc and averages the tiles inside it.
    pub fn place_tiles(&mut self, tiles: Vec<Color>, inside: Vec<bool>)
        requires
            old(self).size * old(self).size <= u16::MAX,
            tiles.len() == old(self).size * old(self).size,
            inside.len() == tiles.len(),
            averaged_tiles(old(self).map_type, tiles@, inside@).len() > 0,
        ensures
            placement(*old(self), *final(self), tiles@, inside@),
    {
        match self.map_type {
            MapType::Square => {
                proof {
                    lemma_channel_sum_bound(tiles@, 0);
                    lemma_channel_sum_bound(tiles@, 1);
                    lemma_channel_sum_bound(tiles@, 2);
                }
                self.average = self.average_colors(&tiles);
                self.content = tiles;
            },
            MapType::Circle => {
                let mut content: Vec<Color> = Vec::new();
                let mut colored: Vec<Color> = Vec::new();
                let mut i: usize = 0;
                while i < tiles.len()
                    invariant
                        i <= tiles.len(),
                        inside.len() == tiles.len(),
                        content@ == shown_tiles(MapType::Circle, tiles@, inside@).take(i as int),
                        colored@ == inside_tiles(tiles@.take(i as int), inside@.take(i as int)),
                        colored.len() <= i,
                    decreases tiles.len() - i,
                {
                    proof {
                        assert(tiles@.take(i + 1).drop_last() =~= tiles@.take(i as int));
                        assert(inside@.take(i + 1).take(i as int) =~= inside@.take(i as int));
                    }
                    if inside[i] {
                        content.push(tiles[i].copy());
                        colored.push(tiles[i].copy());
                    } else {
                        content.push(Color::black());
                    }
                    assert(content@ =~= shown_tiles(MapType::Circle, tiles@, inside@).take(i + 1));
                    i = i + 1;
                }
                proof {
                    assert(tiles@.take(tiles.len() as int) =~= tiles@);
                    assert(inside@.take(tiles.len() as int) =~= inside@);
                    assert(content@ =~= shown_tiles(MapType::Circle, tiles@, inside@));
                    lemma_channel_sum_bound(colored@, 0);
                    lemma_channel_sum_bound(colored@, 1);
                    lemma_channel_sum_bound(colored@, 2);
                }
                self.average = self.average_colors(&colored);
                self.content = content;
            },
        }
    }

    /// The text that draws the map: for each row a reset and a new indented
    /// line followed by its tiles, then one tile of the average colour.
    pub fn as_string(&self) -> (s: String)
        requires
            self.size as int * self.size as int <= u16::MAX + 1,
            self.content.len() >= self.size as int * self.size as int,
        ensures
            s@ == map_text(self.content@, self.size as nat, self.average),
    {
        let mut s = String::new();
        let mut i: u16 = 0;
        while i < self.size
            invariant
                i <= self.size,
                self.size as int * self.size as int <= u16::MAX + 1,
                self.content.len() >= self.size as int * self.size as int,
                s@ == rows_text(self.content@, self.size as nat, i as nat),
            decreases self.size - i,
        {
            s.append("\x1B[0m\n   ");
            let ghost row_start = s@;
            let mut j: u16 = 0;
            while j < self.size
                invariant
                    i < self.size,
                    j <= self.size,
                    self.size as int * self.size as int <= u16::MAX + 1,
                    self.content.len() >= self.size as int * self.size as int,
                    s@ == row_start + row_text(self.content@, self.size as nat, i as nat, j as nat),
                decreases self.size - j,
            {
                proof {
                    assert((i as int * self.size as int + j) < (self.size as int * self.size as int))
                        by (nonlinear_arith)
                        requires i < self.size, j < self.size;
                }
                let color = &self.content[(i * self.size + j) as usize];
                push_cell(&mut s, color);
                assert(s@ =~= row_start + row_text(self.content@, self.size as nat, i as nat, (j + 1) as nat));
                j = j + 1;
            }
            assert(s@ =~= rows_text(self.content@, self.size as nat, (i + 1) as nat));
            i = i + 1;
        }
        s.append("\x1B[0m   ");
        push_cell(&mut s, &self.average);
        s.append("\x1B[0m\n");
        assert(s@ =~= map_text(self.content@, self.size as nat, self.average));
        s
    }
}

/// The channel sum over two runs of colours is the sum of their sums.
pub proof fn lemma_channel_sum_append(a: Seq<Color>, b: Seq<Color>, k: int)
    ensures
        channel_sum(a + b, k) == channel_sum(a, k) + channel_sum(b, k),
    decreases b.len(),
{
    if b.len() == 0 {
        assert(a + b =~= a);
    } else {
        assert((a + b).drop_last() =~= a + b.drop_last());
        lemma_channel_sum_append(a, b.drop_last(), k);
    }
}

/// The smaller of two sizes is one of them and at most both.
pub proof fn lemma_smaller_is_min(a: int, b: int)
    ensures
        smaller(a, b) == a || smaller(a, b) == b,
        smaller(a, b) <= a,
        smaller(a, b) <= b,
{
}

/// Row `i` of a drawing is its cells one after the other, cell `k` drawn in
/// the colour of tile `i * size + k` (row-major order).
pub proof fn lemma_row_cells(content: Seq<Color>, size: nat, i: nat, j: nat, cells: Seq<Seq<char>>)
    requires
        cells.len() == j,
        forall|k: int| 0 <= k < j ==> #[trigger] cells[k] == cell_text(content[i * size + k]),
    ensures
        row_text(content, size, i, j) == concat_all(cells),
    decreases j,
{
    if j > 0 {
        let init = cells.drop_last();
        assert forall|k: int| 0 <= k < j - 1 implies #[trigger] init[k] == cell_text(content[i * size + k]) by {
            assert(init[k] == cells[k]);
        }
        lemma_row_cells(content, size, i, (j - 1) as nat, init);
        assert(cells[j - 1] == cell_text(content[i * size + (j - 1)]));
        assert((i * size + j - 1) as int == i * size + (j - 1));
    }
}

/// The first `i` rows of a drawing are those rows in order from the top,
/// each on a new indented line.
pub proof fn lemma_rows_in_order(content: Seq<Color>, size: nat, i: nat, lines: Seq<Seq<char>>)
    requires
        lines.len() == i,
        forall|r: int| 0 <= r < i ==> #[trigger] lines[r] == "\x1B[0m\n   "@ + row_text(content, size, r as nat, size),
    ensures
        rows_text(content, size, i) == concat_all(lines),
    decreases i,
{
    if i > 0 {
        let init = lines.drop_last();
        assert forall|r: int| 0 <= r < i - 1 implies #[trigger] init[r] == "\x1B[0m\n   "@ + row_text(content, size, r as nat, size) by {
            assert(init[r] == lines[r]);
        }
        lemma_rows_in_order(content, size, (i - 1) as nat, init);
        assert(lines[i - 1] == "\x1B[0m\n   "@ + row_text(content, size, (i - 1) as nat, size));
        assert(concat_all(lines) == concat_all(init) + lines[i - 1]);
        assert(rows_text(content, size, i) =~= concat_all(init) + lines[i - 1]);
    }
}

/// `n` tiles of colour `c`.
pub open spec fn uniform_tiles(c: Color, n: nat) -> Seq<Color> {
    Seq::new(n, |i: int| c)
}

/// The average of tiles that all have one colour is that colour.
pub proof fn lemma_average_uniform(c: Color, n: nat)
    requires
        n > 0,
    ensures
        average_of(uniform_tiles(c, n)) == c,
{
    lemma_channel_sum_uniform(c, n, 0);
    lemma_channel_sum_uniform(c, n, 1);
    lemma_channel_sum_uniform(c, n, 2);
    assert((n * (c.0 as nat)) / n == c.0 as nat) by (nonlinear_arith)
        requires n > 0;
    assert((n * (c.1 as nat)) / n == c.1 as nat) by (nonlinear_arith)
        requires n > 0;
    assert((n * (c.2 as nat)) / n == c.2 as nat) by (nonlinear_arith)
        requires n > 0;
}

proof fn lemma_channel_sum_uniform(c: Color, n: nat, k: int)
    ensures
        channel_sum(uniform_tiles(c, n), k) == n * channel(c, k),
    decreases n,
{
    if n > 0 {
        lemma_channel_sum_uniform(c, (n - 1) as nat, k);
        assert(uniform_tiles(c, n).drop_last() =~= uniform_tiles(c, (n - 1) as nat));
        assert(uniform_tiles(c, n).last() == c);
        let v = channel(c, k);
        assert(n * v == (n - 1) * v + v) by (nonlinear_arith)
            requires n > 0;
        assert(channel_sum(uniform_tiles(c, n), k) == channel_sum(uniform_tiles(c, (n - 1) as nat), k) + v);
    } else {
        assert(uniform_tiles(c, n).len() == 0);
        assert(n * channel(c, k) == 0);
    }
}

/// A map fitted to a terminal fits in it: three columns per tile plus two
/// free columns, and four free rows.
pub proof fn lemma_fitted_size_fits(columns: u16, rows: u16)
    requires
        columns / 3 >= 2,
        rows >= 4,
    ensures
        3 * (smaller(columns / 3 - 2, rows - 4) + 2) <= columns,
        smaller(columns / 3 - 2, rows - 4) + 4 <= rows,
{
}

/// `after` is `before` with the tiles laid out: what is shown and averaged
/// depends on the map type, the tiles and the flags alone, and everything
/// else is kept.
pub open spec fn placement(before: WorldMap, after: WorldMap, tiles: Seq<Color>, inside: Seq<bool>) -> bool {
    &&& after.content@ == shown_tiles(before.map_type, tiles, inside)
    &&& after.average == average_of(averaged_tiles(before.map_type, tiles, inside))
    &&& after.size == before.size
    &&& after.generator_id == before.generator_id
    &&& after.generators == before.generators
    &&& after.map_type == before.map_type
    &&& after.pos_offset == before.pos_offset
}

/// Generating a map twice gives what generating it once gives: placing the
/// tiles keeps the size and offset, so the tiles stand at the same points
/// (see `tile_point_of`); and placing the same tiles again yields the same
/// content and average, whatever the map showed before.
pub proof fn lemma_placement_idempotent(
    m0: WorldMap,
    m1: WorldMap,
    m2: WorldMap,
    tiles: Seq<Color>,
    inside: Seq<bool>,
)
    requires
        placement(m0, m1, tiles, inside),
        placement(m1, m2, tiles, inside),
    ensures
        m2.content@ == m1.content@,
        m2.average == m1.average,
        m2.size == m1.size,
        m2.pos_offset == m1.pos_offset,
        forall|i: int| #[trigger] tile_point_of(m2.size, m2.pos_offset, i) == tile_point_of(m0.size, m0.pos_offset, i),
{
}

/// Keeping the tiles of a prefix keeps no more than keeping them all.
proof fn lemma_inside_prefix(tiles: Seq<Color>, inside: Seq<bool>, i: int)
    requires
        0 <= i <= tiles.len(),
        inside.len() == tiles.len(),
    ensures
        inside_tiles(tiles.take(i), inside.take(i)).len() <= inside_tiles(tiles, inside).len(),
    decreases tiles.len() - i,
{
    if i < tiles.len() {
        lemma_inside_prefix(tiles, inside, i + 1);
        assert(tiles.take(i + 1).drop_last() =~= tiles.take(i));
        assert(inside.take(i + 1).take(i) =~= inside.take(i));
    } else {
        assert(tiles.take(i) =~= tiles);
        assert(inside.take(i) =~= inside);
    }
}

} // verus!
