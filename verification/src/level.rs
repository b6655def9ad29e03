//! Tiles, levels, and the text format of a level.

use vstd::prelude::*;

verus! {

/// One cell of a level.
#[derive(Clone, Copy, Debug, PartialEq, Eq, Structural)]
pub enum Tile {
    Empty,
    Ground,
    Spawn,
    Flag,
    PowerUp,
}

/// The glyph that the text format writes for a tile.
pub open spec fn spec_glyph(tile: Tile) -> char {
    match tile {
        Tile::Empty => '⬜',
        Tile::Ground => '🟩',
        Tile::Spawn => '🙂',
        Tile::Flag => '🏁',
        Tile::PowerUp => '🍄',
    }
}

/// The tile that a glyph stands for, if it stands for one.
pub open spec fn spec_tile(glyph: char) -> Option<Tile> {
    if glyph == '⬜' {
        Some(Tile::Empty)
    } else if glyph == '🟩' {
        Some(Tile::Ground)
    } else if glyph == '🙂' {
        Some(Tile::Spawn)
    } else if glyph == '🏁' {
        Some(Tile::Flag)
    } else if glyph == '🍄' {
        Some(Tile::PowerUp)
    } else {
        None
    }
}

impl Tile {
    /// The glyph of this tile.
    pub fn glyph(self) -> (c: char)
        ensures
            c == spec_glyph(self),
    {
        match self {
            Tile::Empty => '⬜',
            Tile::Ground => '🟩',
            Tile::Spawn => '🙂',
            Tile::Flag => '🏁',
            Tile::PowerUp => '🍄',
        }
    }

    /// Reads a glyph: `Some` tile for the five glyphs of the format, `None`
    /// for every other character.
    pub fn from_glyph(glyph: char) -> (tile: Option<Tile>)
        ensures
            tile == spec_tile(glyph),
    {
        if glyph == '⬜' {
            Some(Tile::Empty)
        } else if glyph == '🟩' {
            Some(Tile::Ground)
        } else if glyph == '🙂' {
            Some(Tile::Spawn)
        } else if glyph == '🏁' {
            Some(Tile::Flag)
        } else if glyph == '🍄' {
            Some(Tile::PowerUp)
        } else {
            None
        }
    }
}

/// Every tile is read back from its own glyph, and a glyph that reads as a
/// tile is that tile's glyph: glyphs and tiles correspond one to one.
pub proof fn lemma_glyph_bijection(tile: Tile, glyph: char)
    ensures
        spec_tile(spec_glyph(tile)) == Some(tile),
        spec_tile(glyph) == Some(tile) <==> glyph == spec_glyph(tile),
        spec_glyph(tile) != '\n',
{
}

/// A level: rows of tiles, top row first. Rows may differ in length.
#[derive(Debug)]
pub struct Level {
    pub tiles: Vec<Vec<Tile>>,
}

impl View for Level {
    type V = Seq<Seq<Tile>>;

    /// The grid of tiles, row by row.
    open spec fn view(&self) -> Seq<Seq<Tile>> {
        Seq::new(self.tiles@.len(), |j: int| self.tiles@[j]@)
    }
}

/// Why a text is not a level.
#[derive(Clone, Copy, Debug, PartialEq, Eq, Structural)]
pub enum LevelError {
    /// The text holds this character, which is neither a glyph nor a line end.
    UnknownTile(char),
}

/// A character that the text format accepts: a glyph or a line end.
pub open spec fn is_level_char(c: char) -> bool {
    c == '\n' || spec_tile(c) is Some
}

/// The rows closed so far and the tiles of the row still open, after reading
/// `text` from left to right. A line end closes the open row; characters that
/// are no glyph add nothing.
pub open spec fn spec_scan(text: Seq<char>) -> (Seq<Seq<Tile>>, Seq<Tile>)
    decreases text.len(),
{
    if text.len() == 0 {
        (Seq::empty(), Seq::empty())
    } else {
        let (rows, line) = spec_scan(text.drop_last());
        let c = text.last();
        if c == '\n' {
            (rows.push(line), Seq::empty())
        } else {
            match spec_tile(c) {
                Some(tile) => (rows, line.push(tile)),
                None => (rows, line),
            }
        }
    }
}

/// The grid that a text decodes to: its rows that a line end closes. Tiles
/// after the last line end belong to no row.
pub open spec fn spec_rows(text: Seq<char>) -> Seq<Seq<Tile>> {
    spec_scan(text).0
}

/// Decodes the text of a level.
///
/// Succeeds exactly when every character is a glyph or a line end, and then
/// returns the rows that the line ends close. Otherwise the error names the
/// first character that is neither.
pub fn decode_level(text: &str) -> (res: Result<Level, LevelError>)
    ensures
        match res {
            Ok(level) => {
                &&& forall|i: int| 0 <= i < text@.len() ==> is_level_char(#[trigger] text@[i])
                &&& level@ == spec_rows(text@)
            },
            Err(LevelError::UnknownTile(c)) => exists|i: int|
                {
                    &&& 0 <= i < text@.len()
                    &&& #[trigger] text@[i] == c
                    &&& !is_level_char(c)
                    &&& forall|j: int| 0 <= j < i ==> is_level_char(#[trigger] text@[j])
                },
        },
{
    let mut tiles: Vec<Vec<Tile>> = Vec::new();
    let mut line: Vec<Tile> = Vec::new();
    for c in it: text.chars()
        invariant
            it.seq() == text@,
            forall|k: int| 0 <= k < it.index() ==> is_level_char(#[trigger] text@[k]),
            Seq::new(tiles@.len(), |j: int| tiles@[j]@) == spec_scan(text@.take(it.index())).0,
            line@ == spec_scan(text@.take(it.index())).1,
    {
        proof {
            assert(text@.take(it.index() + 1).drop_last() =~= text@.take(it.index()));
            assert(text@.take(it.index() + 1).last() == c);
        }
        if c == '\n' {
            let ghost before = tiles@;
            let ghost closed = line@;
            tiles.push(line);
            assert(Seq::new(tiles@.len(), |j: int| tiles@[j]@) =~= Seq::new(
                before.len(),
                |j: int| before[j]@,
            ).push(closed));
            line = Vec::new();
        } else {
            match Tile::from_glyph(c) {
                Some(tile) => {
                    line.push(tile);
                },
                None => {
                    return Err(LevelError::UnknownTile(c));
                },
            }
        }
    }
    assert(text@.take(text@.len() as int) =~= text@);
    Ok(Level { tiles })
}

/// The glyphs of one row, without the line end.
pub open spec fn spec_encode_row(line: Seq<Tile>) -> Seq<char> {
    line.map_values(|tile: Tile| spec_glyph(tile))
}

/// The text of a grid: each row's glyphs followed by a line end.
pub open spec fn spec_encode(rows: Seq<Seq<Tile>>) -> Seq<char>
    decreases rows.len(),
{
    if rows.len() == 0 {
        Seq::empty()
    } else {
        spec_encode(rows.drop_last()) + spec_encode_row(rows.last()).push('\n')
    }
}

/// `String::push` of std appends the character to the end of the string.
pub assume_specification[ String::push ](s: &mut String, ch: char)
    ensures
        final(s)@ == old(s)@.push(ch),
;

/// Writes a level in the text format: each row's glyphs, then a line end.
pub fn encode_level(level: &Level) -> (text: String)
    ensures
        text@ == spec_encode(level@),
{
    let mut text = String::new();
    let mut j: usize = 0;
    while j < level.tiles.len()
        invariant
            j <= level.tiles@.len(),
            text@ == spec_encode(level@.take(j as int)),
        decreases level.tiles@.len() - j,
    {
        let line = &level.tiles[j];
        let ghost start = text@;
        let mut i: usize = 0;
        while i < line.len()
            invariant
                i <= line@.len(),
                text@ == start + spec_encode_row(line@.take(i as int)),
            decreases line@.len() - i,
        {
            text.push(line[i].glyph());
            proof {
                assert(spec_encode_row(line@.take(i + 1)) =~= spec_encode_row(
                    line@.take(i as int),
                ).push(spec_glyph(line@[i as int])));
                assert(text@ =~= start + spec_encode_row(line@.take(i + 1)));
            }
            i = i + 1;
        }
        text.push('\n');
        proof {
            assert(line@.take(line@.len() as int) =~= line@);
            assert(level@.take(j + 1).drop_last() =~= level@.take(j as int));
            assert(level@.take(j + 1).last() == line@);
            assert(text@ =~= start + spec_encode_row(line@).push('\n'));
        }
        j = j + 1;
    }
    proof {
        assert(level@.take(level@.len() as int) =~= level@);
    }
    text
}

/// Reading the glyphs of `line` after `text` leaves the closed rows as they
/// were and adds the tiles of `line` to the open row.
proof fn lemma_scan_row(text: Seq<char>, line: Seq<Tile>)
    ensures
        spec_scan(text + spec_encode_row(line)) == (
            spec_scan(text).0,
            spec_scan(text).1 + line,
        ),
    decreases line.len(),
{
    if line.len() == 0 {
        assert(text + spec_encode_row(line) =~= text);
        assert(spec_scan(text).1 + line =~= spec_scan(text).1);
    } else {
        let whole = text + spec_encode_row(line);
        lemma_scan_row(text, line.drop_last());
        lemma_glyph_bijection(line.last(), spec_glyph(line.last()));
        assert(whole.drop_last() =~= text + spec_encode_row(line.drop_last()));
        assert(whole.last() == spec_glyph(line.last()));
        assert((spec_scan(text).1 + line.drop_last()).push(line.last()) =~= spec_scan(text).1
            + line);
    }
}

/// The text of a grid holds nothing but glyphs and line ends.
proof fn lemma_encode_chars(rows: Seq<Seq<Tile>>)
    ensures
        forall|i: int|
            0 <= i < spec_encode(rows).len() ==> is_level_char(#[trigger] spec_encode(rows)[i]),
    decreases rows.len(),
{
    if rows.len() > 0 {
        lemma_encode_chars(rows.drop_last());
        let head = spec_encode(rows.drop_last());
        let row = spec_encode_row(rows.last());
        assert forall|i: int| 0 <= i < spec_encode(rows).len() implies is_level_char(
            #[trigger] spec_encode(rows)[i],
        ) by {
            if i < head.len() {
                assert(spec_encode(rows)[i] == head[i]);
            } else if i < head.len() + row.len() {
                let k = i - head.len();
                assert(spec_encode(rows)[i] == row[k]);
                lemma_glyph_bijection(rows.last()[k], row[k]);
            } else {
                assert(spec_encode(rows)[i] == '\n');
            }
        }
    }
}

/// Reading the text of a grid closes exactly the rows of the grid and leaves
/// no row open.
proof fn lemma_scan_encode(rows: Seq<Seq<Tile>>)
    ensures
        spec_scan(spec_encode(rows)) == (rows, Seq::<Tile>::empty()),
    decreases rows.len(),
{
    if rows.len() > 0 {
        lemma_scan_encode(rows.drop_last());
        let head = spec_encode(rows.drop_last());
        let body = head + spec_encode_row(rows.last());
        lemma_scan_row(head, rows.last());
        assert(spec_encode(rows) =~= body.push('\n'));
        assert(body.push('\n').drop_last() =~= body);
        assert(Seq::<Tile>::empty() + rows.last() =~= rows.last());
        assert(rows.drop_last().push(rows.last()) =~= rows);
    }
}

/// Writing a grid and decoding the text gives the grid back: the text is
/// accepted, and the rows it decodes to are the rows that were written.
pub proof fn lemma_decode_encode(rows: Seq<Seq<Tile>>)
    ensures
        forall|i: int|
            0 <= i < spec_encode(rows).len() ==> is_level_char(#[trigger] spec_encode(rows)[i]),
        spec_rows(spec_encode(rows)) == rows,
{
    lemma_encode_chars(rows);
    lemma_scan_encode(rows);
}

/// An accepted text is the text of its closed rows followed by the glyphs of
/// its open row.
proof fn lemma_encode_scan(text: Seq<char>)
    requires
        forall|i: int| 0 <= i < text.len() ==> is_level_char(#[trigger] text[i]),
    ensures
        spec_encode(spec_scan(text).0) + spec_encode_row(spec_scan(text).1) == text,
    decreases text.len(),
{
    if text.len() == 0 {
        assert(spec_encode(spec_scan(text).0) + spec_encode_row(spec_scan(text).1) =~= text);
    } else {
        let front = text.drop_last();
        let c = text.last();
        assert forall|i: int| 0 <= i < front.len() implies is_level_char(#[trigger] front[i]) by {
            assert(front[i] == text[i]);
        }
        lemma_encode_scan(front);
        let (rows, line) = spec_scan(front);
        assert(is_level_char(text[text.len() - 1]));
        assert(text =~= front.push(c));
        if c == '\n' {
            assert(rows.push(line).drop_last() =~= rows);
            assert(spec_encode(rows.push(line)) + spec_encode_row(Seq::<Tile>::empty()) =~= (
                spec_encode(rows) + spec_encode_row(line)
            ).push('\n'));
        } else {
            let tile = spec_tile(c)->0;
            lemma_glyph_bijection(tile, c);
            assert(spec_encode_row(line.push(tile)) =~= spec_encode_row(line).push(c));
            assert(spec_encode(rows) + spec_encode_row(line.push(tile)) =~= (spec_encode(rows)
                + spec_encode_row(line)).push(c));
        }
    }
}

/// Decoding an accepted text whose last row is closed, and writing the grid
/// again, gives the text back.
pub proof fn lemma_encode_decode(text: Seq<char>)
    requires
        forall|i: int| 0 <= i < text.len() ==> is_level_char(#[trigger] text[i]),
        text.len() > 0 ==> text.last() == '\n',
    ensures
        spec_encode(spec_rows(text)) == text,
{
    lemma_encode_scan(text);
    if text.len() > 0 {
        assert(spec_scan(text).1 =~= Seq::<Tile>::empty());
    }
    assert(spec_encode(spec_scan(text).0) + spec_encode_row(Seq::<Tile>::empty()) =~= spec_encode(
        spec_scan(text).0,
    ));
}

} // verus!
