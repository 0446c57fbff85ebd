use vstd::prelude::*;

verus! {

/// What one cell of the grid holds.
#[derive(Copy, Clone, Debug, PartialEq, Eq, Structural)]
pub enum Tile {
    Wall,
    EmptyFloor,
    Lava,
}

/// The eight directions in which a neighbour can be looked at. North is
/// towards higher rows, east towards higher columns.
#[derive(Copy, Clone, Debug, PartialEq, Eq, Structural)]
pub enum Direction {
    West,
    NorthWest,
    North,
    NorthEast,
    East,
    SouthEast,
    South,
    SouthWest,
}

/// A place on the grid: the column first, then the row, rows counted from the
/// bottom line of the text upwards.
#[derive(Copy, Clone, Debug, PartialEq, Eq, Structural)]
pub struct Location(pub usize, pub usize);

/// A rectangular grid of tiles. Row zero is the bottom line of the text that
/// it was read from.
pub struct Labyrinth {
    tiles: Vec<Vec<Tile>>,
}

/// The tile that a character of the text stands for, if it stands for one.
pub open spec fn spec_tile_of(c: char) -> Option<Tile> {
    if c == '#' {
        Some(Tile::Wall)
    } else if c == '.' {
        Some(Tile::EmptyFloor)
    } else if c == 'X' {
        Some(Tile::Lava)
    } else {
        None
    }
}

/// The tile that a character of the text stands for.
pub fn tile_of(c: char) -> (result: Option<Tile>)
    ensures
        result == spec_tile_of(c),
{
    if c == '#' {
        Some(Tile::Wall)
    } else if c == '.' {
        Some(Tile::EmptyFloor)
    } else if c == 'X' {
        Some(Tile::Lava)
    } else {
        None
    }
}

/// The characters behind the last line break among the first `count`.
pub open spec fn pending_line(chars: Seq<char>, count: int) -> Seq<char>
    decreases count,
{
    if count <= 0 || chars[count - 1] == '\n' {
        Seq::empty()
    } else {
        pending_line(chars, count - 1).push(chars[count - 1])
    }
}

/// A line without the carriage return at its end, if it ends in one.
pub open spec fn without_return(line: Seq<char>) -> Seq<char> {
    if line.len() > 0 && line.last() == '\r' {
        line.drop_last()
    } else {
        line
    }
}

/// The lines that a line break ends among the first `count` characters. A
/// line break is a line feed, or a carriage return and a line feed.
pub open spec fn ended_lines(chars: Seq<char>, count: int) -> Seq<Seq<char>>
    decreases count,
{
    if count <= 0 {
        Seq::empty()
    } else if chars[count - 1] == '\n' {
        ended_lines(chars, count - 1).push(without_return(pending_line(chars, count - 1)))
    } else {
        ended_lines(chars, count - 1)
    }
}

/// The lines of a text: what line breaks end, and what is left behind the
/// last one unless that is nothing. A carriage return that no line feed
/// follows stays in its line.
pub open spec fn lines_of(chars: Seq<char>) -> Seq<Seq<char>> {
    let ended = ended_lines(chars, chars.len() as int);
    let rest = pending_line(chars, chars.len() as int);
    if rest.len() > 0 {
        ended.push(rest)
    } else {
        ended
    }
}

/// Whether the lines spell a grid: at least one line, no line empty, all of
/// one length, and every character a tile.
pub open spec fn spells_grid(lines: Seq<Seq<char>>) -> bool {
    &&& lines.len() > 0
    &&& lines[0].len() > 0
    &&& forall|r: int| 0 <= r < lines.len() ==> (#[trigger] lines[r]).len() == lines[0].len()
    &&& forall|r: int, c: int|
        0 <= r < lines.len() && 0 <= c < lines[r].len() ==> spec_tile_of(
            #[trigger] lines[r][c],
        ) is Some
}

/// The views of the lines, in their order.
pub open spec fn line_views(lines: Seq<Vec<char>>) -> Seq<Seq<char>> {
    Seq::new(lines.len(), |i: int| lines[i]@)
}

/// Splits a text into its lines.
pub fn split_lines(text: &str) -> (result: Vec<Vec<char>>)
    ensures
        line_views(result@) == lines_of(text@),
{
    let total = text.unicode_len();
    let mut lines: Vec<Vec<char>> = Vec::new();
    let mut current: Vec<char> = Vec::new();
    let mut i: usize = 0;
    while i < total
        invariant
            total == text@.len(),
            0 <= i <= total,
            line_views(lines@) == ended_lines(text@, i as int),
            current@ == pending_line(text@, i as int),
        decreases total - i,
    {
        let c = text.get_char(i);
        if c == '\n' {
            let ghost before = lines@;
            if current.len() > 0 && current[current.len() - 1] == '\r' {
                current.pop();
            }
            assert(current@ =~= without_return(pending_line(text@, i as int)));
            lines.push(current);
            assert(line_views(lines@) =~= line_views(before).push(
                without_return(pending_line(text@, i as int)),
            ));
            current = Vec::new();
        } else {
            current.push(c);
        }
        i += 1;
    }
    if current.len() > 0 {
        let ghost before = lines@;
        lines.push(current);
        assert(line_views(lines@) =~= line_views(before).push(
            pending_line(text@, total as int),
        ));
    }
    lines
}

/// The tiles of one line, or nothing where a character is no tile.
fn tiles_of(line: &Vec<char>) -> (result: Option<Vec<Tile>>)
    ensures
        result is Some <==> (forall|c: int|
            0 <= c < line@.len() ==> spec_tile_of(#[trigger] line@[c]) is Some),
        result is Some ==> result.unwrap()@.len() == line@.len(),
        result is Some ==> forall|c: int|
            0 <= c < line@.len() ==> spec_tile_of(line@[c]) == Some(
                #[trigger] result.unwrap()@[c],
            ),
{
    let mut row: Vec<Tile> = Vec::new();
    let mut c: usize = 0;
    while c < line.len()
        invariant
            0 <= c <= line@.len(),
            row@.len() == c,
            forall|k: int| 0 <= k < c ==> spec_tile_of(#[trigger] line@[k]) is Some,
            forall|k: int| 0 <= k < c ==> spec_tile_of(line@[k]) == Some(#[trigger] row@[k]),
        decreases line@.len() - c,
    {
        match tile_of(line[c]) {
            Some(tile) => {
                row.push(tile);
            },
            None => {
                return None;
            },
        }
        c += 1;
    }
    Some(row)
}

impl Labyrinth {
    /// The grid has a row, its rows have a cell, all rows are of one length,
    /// and both sizes are machine integers.
    pub closed spec fn wf(&self) -> bool {
        &&& 0 < self.tiles@.len() <= usize::MAX
        &&& 0 < self.tiles@[0]@.len() <= usize::MAX
        &&& forall|r: int|
            0 <= r < self.tiles@.len() ==> (#[trigger] self.tiles@[r])@.len()
                == self.tiles@[0]@.len()
    }

    /// The number of columns.
    pub closed spec fn spec_width(&self) -> int {
        self.tiles@[0]@.len() as int
    }

    /// The number of rows.
    pub closed spec fn spec_height(&self) -> int {
        self.tiles@.len() as int
    }

    /// The tile in the column and the row.
    pub closed spec fn spec_tile(&self, column: int, row: int) -> Tile {
        self.tiles@[row]@[column]
    }

    /// Whether the column and the row name a cell of the grid.
    pub open spec fn contains(&self, column: int, row: int) -> bool {
        0 <= column < self.spec_width() && 0 <= row < self.spec_height()
    }

    /// What is seen at the column and the row: the tile there, and a wall
    /// outside the grid.
    pub open spec fn seen_at(&self, column: int, row: int) -> Tile {
        if self.contains(column, row) {
            self.spec_tile(column, row)
        } else {
            Tile::Wall
        }
    }

    /// Builds the grid that the lines of a text spell, the last line as row
    /// zero. Lines that spell no grid give nothing.
    pub fn from_lines(lines: &Vec<Vec<char>>) -> (result: Option<Labyrinth>)
        ensures
            result is Some <==> spells_grid(line_views(lines@)),
            result is Some ==> {
                let grid = result.unwrap();
                &&& grid.wf()
                &&& grid.spec_height() == lines@.len()
                &&& grid.spec_width() == lines@[0]@.len()
                &&& forall|column: int, row: int|
                    grid.contains(column, row) ==> spec_tile_of(
                        lines@[lines@.len() - 1 - row]@[column],
                    ) == Some(#[trigger] grid.spec_tile(column, row))
            },
    {
        let height = lines.len();
        if height == 0 || lines[0].len() == 0 {
            return None;
        }
        let width = lines[0].len();
        let mut tiles: Vec<Vec<Tile>> = Vec::new();
        let mut r: usize = 0;
        while r < height
            invariant
                height == lines@.len(),
                height > 0,
                width == lines@[0]@.len(),
                width > 0,
                0 <= r <= height,
                tiles@.len() == r,
                forall|k: int| 0 <= k < r ==> (#[trigger] tiles@[k])@.len() == width,
                forall|k: int| height - r <= k < height ==> (#[trigger] lines@[k])@.len() == width,
                forall|k: int, c: int|
                    height - r <= k < height && 0 <= c < width ==> spec_tile_of(
                        #[trigger] lines@[k]@[c],
                    ) is Some,
                forall|k: int, c: int|
                    0 <= k < r && 0 <= c < width ==> spec_tile_of(lines@[height - 1 - k]@[c])
                        == Some(#[trigger] tiles@[k]@[c]),
            decreases height - r,
        {
            let line = &lines[height - 1 - r];
            if line.len() != width {
                assert(line_views(lines@)[height - 1 - r].len() != line_views(lines@)[0].len());
                return None;
            }
            match tiles_of(line) {
                Some(row) => {
                    tiles.push(row);
                },
                None => {
                    let ghost bad = choose|c: int|
                        0 <= c < line@.len() && !(spec_tile_of(#[trigger] line@[c]) is Some);
                    assert(!(spec_tile_of(line_views(lines@)[height - 1 - r][bad]) is Some));
                    return None;
                },
            }
            r += 1;
        }
        let grid = Labyrinth { tiles };
        proof {
            assert forall|k: int| 0 <= k < line_views(lines@).len() implies (
            #[trigger] line_views(lines@)[k]).len() == line_views(lines@)[0].len() by {
                assert(lines@[k]@.len() == width);
            }
            assert forall|k: int, c: int|
                0 <= k < line_views(lines@).len() && 0 <= c < line_views(
                    lines@,
                )[k].len() implies spec_tile_of(#[trigger] line_views(lines@)[k][c]) is Some by {
                assert(lines@[k]@.len() == width);
                assert(spec_tile_of(lines@[k]@[c]) is Some);
            }
        }
        Some(grid)
    }

    /// Reads a grid from a text of lines of `#` for a wall, `.` for empty
    /// floor and `X` for lava. The last line becomes row zero.
    pub fn parse(text: &str) -> (result: Option<Labyrinth>)
        ensures
            result is Some <==> spells_grid(lines_of(text@)),
            result is Some ==> {
                let grid = result.unwrap();
                let lines = lines_of(text@);
                &&& grid.wf()
                &&& grid.spec_height() == lines.len()
                &&& grid.spec_width() == lines[0].len()
                &&& forall|column: int, row: int|
                    grid.contains(column, row) ==> spec_tile_of(
                        lines[lines.len() - 1 - row][column],
                    ) == Some(#[trigger] grid.spec_tile(column, row))
            },
    {
        let lines = split_lines(text);
        let result = Labyrinth::from_lines(&lines);
        proof {
            if result is Some {
                let grid = result.unwrap();
                assert forall|column: int, row: int| grid.contains(column, row) implies spec_tile_of(
                    lines_of(text@)[lines_of(text@).len() - 1 - row][column],
                ) == Some(#[trigger] grid.spec_tile(column, row)) by {
                    assert(line_views(lines@)[lines@.len() - 1 - row] == lines@[lines@.len() - 1
                        - row]@);
                }
            }
        }
        result
    }

    /// Reads a grid from a text that spells one, as `parse` does.
    pub fn from(text: &str) -> (result: Labyrinth)
        requires
            spells_grid(lines_of(text@)),
        ensures
            result.wf(),
            result.spec_height() == lines_of(text@).len(),
            result.spec_width() == lines_of(text@)[0].len(),
            forall|column: int, row: int|
                result.contains(column, row) ==> spec_tile_of(
                    lines_of(text@)[lines_of(text@).len() - 1 - row][column],
                ) == Some(#[trigger] result.spec_tile(column, row)),
    {
        match Labyrinth::parse(text) {
            Some(grid) => grid,
            None => unreached(),
        }
    }

    /// The numbers of columns and of rows.
    pub fn size(&self) -> (result: (usize, usize))
        requires
            self.wf(),
        ensures
            result.0 == self.spec_width(),
            result.1 == self.spec_height(),
    {
        (self.tiles[0].len(), self.tiles.len())
    }

    /// The tile at the location, or nothing outside the grid.
    pub fn tile(&self, location: Location) -> (result: Option<Tile>)
        requires
            self.wf(),
        ensures
            result is Some <==> self.contains(location.0 as int, location.1 as int),
            result is Some ==> result.unwrap() == self.spec_tile(
                location.0 as int,
                location.1 as int,
            ),
    {
        if location.1 < self.tiles.len() && location.0 < self.tiles[location.1].len() {
            Some(self.tiles[location.1][location.0])
        } else {
            None
        }
    }

    /// What is seen from the location in the direction: the tile of the
    /// neighbouring cell, and a wall where the grid ends. At column or row
    /// zero a step west or south stays in place.
    pub fn inspect_from(&self, location: Location, direction: Direction) -> (result: Tile)
        requires
            self.wf(),
        ensures
            result == self.seen_at(
                neighbour(location, direction).0,
                neighbour(location, direction).1,
            ),
    {
        let column: Option<usize> = match direction {
            Direction::West | Direction::NorthWest | Direction::SouthWest => Some(
                step_back(location.0),
            ),
            Direction::North | Direction::South => Some(location.0),
            _ => step_on(location.0),
        };
        let row: Option<usize> = match direction {
            Direction::South | Direction::SouthEast | Direction::SouthWest => Some(
                step_back(location.1),
            ),
            Direction::West | Direction::East => Some(location.1),
            _ => step_on(location.1),
        };
        match (column, row) {
            (Some(c), Some(r)) => match self.tile(Location(c, r)) {
                Some(tile) => tile,
                None => Tile::Wall,
            },
            _ => Tile::Wall,
        }
    }
}

/// One step back from `x`, or zero where `x` is zero.
pub open spec fn back(x: int) -> int {
    if x > 0 {
        x - 1
    } else {
        0
    }
}

fn step_back(x: usize) -> (result: usize)
    ensures
        result == back(x as int),
{
    if x > 0 {
        x - 1
    } else {
        0
    }
}

fn step_on(x: usize) -> (result: Option<usize>)
    ensures
        result is Some <==> x < usize::MAX,
        result is Some ==> result.unwrap() == x + 1,
{
    if x < usize::MAX {
        Some(x + 1)
    } else {
        None
    }
}

/// The column and the row of the cell next to the location in the direction.
pub open spec fn neighbour(location: Location, direction: Direction) -> (int, int) {
    let column = location.0 as int;
    let row = location.1 as int;
    match direction {
        Direction::West => (back(column), row),
        Direction::NorthWest => (back(column), row + 1),
        Direction::North => (column, row + 1),
        Direction::NorthEast => (column + 1, row + 1),
        Direction::East => (column + 1, row),
        Direction::SouthEast => (column + 1, back(row)),
        Direction::South => (column, back(row)),
        Direction::SouthWest => (back(column), back(row)),
    }
}

} // verus!
