use wasm_bridge::labyrinth::split_lines;
use wasm_bridge::labyrinth::tile_of;
use wasm_bridge::labyrinth::Direction;
use wasm_bridge::labyrinth::Labyrinth;
use wasm_bridge::labyrinth::Location;
use wasm_bridge::labyrinth::Tile;

#[test]
fn parsing_labyrinths() {
    let labyrinth_text =
        "####.###\n\
         #......#\n\
         #.####.#\n\
         #..##..#\n\
         #X.##..#\n\
         #......#\n\
         ####.###";
    let labyrinth = Labyrinth::from(labyrinth_text);
    assert_eq!(labyrinth.size(), (8, 7));
    assert_eq!(labyrinth.tile(Location(0, 0)).unwrap(), Tile::Wall);
    assert_eq!(labyrinth.tile(Location(4, 0)).unwrap(), Tile::EmptyFloor);
    assert_eq!(labyrinth.tile(Location(1, 1)).unwrap(), Tile::EmptyFloor);
    assert_eq!(labyrinth.tile(Location(1, 2)).unwrap(), Tile::Lava);
    assert_eq!(labyrinth.tile(Location(8, 8)), None);
}

#[test]
fn texts_that_spell_no_grid_are_refused() {
    assert!(Labyrinth::parse("").is_none());
    assert!(Labyrinth::parse("\n").is_none());
    assert!(Labyrinth::parse("##\n#").is_none());
    assert!(Labyrinth::parse("#?").is_none());
    assert!(Labyrinth::parse("#.\n\n#.").is_none());
    assert!(Labyrinth::parse("#.\n.X\n").is_some());
}

#[test]
fn lines_end_at_line_breaks() {
    assert_eq!(split_lines("ab\nc"), vec![vec!['a', 'b'], vec!['c']]);
    assert_eq!(split_lines("ab\n"), vec![vec!['a', 'b']]);
    assert_eq!(split_lines("\n\nx"), vec![vec![], vec![], vec!['x']]);
    assert_eq!(split_lines(""), Vec::<Vec<char>>::new());
}

#[test]
fn characters_stand_for_tiles() {
    assert_eq!(tile_of('#'), Some(Tile::Wall));
    assert_eq!(tile_of('.'), Some(Tile::EmptyFloor));
    assert_eq!(tile_of('X'), Some(Tile::Lava));
    assert_eq!(tile_of(' '), None);
}

#[test]
fn inspecting_neighbours() {
    let labyrinth = Labyrinth::parse("#.X\n.X#\nX#.").unwrap();
    let centre = Location(1, 1);
    assert_eq!(labyrinth.inspect_from(centre, Direction::West), Tile::EmptyFloor);
    assert_eq!(labyrinth.inspect_from(centre, Direction::NorthWest), Tile::Wall);
    assert_eq!(labyrinth.inspect_from(centre, Direction::North), Tile::EmptyFloor);
    assert_eq!(labyrinth.inspect_from(centre, Direction::NorthEast), Tile::Lava);
    assert_eq!(labyrinth.inspect_from(centre, Direction::East), Tile::Wall);
    assert_eq!(labyrinth.inspect_from(centre, Direction::SouthEast), Tile::EmptyFloor);
    assert_eq!(labyrinth.inspect_from(centre, Direction::South), Tile::Wall);
    assert_eq!(labyrinth.inspect_from(centre, Direction::SouthWest), Tile::Lava);
    assert_eq!(labyrinth.inspect_from(Location(0, 0), Direction::West), Tile::Lava);
    assert_eq!(labyrinth.inspect_from(Location(0, 0), Direction::SouthWest), Tile::Lava);
    assert_eq!(labyrinth.inspect_from(Location(2, 2), Direction::East), Tile::Wall);
    assert_eq!(labyrinth.inspect_from(Location(2, 2), Direction::North), Tile::Wall);
    assert_eq!(
        labyrinth.inspect_from(Location(usize::MAX, usize::MAX), Direction::NorthEast),
        Tile::Wall
    );
}

#[test]
fn carriage_return_before_line_feed_ends_a_line() {
    let labyrinth = Labyrinth::parse("#\r\n#").unwrap();
    assert_eq!(labyrinth.size(), (1, 2));
    assert_eq!(split_lines("ab\r\nc\r\n"), vec![vec!['a', 'b'], vec!['c']]);
    assert_eq!(split_lines("a\rb\nc\r"), vec![vec!['a', '\r', 'b'], vec!['c', '\r']]);
    assert_eq!(split_lines("\r\n"), vec![Vec::<char>::new()]);
    assert!(Labyrinth::parse("#\r").is_none());
    assert_eq!(Labyrinth::parse("#.\r\nX#\r\n").unwrap().size(), (2, 2));
    assert_eq!(Labyrinth::from("#.\nX#").tile(Location(0, 0)), Some(Tile::Lava));
}
