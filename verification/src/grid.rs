//! Geometry of the table: its size, the ring of wall tiles along its border
//! and the interior that the ring encloses.

use vstd::prelude::*;

verus! {

/// Number of tile columns of the table.
pub const TABLE_WIDTH: i32 = 22;

/// Number of tile rows of the table.
pub const TABLE_HEIGHT: i32 = 22;

/// Number of tiles of the table.
pub const TABLE_TILES: i32 = TABLE_WIDTH * TABLE_HEIGHT;

/// Whether `(x, y)` is a tile of the table.
pub open spec fn on_table(x: int, y: int) -> bool {
    0 <= x < TABLE_WIDTH && 0 <= y < TABLE_HEIGHT
}

/// Whether `(x, y)` is a wall tile: a tile of the outermost ring of the table.
pub open spec fn is_wall(x: int, y: int) -> bool {
    on_table(x, y) && (x == 0 || x == TABLE_WIDTH - 1 || y == 0 || y == TABLE_HEIGHT - 1)
}

/// Whether `(x, y)` lies strictly inside the wall ring.
pub open spec fn in_interior(x: int, y: int) -> bool {
    0 < x < TABLE_WIDTH - 1 && 0 < y < TABLE_HEIGHT - 1
}

/// Tells whether `(x, y)` is a tile of the table.
pub fn is_on_table(x: i32, y: i32) -> (r: bool)
    ensures
        r == on_table(x as int, y as int),
{
    0 <= x && x < TABLE_WIDTH && 0 <= y && y < TABLE_HEIGHT
}

/// Tells whether `(x, y)` lies strictly inside the wall ring.
pub fn is_in_interior(x: i32, y: i32) -> (r: bool)
    ensures
        r == in_interior(x as int, y as int),
{
    0 < x && x < TABLE_WIDTH - 1 && 0 < y && y < TABLE_HEIGHT - 1
}

/// One tile of the wall.
#[derive(Clone, Copy, PartialEq, Eq, Debug, Structural)]
pub struct Wall {
    pub x: i32,
    pub y: i32,
}

/// The piece of wall drawn on a wall tile.
#[derive(Clone, Copy, PartialEq, Eq, Debug, Structural)]
pub enum WallSprite {
    TopBottom,
    Left,
    Right,
    TopLeft,
    TopRight,
    BottomLeft,
    BottomRight,
}

impl WallSprite {
    /// Index of this piece in the sprite sheet.
    pub open spec fn index_spec(self) -> usize {
        match self {
            WallSprite::TopBottom => 16,
            WallSprite::Left => 17,
            WallSprite::Right => 18,
            WallSprite::TopLeft => 19,
            WallSprite::TopRight => 20,
            WallSprite::BottomLeft => 21,
            WallSprite::BottomRight => 22,
        }
    }

    #[verifier::when_used_as_spec(index_spec)]
    pub fn index(self) -> (r: usize)
        ensures
            r == self.index_spec(),
    {
        match self {
            WallSprite::TopBottom => 16,
            WallSprite::Left => 17,
            WallSprite::Right => 18,
            WallSprite::TopLeft => 19,
            WallSprite::TopRight => 20,
            WallSprite::BottomLeft => 21,
            WallSprite::BottomRight => 22,
        }
    }
}

impl Wall {
    /// The tile's position.
    pub open spec fn pos(self) -> (int, int) {
        (self.x as int, self.y as int)
    }

    /// The piece drawn on this tile: a corner where two sides of the ring
    /// meet, the left or right side, and the horizontal piece everywhere
    /// else.
    pub open spec fn sprite_spec(self) -> WallSprite {
        if self.x == 0 {
            if self.y == 0 {
                WallSprite::BottomLeft
            } else if self.y == TABLE_HEIGHT - 1 {
                WallSprite::TopLeft
            } else {
                WallSprite::Left
            }
        } else if self.x == TABLE_WIDTH - 1 {
            if self.y == 0 {
                WallSprite::BottomRight
            } else if self.y == TABLE_HEIGHT - 1 {
                WallSprite::TopRight
            } else {
                WallSprite::Right
            }
        } else {
            WallSprite::TopBottom
        }
    }

    #[verifier::when_used_as_spec(sprite_spec)]
    pub fn sprite(self) -> (r: WallSprite)
        ensures
            r == self.sprite_spec(),
    {
        if self.x == 0 {
            if self.y == 0 {
                WallSprite::BottomLeft
            } else if self.y == TABLE_HEIGHT - 1 {
                WallSprite::TopLeft
            } else {
                WallSprite::Left
            }
        } else if self.x == TABLE_WIDTH - 1 {
            if self.y == 0 {
                WallSprite::BottomRight
            } else if self.y == TABLE_HEIGHT - 1 {
                WallSprite::TopRight
            } else {
                WallSprite::Right
            }
        } else {
            WallSprite::TopBottom
        }
    }
}

/// The tile with number `i`, counting row by row from the bottom left.
pub open spec fn table_tile(i: int) -> Wall {
    Wall { x: (i % (TABLE_WIDTH as int)) as i32, y: (i / (TABLE_WIDTH as int)) as i32 }
}

/// The first `n` tiles of the table, row by row.
pub open spec fn table_tiles(n: nat) -> Seq<Wall> {
    Seq::new(n, |i: int| table_tile(i))
}

/// The test that picks the wall tiles out of the table's tiles.
pub open spec fn on_ring() -> spec_fn(Wall) -> bool {
    |w: Wall| is_wall(w.x as int, w.y as int)
}

/// The wall of a session: the border tiles of the table, row by row.
pub open spec fn wall_ring() -> Seq<Wall> {
    table_tiles(TABLE_TILES as nat).filter(on_ring())
}

/// Builds the wall of a session.
pub fn setup_wall() -> (walls: Vec<Wall>)
    ensures
        walls@ == wall_ring(),
{
    let mut walls: Vec<Wall> = Vec::new();
    let mut i: i32 = 0;
    proof {
        reveal(Seq::filter);
        assert(table_tiles(0).filter(on_ring()) =~= Seq::<Wall>::empty());
    }
    while i < TABLE_TILES
        invariant
            0 <= i <= TABLE_TILES,
            walls@ == table_tiles(i as nat).filter(on_ring()),
        decreases TABLE_TILES - i,
    {
        let x: i32 = i % TABLE_WIDTH;
        let y: i32 = i / TABLE_WIDTH;
        if x == 0 || x == TABLE_WIDTH - 1 || y == 0 || y == TABLE_HEIGHT - 1 {
            walls.push(Wall { x, y });
        }
        proof {
            reveal(Seq::filter);
            let next = table_tiles((i + 1) as nat);
            assert(next.drop_last() =~= table_tiles(i as nat));
            assert(next.last() == Wall { x, y });
        }
        i += 1;
    }
    walls
}

/// Tells whether `walls` is the wall of a session.
pub fn is_wall_ring(walls: &Vec<Wall>) -> (r: bool)
    ensures
        r == (walls@ == wall_ring()),
{
    let ring = setup_wall();
    if walls.len() != ring.len() {
        return false;
    }
    let mut i: usize = 0;
    while i < ring.len()
        invariant
            0 <= i <= ring.len(),
            walls.len() == ring.len(),
            ring@ == wall_ring(),
            forall|j: int| 0 <= j < i ==> walls[j] == ring[j],
        decreases ring.len() - i,
    {
        if walls[i] != ring[i] {
            assert(walls@[i as int] != wall_ring()[i as int]);
            return false;
        }
        i += 1;
    }
    assert(walls@ =~= ring@);
    true
}

/// The wall holds each border tile of the table once, and nothing else.
pub proof fn lemma_wall_ring_is_border(x: i32, y: i32)
    ensures
        wall_ring().contains(Wall { x, y }) <==> is_wall(x as int, y as int),
{
    let tiles = table_tiles(TABLE_TILES as nat);
    let w = Wall { x, y };
    if is_wall(x as int, y as int) {
        let i = y * TABLE_WIDTH + x;
        assert(tiles[i] == w);
        tiles.lemma_filter_contains(on_ring(), i);
    }
    if wall_ring().contains(w) {
        let k = choose|k: int| 0 <= k < wall_ring().len() && wall_ring()[k] == w;
        tiles.lemma_filter_pred(on_ring(), k);
    }
}

/// No tile occurs twice in the wall.
pub proof fn lemma_wall_ring_no_duplicates()
    ensures
        wall_ring().no_duplicates(),
{
    let tiles = table_tiles(TABLE_TILES as nat);
    assert forall|i: int, j: int|
        0 <= i < tiles.len() && 0 <= j < tiles.len() && i != j implies tiles[i] != tiles[j] by {
        assert(i == (i / (TABLE_WIDTH as int)) * TABLE_WIDTH + i % (TABLE_WIDTH as int));
        assert(j == (j / (TABLE_WIDTH as int)) * TABLE_WIDTH + j % (TABLE_WIDTH as int));
    }
    assert(tiles.no_duplicates());
    lemma_filter_keeps_distinct(tiles, on_ring());
}

/// Filtering a sequence without repetitions leaves one without repetitions.
proof fn lemma_filter_keeps_distinct<A>(s: Seq<A>, pred: spec_fn(A) -> bool)
    requires
        s.no_duplicates(),
    ensures
        s.filter(pred).no_duplicates(),
    decreases s.len(),
{
    reveal(Seq::filter);
    if s.len() > 0 {
        let rest = s.drop_last();
        lemma_filter_keeps_distinct(rest, pred);
        if rest.filter(pred).contains(s.last()) {
            rest.lemma_filter_contains_rev(pred, s.last());
            let k = choose|k: int| 0 <= k < rest.len() && rest[k] == s.last();
            assert(s[k] == s[s.len() - 1]);
        }
    }
}

} // verus!
