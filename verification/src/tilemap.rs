use vstd::prelude::*;

verus! {

/// Index of the first vertex of the quad that belongs to the tile in column
/// `x` of row `y`, in a grid `width` tiles wide with four vertices per tile.
pub open spec fn quad_base(x: int, y: int, width: int) -> int {
    4 * (x + y * width)
}

/// First vertex index of the tile at (`x`, `y`).
pub fn get_index(x: u16, y: u16, width: u16) -> (index: u16)
    requires
        quad_base(x as int, y as int, width as int) <= u16::MAX,
    ensures
        index == quad_base(x as int, y as int, width as int),
{
    assert(y * width >= 0) by (nonlinear_arith)
        requires
            y >= 0,
            width >= 0,
    ;
    let cell: u16 = x + y * width;
    cell * 3 + cell
}

/// A kind of tile, known to an atlas by the name of its frame.
pub trait Tile {
    /// The name of the frame that shows the tile, as contracts speak of it.
    spec fn frame_name(&self) -> Seq<char>;

    /// The name of the frame that shows the tile.
    fn name<'a>(&'a self) -> (name: &'a str)
        ensures
            name@ == self.frame_name(),
    ;
}

/// The tiles of the overground.
#[derive(Clone, Copy, Debug, PartialEq, Eq, Structural)]
pub enum OvergroundTile {
    Dirt,
    Grass,
}

impl Default for OvergroundTile {
    /// Dirt.
    fn default() -> (tile: OvergroundTile)
        ensures
            tile == OvergroundTile::Dirt,
    {
        OvergroundTile::Dirt
    }
}

impl Tile for OvergroundTile {
    open spec fn frame_name(&self) -> Seq<char> {
        match *self {
            OvergroundTile::Dirt => "dirt"@,
            OvergroundTile::Grass => "grass"@,
        }
    }

    fn name<'a>(&'a self) -> (name: &'a str) {
        match *self {
            OvergroundTile::Dirt => "dirt",
            OvergroundTile::Grass => "grass",
        }
    }
}

/// The six vertex indices of the two triangles that make the quad whose
/// first vertex is `first`.
pub open spec fn quad(first: int) -> Seq<u16> {
    seq![
        (first + 1) as u16,
        (first + 2) as u16,
        first as u16,
        (first + 2) as u16,
        first as u16,
        (first + 3) as u16,
    ]
}

/// The vertex indices of `count` quads, four vertices to each, one quad
/// after the other.
pub open spec fn quads(count: nat) -> Seq<u16>
    decreases count,
{
    if count == 0 {
        Seq::empty()
    } else {
        quads((count - 1) as nat) + quad(4 * (count - 1))
    }
}

/// Appends the indices of the quad whose first vertex is `first`.
pub fn push_quad(indices: &mut Vec<u16>, first: u16)
    requires
        first + 3 <= u16::MAX,
    ensures
        final(indices)@ == old(indices)@ + quad(first as int),
{
    indices.push(first + 1);
    indices.push(first + 2);
    indices.push(first);
    indices.push(first + 2);
    indices.push(first);
    indices.push(first + 3);
    assert(indices@ =~= old(indices)@ + quad(first as int));
}

/// The vertex indices of `count` quads drawn one after the other.
pub fn quad_indices(count: usize) -> (indices: Vec<u16>)
    requires
        4 * count <= 0x1_0000,
    ensures
        indices@ == quads(count as nat),
{
    let mut indices: Vec<u16> = Vec::new();
    let mut i: usize = 0;
    while i < count
        invariant
            i <= count,
            4 * count <= 0x1_0000,
            indices@ == quads(i as nat),
        decreases count - i,
    {
        push_quad(&mut indices, (4 * i) as u16);
        i += 1;
    }
    indices
}

/// A grid of tiles, kept row by row.
pub struct TileMap<T: Tile> {
    pub width: usize,
    pub height: usize,
    pub tiles: Vec<T>,
}

impl<T: Tile> TileMap<T> {
    /// There is one tile for each cell of the grid.
    pub open spec fn wf(&self) -> bool {
        self.width * self.height == self.tiles@.len()
    }

    /// A grid of `width` by `height` tiles.
    pub fn new(width: usize, height: usize, tiles: Vec<T>) -> (map: TileMap<T>)
        requires
            width * height == tiles@.len(),
        ensures
            map.wf(),
            map.width == width,
            map.height == height,
            map.tiles == tiles,
    {
        TileMap { width, height, tiles }
    }

    /// The tile that stands `x` places after the first tile of row `y`, if
    /// the grid has that many tiles.
    pub fn get(&self, x: usize, y: usize) -> (tile: Option<&T>)
        ensures
            tile == if self.width * y + x < self.tiles@.len() {
                Some(&self.tiles@[self.width * y + x])
            } else {
                None
            },
    {
        let len: usize = self.tiles.len();
        let row: usize = match self.width.checked_mul(y) {
            Some(row) => row,
            None => {
                return None;
            },
        };
        let at: usize = match row.checked_add(x) {
            Some(at) => at,
            None => {
                return None;
            },
        };
        if at < len {
            Some(&self.tiles[at])
        } else {
            None
        }
    }

    /// The tiles, row by row.
    pub fn iter(&self) -> (iter: core::slice::Iter<'_, T>)
        ensures
            vstd::std_specs::slice::into_iter_elts(iter) == self.tiles@,
    {
        self.tiles.as_slice().iter()
    }

    /// The vertex indices of the grid's quads, row by row: the quad of the
    /// tile in column `x` of row `y` starts at vertex `get_index(x, y,
    /// width)`.
    pub fn indices(&self) -> (indices: Vec<u16>)
        requires
            self.wf(),
            4 * self.tiles@.len() <= 0x1_0000,
        ensures
            indices@ == quads(self.tiles@.len() as nat),
    {
        let len: usize = self.tiles.len();
        let mut indices: Vec<u16> = Vec::new();
        let mut y: usize = 0;
        while y < self.height
            invariant
                self.wf(),
                len == self.tiles@.len(),
                4 * len <= 0x1_0000,
                y <= self.height,
                indices@ == quads((y * self.width) as nat),
            decreases self.height - y,
        {
            let mut x: usize = 0;
            while x < self.width
                invariant
                    self.wf(),
                    len == self.tiles@.len(),
                    4 * len <= 0x1_0000,
                    y < self.height,
                    x <= self.width,
                    indices@ == quads((y * self.width + x) as nat),
                decreases self.width - x,
            {
                proof {
                    assert(y * self.width + self.width <= self.width * self.height)
                        by (nonlinear_arith)
                        requires
                            0 <= y < self.height,
                            0 <= self.width,
                    ;
                    assert(0 <= y * self.width) by (nonlinear_arith)
                        requires
                            0 <= y,
                            0 <= self.width,
                    ;
                    assert(self.width <= self.width * self.height && self.height <= self.width
                        * self.height) by (nonlinear_arith)
                        requires
                            1 <= self.width,
                            1 <= self.height,
                    ;
                }
                let ghost done = (y * self.width + x) as nat;
                let first = get_index(x as u16, y as u16, self.width as u16);
                push_quad(&mut indices, first);
                x += 1;
                assert(indices@ == quads(done + 1));
            }
            proof {
                assert((y + 1) * self.width == y * self.width + self.width) by (nonlinear_arith);
            }
            y += 1;
        }
        proof {
            assert(self.height * self.width == self.width * self.height) by (nonlinear_arith);
        }
        indices
    }
}

} // verus!
