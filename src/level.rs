use crate::geometry::Point;
use vstd::prelude::*;

verus! {

/// Width and height of one tile, in world units.
pub const TILE_SIZE: i32 = 64;

/// The mean of a tile's width and height: the interaction radius.
pub const AVG_TILE_DIMENSION: u32 = 64;

/// The largest number of cells a grid may have along one axis.
pub const MAX_GRID_DIM: usize = 1024;

/// The semantic tag that a level cell carries.
#[derive(Clone, Copy, Debug, PartialEq, Eq, Structural)]
pub enum LevelObject {
    Empty,
    Floor,
    LeftWall,
    RightWall,
    TopWall,
    BottomWall,
    TopLeftWall,
    TopRightWall,
    BottomLeftWall,
    BottomRightWall,
    UShapedWall,
    TopLeftCorner,
    TopRightCorner,
    BottomLeftCorner,
    BottomRightCorner,
    ShatteredGlass,
}

/// A static level: `depth` layers of `height` rows of `width` cells, stored
/// layer by layer, row by row.
pub struct LevelGrid {
    width: usize,
    height: usize,
    depth: usize,
    cells: Vec<LevelObject>,
}

/// World x coordinate of the centre of column `x` in a grid `w` columns wide;
/// the grid is centred on the origin.
pub open spec fn world_x(w: int, x: int) -> int {
    x * TILE_SIZE - w * (TILE_SIZE / 2) + TILE_SIZE / 2
}

/// World y coordinate of the centre of row `y` in a grid `h` rows high; row 0
/// is the top row.
pub open spec fn world_y(h: int, y: int) -> int {
    h * (TILE_SIZE / 2) - TILE_SIZE / 2 - y * TILE_SIZE
}

/// World position of the cell at flat index `i` of a grid `w` by `h`.
pub open spec fn cell_point(w: int, h: int, i: int) -> Point {
    Point { x: world_x(w, i % w) as i32, y: world_y(h, (i / w) % h) as i32 }
}

/// Whether flat index `i` of one layer `w` by `h` lies on the outer ring.
pub open spec fn on_border(w: int, h: int, i: int) -> bool {
    i % w == 0 || i % w == w - 1 || i / w == 0 || i / w == h - 1
}

/// World positions of the ring cells among the first `n` cells of one layer,
/// in row-major order.
pub open spec fn border_upto(w: int, h: int, n: nat) -> Seq<Point>
    decreases n,
{
    if n == 0 {
        Seq::empty()
    } else {
        let prev = border_upto(w, h, (n - 1) as nat);
        if on_border(w, h, n - 1) {
            prev.push(cell_point(w, h, n - 1))
        } else {
            prev
        }
    }
}

/// Whether `i` is the first index of `cells` that holds `tag`.
pub open spec fn is_first_index(cells: Seq<LevelObject>, tag: LevelObject, i: int) -> bool {
    &&& 0 <= i < cells.len()
    &&& cells[i] == tag
    &&& forall|j: int| 0 <= j < i ==> cells[j] != tag
}

/// A nested layout as sequences: layers of rows of cells.
pub open spec fn layout_view(layout: Vec<Vec<Vec<LevelObject>>>) -> Seq<Seq<Seq<LevelObject>>> {
    layout@.map_values(|l: Vec<Vec<LevelObject>>| l@.map_values(|r: Vec<LevelObject>| r@))
}

/// Whether `v` has `d` layers of `h` rows of `w` cells each.
pub open spec fn is_box(v: Seq<Seq<Seq<LevelObject>>>, w: nat, h: nat, d: nat) -> bool {
    &&& v.len() == d
    &&& forall|z: int| 0 <= z < d ==> (#[trigger] v[z]).len() == h
    &&& forall|z: int, y: int| 0 <= z < d && 0 <= y < h ==> (#[trigger] v[z][y]).len() == w
}

/// The cells of a nested layout, layer by layer, row by row.
pub open spec fn flat_cells(v: Seq<Seq<Seq<LevelObject>>>) -> Seq<LevelObject> {
    v.map_values(|l: Seq<Seq<LevelObject>>| l.flatten()).flatten()
}

/// Whether a nested layout can become a grid: at least one cell along each
/// axis, at most `MAX_GRID_DIM`, and every layer and row of one size.
pub open spec fn valid_layout(v: Seq<Seq<Seq<LevelObject>>>) -> bool {
    &&& 1 <= v.len() <= MAX_GRID_DIM
    &&& 1 <= v[0].len() <= MAX_GRID_DIM
    &&& 1 <= v[0][0].len() <= MAX_GRID_DIM
    &&& is_box(v, v[0][0].len(), v[0].len(), v.len())
}

/// Flattening `n` sequences of `m` items each gives `n * m` items.
proof fn lemma_flatten_len<A>(s: Seq<Seq<A>>, m: nat)
    requires
        forall|i: int| 0 <= i < s.len() ==> (#[trigger] s[i]).len() == m,
    ensures
        s.flatten().len() == s.len() * m,
    decreases s.len(),
{
    if s.len() > 0 {
        lemma_flatten_len(s.drop_first(), m);
        assert(s.flatten().len() == m + (s.len() - 1) * m);
        assert(m + (s.len() - 1) * m == s.len() * m) by (nonlinear_arith);
    }
}

impl LevelGrid {
    /// World position of the first cell carrying `tag`, if any.
    pub open spec fn placement(&self, tag: LevelObject) -> Option<Point> {
        if exists|i: int| is_first_index(self.cells(), tag, i) {
            let i = choose|i: int| is_first_index(self.cells(), tag, i);
            Some(cell_point(self.width() as int, self.height() as int, i))
        } else {
            None
        }
    }

    pub closed spec fn width(&self) -> nat {
        self.width as nat
    }

    pub closed spec fn height(&self) -> nat {
        self.height as nat
    }

    pub closed spec fn depth(&self) -> nat {
        self.depth as nat
    }

    /// The cells, layer by layer, row by row.
    pub closed spec fn cells(&self) -> Seq<LevelObject> {
        self.cells@
    }

    pub closed spec fn wf(&self) -> bool {
        &&& 1 <= self.width <= MAX_GRID_DIM
        &&& 1 <= self.height <= MAX_GRID_DIM
        &&& 1 <= self.depth <= MAX_GRID_DIM
        &&& self.cells@.len() == self.width * self.height * self.depth
    }

    /// World positions of the grid's outer ring, in row-major order.
    pub open spec fn border(&self) -> Seq<Point> {
        border_upto(self.width() as int, self.height() as int, self.width() * self.height())
    }

    /// Builds a grid from its dimensions and its cells (layer by layer, row by
    /// row); `None` when a dimension is zero or above `MAX_GRID_DIM`, or the
    /// number of cells does not match.
    pub fn new(width: usize, height: usize, depth: usize, cells: Vec<LevelObject>) -> (r: Option<
        LevelGrid,
    >)
        ensures
            r.is_some() <==> (1 <= width <= MAX_GRID_DIM && 1 <= height <= MAX_GRID_DIM && 1
                <= depth <= MAX_GRID_DIM && cells@.len() == width * height * depth),
            r matches Some(g) ==> g.wf() && g.width() == width && g.height() == height
                && g.depth() == depth && g.cells() == cells@,
    {
        if width == 0 || width > MAX_GRID_DIM || height == 0 || height > MAX_GRID_DIM || depth
            == 0 || depth > MAX_GRID_DIM {
            return None;
        }
        assert(width * height <= MAX_GRID_DIM * MAX_GRID_DIM) by (nonlinear_arith)
            requires
                width <= MAX_GRID_DIM,
                height <= MAX_GRID_DIM,
        ;
        assert(width * height * depth <= MAX_GRID_DIM * MAX_GRID_DIM * MAX_GRID_DIM)
            by (nonlinear_arith)
            requires
                width * height <= MAX_GRID_DIM * MAX_GRID_DIM,
                depth <= MAX_GRID_DIM,
        ;
        let n: usize = width * height * depth;
        if cells.len() != n {
            return None;
        }
        Some(LevelGrid { width, height, depth, cells })
    }

    /// Builds a grid from a nested layout: `layout[z][y][x]` is the cell in
    /// column `x` of row `y` of layer `z`. `None` when the layout is empty
    /// along some axis, too large, or ragged.
    pub fn build(layout: &Vec<Vec<Vec<LevelObject>>>) -> (r: Option<LevelGrid>)
        ensures
            r.is_some() <==> valid_layout(layout_view(*layout)),
            r matches Some(g) ==> g.wf() && g.depth() == layout_view(*layout).len()
                && g.height() == layout_view(*layout)[0].len() && g.width() == layout_view(
                *layout,
            )[0][0].len() && g.cells() == flat_cells(layout_view(*layout)),
    {
        let ghost v = layout_view(*layout);
        let d: usize = layout.len();
        if d == 0 || d > MAX_GRID_DIM {
            return None;
        }
        let h: usize = layout[0].len();
        if h == 0 || h > MAX_GRID_DIM {
            return None;
        }
        let w: usize = layout[0][0].len();
        if w == 0 || w > MAX_GRID_DIM {
            return None;
        }
        let mut z: usize = 0;
        while z < d
            invariant
                v == layout_view(*layout),
                d == v.len(),
                d >= 1,
                h == v[0].len(),
                h >= 1,
                w == v[0][0].len(),
                z <= d,
                forall|i: int| 0 <= i < z ==> (#[trigger] v[i]).len() == h,
                forall|i: int, j: int| 0 <= i < z && 0 <= j < h ==> (#[trigger] v[i][j]).len() == w,
            decreases d - z,
        {
            if layout[z].len() != h {
                assert(v[z as int].len() != h);
                return None;
            }
            let mut y: usize = 0;
            while y < h
                invariant
                    v == layout_view(*layout),
                    d == v.len(),
                    h == v[0].len(),
                    h >= 1,
                    w == v[0][0].len(),
                    z < d,
                    v[z as int].len() == h,
                    y <= h,
                    forall|j: int| 0 <= j < y ==> (#[trigger] v[z as int][j]).len() == w,
                decreases h - y,
            {
                if layout[z][y].len() != w {
                    assert(v[z as int][y as int].len() != w);
                    return None;
                }
                y += 1;
            }
            z += 1;
        }
        assert(is_box(v, w as nat, h as nat, d as nat));
        let mut cells: Vec<LevelObject> = Vec::new();
        let mut z: usize = 0;
        while z < d
            invariant
                v == layout_view(*layout),
                is_box(v, w as nat, h as nat, d as nat),
                z <= d,
                cells@ == flat_cells(v.take(z as int)),
            decreases d - z,
        {
            let ghost before = cells@;
            let mut y: usize = 0;
            while y < h
                invariant
                    v == layout_view(*layout),
                    is_box(v, w as nat, h as nat, d as nat),
                    z < d,
                    y <= h,
                    cells@ == before + v[z as int].take(y as int).flatten(),
                decreases h - y,
            {
                let ghost mid = cells@;
                let mut x: usize = 0;
                while x < w
                    invariant
                        v == layout_view(*layout),
                        is_box(v, w as nat, h as nat, d as nat),
                        z < d,
                        y < h,
                        x <= w,
                        cells@ == mid + v[z as int][y as int].take(x as int),
                    decreases w - x,
                {
                    cells.push(layout[z][y][x]);
                    assert(cells@ =~= mid + v[z as int][y as int].take(x + 1));
                    x += 1;
                }
                proof {
                    let rows = v[z as int];
                    assert(rows[y as int].take(w as int) =~= rows[y as int]);
                    assert(rows.take(y + 1) =~= rows.take(y as int).push(rows[y as int]));
                    rows.take(y as int).lemma_flatten_push(rows[y as int]);
                }
                y += 1;
            }
            proof {
                let f = |l: Seq<Seq<LevelObject>>| l.flatten();
                assert(v[z as int].take(h as int) =~= v[z as int]);
                assert(v.take(z + 1) =~= v.take(z as int).push(v[z as int]));
                assert(v.take(z + 1).map_values(f) =~= v.take(z as int).map_values(f).push(
                    v[z as int].flatten(),
                ));
                v.take(z as int).map_values(f).lemma_flatten_push(v[z as int].flatten());
            }
            z += 1;
        }
        proof {
            assert(v.take(d as int) =~= v);
            let f = |l: Seq<Seq<LevelObject>>| l.flatten();
            assert forall|i: int| 0 <= i < v.len() implies (#[trigger] v.map_values(f)[i]).len()
                == h * w by {
                lemma_flatten_len(v[i], w as nat);
            }
            lemma_flatten_len(v.map_values(f), (h * w) as nat);
            assert(d * (h * w) == w * h * d) by (nonlinear_arith);
        }
        Some(LevelGrid { width: w, height: h, depth: d, cells })
    }

    pub fn width_cells(&self) -> (r: usize)
        ensures
            r == self.width(),
            self.wf() ==> 1 <= r <= MAX_GRID_DIM,
    {
        self.width
    }

    pub fn height_cells(&self) -> (r: usize)
        ensures
            r == self.height(),
            self.wf() ==> 1 <= r <= MAX_GRID_DIM,
    {
        self.height
    }

    /// World position of the centre of the cell in column `x`, row `y`.
    pub fn idx_to_world_pos(&self, x: usize, y: usize) -> (r: Point)
        requires
            self.wf(),
            x < self.width(),
            y < self.height(),
        ensures
            r.x == world_x(self.width() as int, x as int),
            r.y == world_y(self.height() as int, y as int),
    {
        let w: i32 = self.width as i32;
        let h: i32 = self.height as i32;
        let xi: i32 = x as i32;
        let yi: i32 = y as i32;
        Point {
            x: xi * TILE_SIZE - w * (TILE_SIZE / 2) + TILE_SIZE / 2,
            y: h * (TILE_SIZE / 2) - TILE_SIZE / 2 - yi * TILE_SIZE,
        }
    }

    /// World position of the cell at flat index `i`.
    fn point_of_index(&self, i: usize) -> (r: Point)
        requires
            self.wf(),
            i < self.cells().len(),
        ensures
            r == cell_point(self.width() as int, self.height() as int, i as int),
    {
        let x: usize = i % self.width;
        let y: usize = (i / self.width) % self.height;
        self.idx_to_world_pos(x, y)
    }

    /// The first cell carrying `tag` in scan order (layer, then row, then
    /// column), as a world position; `None` when no cell carries it.
    pub fn position_of(&self, tag: LevelObject) -> (r: Option<Point>)
        requires
            self.wf(),
        ensures
            r == self.placement(tag),
            r is None <==> forall|i: int| 0 <= i < self.cells().len() ==> self.cells()[i] != tag,
    {
        let n: usize = self.cells.len();
        let mut i: usize = 0;
        while i < n
            invariant
                self.wf(),
                n == self.cells@.len(),
                i <= n,
                forall|j: int| 0 <= j < i ==> self.cells@[j] != tag,
            decreases n - i,
        {
            if self.cells[i] == tag {
                proof {
                    assert(is_first_index(self.cells(), tag, i as int));
                    let c = choose|c: int| is_first_index(self.cells(), tag, c);
                    if c < i {
                    } else if c > i {
                        assert(self.cells()[i as int] != tag);
                    }
                }
                return Some(self.point_of_index(i));
            }
            i += 1;
        }
        assert forall|c: int| !is_first_index(self.cells(), tag, c) by {
            if is_first_index(self.cells(), tag, c) {
                assert(self.cells@[c] == tag);
            }
        }
        None
    }

    /// World positions of every cell on the outer ring of one layer, in
    /// row-major order: the spawn points of hostile agents.
    pub fn border_positions(&self) -> (r: Vec<Point>)
        requires
            self.wf(),
        ensures
            r@ == self.border(),
    {
        assert(self.width * self.height <= MAX_GRID_DIM * MAX_GRID_DIM) by (nonlinear_arith)
            requires
                self.width <= MAX_GRID_DIM,
                self.height <= MAX_GRID_DIM,
        ;
        assert(self.width * self.height <= self.width * self.height * self.depth)
            by (nonlinear_arith)
            requires
                self.depth >= 1,
        ;
        let n: usize = self.width * self.height;
        let mut r: Vec<Point> = Vec::new();
        let mut i: usize = 0;
        while i < n
            invariant
                self.wf(),
                n == self.width * self.height,
                n <= self.cells@.len(),
                i <= n,
                r@ == border_upto(self.width as int, self.height as int, i as nat),
            decreases n - i,
        {
            let x: usize = i % self.width;
            let y: usize = i / self.width;
            if x == 0 || x == self.width - 1 || y == 0 || y == self.height - 1 {
                let p = self.point_of_index(i);
                assert(y < self.height) by {
                    assert(i / self.width < self.height as int) by (nonlinear_arith)
                        requires
                            i < self.width * self.height,
                            self.width >= 1,
                    ;
                }
                assert((i / self.width) % self.height == i / self.width)
                    by (nonlinear_arith)
                    requires
                        0 <= i / self.width < self.height,
                ;
                r.push(p);
            }
            i += 1;
        }
        r
    }
}

} // verus!
