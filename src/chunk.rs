use vstd::prelude::*;
use vstd::arithmetic::div_mod::{lemma_div_denominator, lemma_fundamental_div_mod, lemma_fundamental_div_mod_converse};

use crate::block::BlockType;

verus! {

pub const CHUNK_WIDTH: usize = 16;
pub const CHUNK_HEIGHT: usize = 256;
pub const CHUNK_VOLUME: usize = CHUNK_WIDTH * CHUNK_WIDTH * CHUNK_HEIGHT;

/// Column position of a chunk: `(x, y)` in units of `CHUNK_WIDTH` blocks.
pub type ChunkCoords = (i32, i32);

/// A chunk's full block grid, flattened: cell `(x, y, z)` sits at
/// `cell_index(x, y, z)`, and `None` is air.
pub type Blocks = Vec<Option<BlockType>>;

/// Position of local cell `(x, y, z)` in a flattened grid
/// (16 columns along x, 16 along y, 256 cells high).
pub open spec fn cell_index(x: int, y: int, z: int) -> int {
    (x * 16 + y) * 256 + z
}

pub open spec fn in_chunk(x: int, y: int, z: int) -> bool {
    0 <= x < 16 && 0 <= y < 16 && 0 <= z < 256
}

/// The content of local cell `(x, y, z)` of a flattened grid.
pub open spec fn grid_cell(g: Seq<Option<BlockType>>, x: int, y: int, z: int) -> Option<BlockType> {
    g[cell_index(x, y, z)]
}

pub proof fn lemma_cell_index_bounds(x: int, y: int, z: int)
    requires
        in_chunk(x, y, z),
    ensures
        0 <= cell_index(x, y, z) < 65536,
{
    assert(0 <= (x * 16 + y) * 256 + z < 65536) by (nonlinear_arith)
        requires
            0 <= x < 16,
            0 <= y < 16,
            0 <= z < 256,
    ;
}

/// Distinct cells of a chunk have distinct positions in the flattened grid.
pub proof fn lemma_cell_index_unique(x: int, y: int, z: int, a: int, b: int, c: int)
    requires
        in_chunk(x, y, z),
        in_chunk(a, b, c),
        cell_index(x, y, z) == cell_index(a, b, c),
    ensures
        x == a && y == b && z == c,
{
    let i = cell_index(x, y, z);
    lemma_fundamental_div_mod_converse(i, 256, x * 16 + y, z);
    lemma_fundamental_div_mod_converse(i, 256, a * 16 + b, c);
    lemma_fundamental_div_mod_converse(x * 16 + y, 16, x, y);
    lemma_fundamental_div_mod_converse(a * 16 + b, 16, a, b);
}

/// Every position of a flattened grid is the position of some cell of the chunk.
pub proof fn lemma_cell_index_onto(i: int)
    requires
        0 <= i < 65536,
    ensures
        in_chunk(i / 4096, (i / 256) % 16, i % 256),
        cell_index(i / 4096, (i / 256) % 16, i % 256) == i,
{
    let q = i / 256;
    lemma_fundamental_div_mod(i, 256);
    lemma_fundamental_div_mod(q, 16);
    lemma_div_denominator(i, 256, 16);
    assert(0 <= q < 256) by (nonlinear_arith)
        requires
            i == 256 * q + i % 256,
            0 <= i % 256 < 256,
            0 <= i < 65536,
    ;
    assert(0 <= q / 16 < 16) by (nonlinear_arith)
        requires
            q == 16 * (q / 16) + q % 16,
            0 <= q % 16 < 16,
            0 <= q < 256,
    ;
}

/// Index of local cell `(x, y, z)` in a flattened grid.
pub fn block_index(x: usize, y: usize, z: usize) -> (r: usize)
    requires
        x < CHUNK_WIDTH,
        y < CHUNK_WIDTH,
        z < CHUNK_HEIGHT,
    ensures
        r == cell_index(x as int, y as int, z as int),
        r < CHUNK_VOLUME,
{
    proof {
        lemma_cell_index_bounds(x as int, y as int, z as int);
    }
    (x * 16 + y) * 256 + z
}

/// A half-open axis-aligned box `[x0, x1) × [y0, y1) × [z0, z1)` of local cells.
#[derive(Debug, Clone, Copy, PartialEq, Eq, Structural)]
pub struct ChunkNodePos {
    pub x0: usize,
    pub x1: usize,
    pub y0: usize,
    pub y1: usize,
    pub z0: usize,
    pub z1: usize,
}

/// The axis along which an inner node of the tree is cut in two.
#[derive(Debug, Clone, Copy, PartialEq, Eq, Structural)]
pub enum SplitDir {
    LeftRight,
    FrontBack,
    TopBottom,
}

impl ChunkNodePos {
    /// A non-empty box that lies inside a chunk.
    pub open spec fn valid(&self) -> bool {
        self.x0 < self.x1 <= 16 && self.y0 < self.y1 <= 16 && self.z0 < self.z1 <= 256
    }

    pub open spec fn contains(&self, x: int, y: int, z: int) -> bool {
        self.x0 <= x < self.x1 && self.y0 <= y < self.y1 && self.z0 <= z < self.z1
    }

    pub open spec fn extent(&self) -> int {
        (self.x1 - self.x0) + (self.y1 - self.y0) + (self.z1 - self.z0)
    }

    pub open spec fn volume(&self) -> int {
        (self.x1 - self.x0) * (self.y1 - self.y0) * (self.z1 - self.z0)
    }

    pub fn new(x0: usize, x1: usize, y0: usize, y1: usize, z0: usize, z1: usize) -> (r: Self)
        ensures
            r == (ChunkNodePos { x0, x1, y0, y1, z0, z1 }),
    {
        ChunkNodePos { x0, x1, y0, y1, z0, z1 }
    }

    pub fn size_x(&self) -> (r: usize)
        requires
            self.x0 <= self.x1,
        ensures
            r == self.x1 - self.x0,
    {
        self.x1 - self.x0
    }

    pub fn size_y(&self) -> (r: usize)
        requires
            self.y0 <= self.y1,
        ensures
            r == self.y1 - self.y0,
    {
        self.y1 - self.y0
    }

    pub fn size_z(&self) -> (r: usize)
        requires
            self.z0 <= self.z1,
        ensures
            r == self.z1 - self.z0,
    {
        self.z1 - self.z0
    }

    pub fn size(&self) -> (r: (usize, usize, usize))
        requires
            self.x0 <= self.x1,
            self.y0 <= self.y1,
            self.z0 <= self.z1,
        ensures
            r.0 == self.x1 - self.x0,
            r.1 == self.y1 - self.y0,
            r.2 == self.z1 - self.z0,
    {
        (self.size_x(), self.size_y(), self.size_z())
    }
}

/// The box of a whole chunk.
pub open spec fn full_box() -> ChunkNodePos {
    ChunkNodePos { x0: 0, x1: 16, y0: 0, y1: 16, z0: 0, z1: 256 }
}

/// The axis a non-uniform box is cut along: the longest one, z first on ties,
/// and only one that is longer than a single cell.
pub open spec fn split_choice(p: ChunkNodePos) -> Option<SplitDir> {
    let sx = p.x1 - p.x0;
    let sy = p.y1 - p.y0;
    let sz = p.z1 - p.z0;
    if sz >= sx && sz >= sy && sz > 1 {
        Some(SplitDir::TopBottom)
    } else if sy >= sx && sy > 1 {
        Some(SplitDir::FrontBack)
    } else if sx > 1 {
        Some(SplitDir::LeftRight)
    } else {
        None
    }
}

/// The coordinate at which a box is cut along `d`: the midpoint, rounded down.
pub open spec fn split_mid(p: ChunkNodePos, d: SplitDir) -> int {
    match d {
        SplitDir::LeftRight => p.x0 + (p.x1 - p.x0) / 2,
        SplitDir::FrontBack => p.y0 + (p.y1 - p.y0) / 2,
        SplitDir::TopBottom => p.z0 + (p.z1 - p.z0) / 2,
    }
}

/// The coordinate of a cell along `d`.
pub open spec fn coord_along(d: SplitDir, x: int, y: int, z: int) -> int {
    match d {
        SplitDir::LeftRight => x,
        SplitDir::FrontBack => y,
        SplitDir::TopBottom => z,
    }
}

/// The part of `p` below the cut along `d`.
pub open spec fn lower_half(p: ChunkNodePos, d: SplitDir) -> ChunkNodePos {
    let m = split_mid(p, d) as usize;
    match d {
        SplitDir::LeftRight => ChunkNodePos { x1: m, ..p },
        SplitDir::FrontBack => ChunkNodePos { y1: m, ..p },
        SplitDir::TopBottom => ChunkNodePos { z1: m, ..p },
    }
}

/// The part of `p` at or above the cut along `d`.
pub open spec fn upper_half(p: ChunkNodePos, d: SplitDir) -> ChunkNodePos {
    let m = split_mid(p, d) as usize;
    match d {
        SplitDir::LeftRight => ChunkNodePos { x0: m, ..p },
        SplitDir::FrontBack => ChunkNodePos { y0: m, ..p },
        SplitDir::TopBottom => ChunkNodePos { z0: m, ..p },
    }
}

/// Whether every cell of `p` holds the same value as its origin cell.
pub open spec fn uniform_in(g: Seq<Option<BlockType>>, p: ChunkNodePos) -> bool {
    forall|x: int, y: int, z: int|
        #[trigger] p.contains(x, y, z) ==> grid_cell(g, x, y, z) == grid_cell(
            g,
            p.x0 as int,
            p.y0 as int,
            p.z0 as int,
        )
}

/// Node of the compression tree of a chunk: a uniform box, or a box cut in two.
pub enum ChunkNode {
    Leaf(Option<BlockType>, ChunkNodePos),
    Inner(Box<ChunkNode>, Box<ChunkNode>, SplitDir, ChunkNodePos),
}

/// Two leaves with equal values collapse into one leaf over `p`; anything else
/// becomes an inner node.
pub open spec fn merged(a: ChunkNode, b: ChunkNode, d: SplitDir, p: ChunkNodePos) -> ChunkNode {
    match a {
        ChunkNode::Leaf(va, _) => match b {
            ChunkNode::Leaf(vb, _) => if va == vb {
                ChunkNode::Leaf(va, p)
            } else {
                ChunkNode::Inner(Box::new(a), Box::new(b), d, p)
            },
            _ => ChunkNode::Inner(Box::new(a), Box::new(b), d, p),
        },
        _ => ChunkNode::Inner(Box::new(a), Box::new(b), d, p),
    }
}

/// The compression tree of the cells of `g` inside box `p`.
pub open spec fn build_tree(g: Seq<Option<BlockType>>, p: ChunkNodePos) -> ChunkNode
    decreases p.extent(),
{
    if !p.valid() || uniform_in(g, p) {
        ChunkNode::Leaf(grid_cell(g, p.x0 as int, p.y0 as int, p.z0 as int), p)
    } else {
        match split_choice(p) {
            None => ChunkNode::Leaf(grid_cell(g, p.x0 as int, p.y0 as int, p.z0 as int), p),
            Some(d) => merged(
                build_tree(g, lower_half(p, d)),
                build_tree(g, upper_half(p, d)),
                d,
                p,
            ),
        }
    }
}

impl ChunkNode {
    pub open spec fn pos(&self) -> ChunkNodePos {
        match self {
            ChunkNode::Leaf(_, p) => *p,
            ChunkNode::Inner(_, _, _, p) => *p,
        }
    }

    /// Every box is valid, and the children of an inner node are the two halves
    /// of its box along its split axis.
    pub open spec fn wf(&self) -> bool
        decreases self,
    {
        match self {
            ChunkNode::Leaf(_, p) => p.valid(),
            ChunkNode::Inner(a, b, d, p) => {
                &&& p.valid()
                &&& split_mid(*p, *d) > coord_along(*d, p.x0 as int, p.y0 as int, p.z0 as int)
                &&& a.pos() == lower_half(*p, *d)
                &&& b.pos() == upper_half(*p, *d)
                &&& a.wf()
                &&& b.wf()
            },
        }
    }

    /// The value the tree gives to cell `(x, y, z)`, found by descending along
    /// the split axes.
    pub open spec fn value_at(&self, x: int, y: int, z: int) -> Option<BlockType>
        decreases self,
    {
        match self {
            ChunkNode::Leaf(v, _) => *v,
            ChunkNode::Inner(a, b, d, p) => if coord_along(*d, x, y, z) < split_mid(*p, *d) {
                a.value_at(x, y, z)
            } else {
                b.value_at(x, y, z)
            },
        }
    }

    pub open spec fn leaves(&self) -> nat
        decreases self,
    {
        match self {
            ChunkNode::Leaf(..) => 1,
            ChunkNode::Inner(a, b, _, _) => a.leaves() + b.leaves(),
        }
    }

    /// Whether some air leaf of the tree meets `region`, skipping inner boxes that
    /// do not meet it.
    pub open spec fn any_empty(&self, region: ChunkNodePos) -> bool
        decreases self,
    {
        match self {
            ChunkNode::Leaf(v, p) => boxes_intersect(*p, region) && v is None,
            ChunkNode::Inner(a, b, _, p) => boxes_intersect(*p, region) && (a.any_empty(region)
                || b.any_empty(region)),
        }
    }

    /// Builds the compression tree of the cells of `blocks` inside `pos`.
    pub fn from_region(blocks: &Blocks, pos: ChunkNodePos) -> (r: ChunkNode)
        requires
            blocks@.len() == CHUNK_VOLUME,
            pos.valid(),
        ensures
            r == build_tree(blocks@, pos),
        decreases pos.extent(),
    {
        if let Some(u) = uniform(blocks, &pos) {
            return ChunkNode::Leaf(u, pos);
        }
        let (sx, sy, sz) = pos.size();
        if sz >= sx && sz >= sy && sz > 1 {
            let mid = pos.z0 + sz / 2;
            let a = ChunkNode::from_region(blocks, ChunkNodePos { z1: mid, ..pos });
            let b = ChunkNode::from_region(blocks, ChunkNodePos { z0: mid, ..pos });
            merge_if_same(Box::new(a), Box::new(b), SplitDir::TopBottom, pos)
        } else if sy >= sx && sy > 1 {
            let mid = pos.y0 + sy / 2;
            let a = ChunkNode::from_region(blocks, ChunkNodePos { y1: mid, ..pos });
            let b = ChunkNode::from_region(blocks, ChunkNodePos { y0: mid, ..pos });
            merge_if_same(Box::new(a), Box::new(b), SplitDir::FrontBack, pos)
        } else if sx > 1 {
            let mid = pos.x0 + sx / 2;
            let a = ChunkNode::from_region(blocks, ChunkNodePos { x1: mid, ..pos });
            let b = ChunkNode::from_region(blocks, ChunkNodePos { x0: mid, ..pos });
            merge_if_same(Box::new(a), Box::new(b), SplitDir::LeftRight, pos)
        } else {
            ChunkNode::Leaf(blocks[block_index(pos.x0, pos.y0, pos.z0)], pos)
        }
    }

    pub fn count_leaves(&self) -> (r: u32)
        requires
            self.wf(),
        ensures
            r == self.leaves(),
        decreases self,
    {
        proof {
            lemma_leaves_bound(*self);
            lemma_volume_bounds(self.pos());
        }
        match self {
            ChunkNode::Leaf(..) => 1,
            ChunkNode::Inner(a, b, ..) => {
                proof {
                    lemma_leaves_bound(**a);
                    lemma_leaves_bound(**b);
                }
                a.count_leaves() + b.count_leaves()
            },
        }
    }

    /// Whether some air cell of this node's box lies in `region`; boxes that miss
    /// the region are skipped whole.
    pub fn any_empty_in_region(&self, region: &ChunkNodePos) -> (r: bool)
        ensures
            r == self.any_empty(*region),
            self.wf() ==> (r <==> exists|x: int, y: int, z: int|
                self.pos().contains(x, y, z) && region.contains(x, y, z) && #[trigger] self.value_at(x, y, z)
                    is None),
        decreases self,
    {
        proof {
            if self.wf() {
                lemma_any_empty(*self, *region);
            }
        }
        match self {
            ChunkNode::Leaf(val, pos) => intersects(pos, region) && val.is_none(),
            ChunkNode::Inner(a, b, _, pos) => intersects(pos, region) && (a.any_empty_in_region(region)
                || b.any_empty_in_region(region)),
        }
    }

    /// Looks up cell `(x, y, z)` by descending from this node.
    pub fn get_at(&self, x: usize, y: usize, z: usize) -> (r: Option<BlockType>)
        requires
            self.wf(),
        ensures
            r == self.value_at(x as int, y as int, z as int),
        decreases self,
    {
        match self {
            ChunkNode::Leaf(v, _) => *v,
            ChunkNode::Inner(a, b, dir, pos) => match dir {
                SplitDir::LeftRight => {
                    let midx = pos.x0 + pos.size_x() / 2;
                    if x < midx {
                        a.get_at(x, y, z)
                    } else {
                        b.get_at(x, y, z)
                    }
                },
                SplitDir::FrontBack => {
                    let midy = pos.y0 + pos.size_y() / 2;
                    if y < midy {
                        a.get_at(x, y, z)
                    } else {
                        b.get_at(x, y, z)
                    }
                },
                SplitDir::TopBottom => {
                    let midz = pos.z0 + pos.size_z() / 2;
                    if z < midz {
                        a.get_at(x, y, z)
                    } else {
                        b.get_at(x, y, z)
                    }
                },
            },
        }
    }
}

pub open spec fn box_nonempty(a: ChunkNodePos) -> bool {
    a.x0 < a.x1 && a.y0 < a.y1 && a.z0 < a.z1
}

/// Two boxes share at least one cell: both hold a cell and they overlap on
/// every axis.
pub open spec fn boxes_intersect(a: ChunkNodePos, b: ChunkNodePos) -> bool {
    &&& box_nonempty(a)
    &&& box_nonempty(b)
    &&& a.x0 < b.x1 && a.x1 > b.x0 && a.y0 < b.y1 && a.y1 > b.y0 && a.z0 < b.z1 && a.z1 > b.z0
}

/// Whether two boxes share at least one cell.
pub fn intersects(a: &ChunkNodePos, b: &ChunkNodePos) -> (r: bool)
    ensures
        r == boxes_intersect(*a, *b),
{
    a.x0 < a.x1 && a.y0 < a.y1 && a.z0 < a.z1 && b.x0 < b.x1 && b.y0 < b.y1 && b.z0 < b.z1
        && a.x0 < b.x1 && a.x1 > b.x0 && a.y0 < b.y1 && a.y1 > b.y0 && a.z0 < b.z1 && a.z1 > b.z0
}

fn same_block(a: Option<BlockType>, b: Option<BlockType>) -> (r: bool)
    ensures
        r == (a == b),
{
    match (a, b) {
        (None, None) => true,
        (Some(x), Some(y)) => x == y,
        _ => false,
    }
}

/// The common value of the cells of `pos`, if they all hold the same one.
pub fn uniform(blocks: &Blocks, pos: &ChunkNodePos) -> (r: Option<Option<BlockType>>)
    requires
        blocks@.len() == CHUNK_VOLUME,
        pos.valid(),
    ensures
        r is Some <==> uniform_in(blocks@, *pos),
        r is Some ==> r->Some_0 == grid_cell(blocks@, pos.x0 as int, pos.y0 as int, pos.z0 as int),
{
    let first = blocks[block_index(pos.x0, pos.y0, pos.z0)];
    let mut x = pos.x0;
    while x < pos.x1
        invariant
            blocks@.len() == CHUNK_VOLUME,
            pos.valid(),
            pos.x0 <= x <= pos.x1,
            first == grid_cell(blocks@, pos.x0 as int, pos.y0 as int, pos.z0 as int),
            forall|a: int, b: int, c: int|
                pos.x0 <= a < x && pos.y0 <= b < pos.y1 && pos.z0 <= c < pos.z1
                    ==> #[trigger] grid_cell(blocks@, a, b, c) == first,
        decreases pos.x1 - x,
    {
        let mut y = pos.y0;
        while y < pos.y1
            invariant
                blocks@.len() == CHUNK_VOLUME,
                pos.valid(),
                pos.x0 <= x < pos.x1,
                pos.y0 <= y <= pos.y1,
                first == grid_cell(blocks@, pos.x0 as int, pos.y0 as int, pos.z0 as int),
                forall|a: int, b: int, c: int|
                    pos.x0 <= a < x && pos.y0 <= b < pos.y1 && pos.z0 <= c < pos.z1
                        ==> #[trigger] grid_cell(blocks@, a, b, c) == first,
                forall|b: int, c: int|
                    pos.y0 <= b < y && pos.z0 <= c < pos.z1
                        ==> #[trigger] grid_cell(blocks@, x as int, b, c) == first,
            decreases pos.y1 - y,
        {
            let mut z = pos.z0;
            while z < pos.z1
                invariant
                    blocks@.len() == CHUNK_VOLUME,
                    pos.valid(),
                    pos.x0 <= x < pos.x1,
                    pos.y0 <= y < pos.y1,
                    pos.z0 <= z <= pos.z1,
                    first == grid_cell(blocks@, pos.x0 as int, pos.y0 as int, pos.z0 as int),
                    forall|a: int, b: int, c: int|
                        pos.x0 <= a < x && pos.y0 <= b < pos.y1 && pos.z0 <= c < pos.z1
                            ==> #[trigger] grid_cell(blocks@, a, b, c) == first,
                    forall|b: int, c: int|
                        pos.y0 <= b < y && pos.z0 <= c < pos.z1
                            ==> #[trigger] grid_cell(blocks@, x as int, b, c) == first,
                    forall|c: int|
                        pos.z0 <= c < z ==> #[trigger] grid_cell(blocks@, x as int, y as int, c)
                            == first,
                decreases pos.z1 - z,
            {
                if !same_block(blocks[block_index(x, y, z)], first) {
                    proof {
                        assert(pos.contains(x as int, y as int, z as int));
                    }
                    return None;
                }
                z += 1;
            }
            y += 1;
        }
        x += 1;
    }
    assert forall|a: int, b: int, c: int| #[trigger] pos.contains(a, b, c) implies grid_cell(
        blocks@,
        a,
        b,
        c,
    ) == grid_cell(blocks@, pos.x0 as int, pos.y0 as int, pos.z0 as int) by {
        assert(grid_cell(blocks@, a, b, c) == first);
    }
    Some(first)
}

/// Joins two freshly built halves of `pos`, collapsing them into one leaf when
/// both are leaves of the same value.
pub fn merge_if_same(a: Box<ChunkNode>, b: Box<ChunkNode>, dir: SplitDir, pos: ChunkNodePos) -> (r:
    ChunkNode)
    ensures
        r == merged(*a, *b, dir, pos),
{
    if let ChunkNode::Leaf(va, _) = &*a {
        if let ChunkNode::Leaf(vb, _) = &*b {
            if same_block(*va, *vb) {
                return ChunkNode::Leaf(*va, pos);
            }
        }
    }
    ChunkNode::Inner(a, b, dir, pos)
}

pub proof fn lemma_volume_bounds(p: ChunkNodePos)
    requires
        p.valid(),
    ensures
        1 <= p.volume() <= 65536,
{
    let sx = p.x1 - p.x0;
    let sy = p.y1 - p.y0;
    let sz = p.z1 - p.z0;
    assert(1 <= sx * sy * sz <= 65536) by (nonlinear_arith)
        requires
            1 <= sx <= 16,
            1 <= sy <= 16,
            1 <= sz <= 256,
    ;
}

/// Cutting a box in two along its split axis splits its volume in two.
pub proof fn lemma_split_volume(p: ChunkNodePos, d: SplitDir)
    requires
        p.valid(),
        split_mid(p, d) > coord_along(d, p.x0 as int, p.y0 as int, p.z0 as int),
    ensures
        lower_half(p, d).volume() + upper_half(p, d).volume() == p.volume(),
{
    let sx = p.x1 - p.x0;
    let sy = p.y1 - p.y0;
    let sz = p.z1 - p.z0;
    let m = split_mid(p, d);
    match d {
        SplitDir::LeftRight => {
            assert((m - p.x0) * sy * sz + (p.x1 - m) * sy * sz == sx * sy * sz) by (nonlinear_arith)
                requires
                    sx == p.x1 - p.x0,
            ;
        },
        SplitDir::FrontBack => {
            assert(sx * (m - p.y0) * sz + sx * (p.y1 - m) * sz == sx * sy * sz) by (nonlinear_arith)
                requires
                    sy == p.y1 - p.y0,
            ;
        },
        SplitDir::TopBottom => {
            assert(sx * sy * (m - p.z0) + sx * sy * (p.z1 - m) == sx * sy * sz) by (nonlinear_arith)
                requires
                    sz == p.z1 - p.z0,
            ;
        },
    }
}

/// A tree never has more leaves than its box has cells.
pub proof fn lemma_leaves_bound(n: ChunkNode)
    requires
        n.wf(),
    ensures
        n.leaves() <= n.pos().volume(),
    decreases n,
{
    lemma_volume_bounds(n.pos());
    if let ChunkNode::Inner(a, b, d, p) = n {
        lemma_leaves_bound(*a);
        lemma_leaves_bound(*b);
        lemma_split_volume(p, d);
    }
}

/// The tree built over a box is well formed, covers that box, and gives every cell
/// of it the value the grid holds there.
pub proof fn lemma_build_tree(g: Seq<Option<BlockType>>, p: ChunkNodePos)
    requires
        g.len() == 65536,
        p.valid(),
    ensures
        build_tree(g, p).wf(),
        build_tree(g, p).pos() == p,
        forall|x: int, y: int, z: int|
            p.contains(x, y, z) ==> #[trigger] build_tree(g, p).value_at(x, y, z) == grid_cell(
                g,
                x,
                y,
                z,
            ),
    decreases p.extent(),
{
    if uniform_in(g, p) {
        assert forall|x: int, y: int, z: int| p.contains(x, y, z) implies #[trigger] build_tree(
            g,
            p,
        ).value_at(x, y, z) == grid_cell(g, x, y, z) by {}
    } else {
        match split_choice(p) {
            None => {
                assert forall|x: int, y: int, z: int| #[trigger] p.contains(x, y, z) implies grid_cell(
                    g,
                    x,
                    y,
                    z,
                ) == grid_cell(g, p.x0 as int, p.y0 as int, p.z0 as int) by {
                    assert(x == p.x0 && y == p.y0 && z == p.z0);
                }
            },
            Some(d) => {
                let lo = lower_half(p, d);
                let hi = upper_half(p, d);
                lemma_build_tree(g, lo);
                lemma_build_tree(g, hi);
                assert forall|x: int, y: int, z: int| p.contains(x, y, z) implies #[trigger] build_tree(
                    g,
                    p,
                ).value_at(x, y, z) == grid_cell(g, x, y, z) by {
                    if coord_along(d, x, y, z) < split_mid(p, d) {
                        assert(lo.contains(x, y, z));
                        assert(build_tree(g, lo).value_at(x, y, z) == grid_cell(g, x, y, z));
                    } else {
                        assert(hi.contains(x, y, z));
                        assert(build_tree(g, hi).value_at(x, y, z) == grid_cell(g, x, y, z));
                    }
                }
            },
        }
    }
}

/// In a well-formed tree, some air leaf meets `region` exactly when some cell of
/// the tree's box that lies in `region` is air.
pub proof fn lemma_any_empty(n: ChunkNode, region: ChunkNodePos)
    requires
        n.wf(),
    ensures
        n.any_empty(region) <==> exists|x: int, y: int, z: int|
            n.pos().contains(x, y, z) && region.contains(x, y, z) && #[trigger] n.value_at(x, y, z)
                is None,
    decreases n,
{
    match n {
        ChunkNode::Leaf(v, p) => {
            if n.any_empty(region) {
                let wx = if p.x0 >= region.x0 { p.x0 as int } else { region.x0 as int };
                let wy = if p.y0 >= region.y0 { p.y0 as int } else { region.y0 as int };
                let wz = if p.z0 >= region.z0 { p.z0 as int } else { region.z0 as int };
                assert(p.contains(wx, wy, wz) && region.contains(wx, wy, wz) && n.value_at(wx, wy, wz) is None);
            }
        },
        ChunkNode::Inner(a, b, d, p) => {
            lemma_any_empty(*a, region);
            lemma_any_empty(*b, region);
            if a.any_empty(region) {
                let (x, y, z) = choose|x: int, y: int, z: int|
                    a.pos().contains(x, y, z) && region.contains(x, y, z) && #[trigger] a.value_at(x, y, z) is None;
                assert(n.value_at(x, y, z) is None);
            }
            if b.any_empty(region) {
                let (x, y, z) = choose|x: int, y: int, z: int|
                    b.pos().contains(x, y, z) && region.contains(x, y, z) && #[trigger] b.value_at(x, y, z) is None;
                assert(n.value_at(x, y, z) is None);
            }
            if exists|x: int, y: int, z: int|
                n.pos().contains(x, y, z) && region.contains(x, y, z) && #[trigger] n.value_at(x, y, z) is None {
                let (x, y, z) = choose|x: int, y: int, z: int|
                    n.pos().contains(x, y, z) && region.contains(x, y, z) && #[trigger] n.value_at(x, y, z) is None;
                if coord_along(d, x, y, z) < split_mid(p, d) {
                    assert(a.pos().contains(x, y, z));
                    assert(a.value_at(x, y, z) is None);
                } else {
                    assert(b.pos().contains(x, y, z));
                    assert(b.value_at(x, y, z) is None);
                }
            }
        },
    }
}

} // verus!

verus! {

/// Compression is lossless: the tree built from a grid gives every cell of the
/// chunk the value the grid holds there.
pub proof fn lemma_compression_faithful(g: Seq<Option<BlockType>>)
    requires
        g.len() == CHUNK_VOLUME,
    ensures
        build_tree(g, full_box()).wf(),
        forall|x: int, y: int, z: int|
            in_chunk(x, y, z) ==> #[trigger] build_tree(g, full_box()).value_at(x, y, z) == grid_cell(g, x, y, z),
{
    lemma_build_tree(g, full_box());
    assert forall|x: int, y: int, z: int| in_chunk(x, y, z) implies #[trigger] build_tree(
        g,
        full_box(),
    ).value_at(x, y, z) == grid_cell(g, x, y, z) by {
        assert(full_box().contains(x, y, z));
    }
}

/// Every leaf of `node` holds the value that the grid has in each cell of its box.
pub open spec fn leaves_hold(node: ChunkNode, g: Seq<Option<BlockType>>) -> bool
    decreases node,
{
    match node {
        ChunkNode::Leaf(v, p) => forall|x: int, y: int, z: int|
            p.contains(x, y, z) ==> #[trigger] grid_cell(g, x, y, z) == v,
        ChunkNode::Inner(a, b, _, _) => leaves_hold(*a, g) && leaves_hold(*b, g),
    }
}

/// A leaf of a built tree is uniform: every cell of its box holds the leaf's value.
pub proof fn lemma_build_leaves_hold(g: Seq<Option<BlockType>>, p: ChunkNodePos)
    requires
        g.len() == 65536,
        p.valid(),
    ensures
        leaves_hold(build_tree(g, p), g),
    decreases p.extent(),
{
    if uniform_in(g, p) {
    } else {
        match split_choice(p) {
            None => {
                assert forall|x: int, y: int, z: int| p.contains(x, y, z) implies #[trigger] grid_cell(
                    g,
                    x,
                    y,
                    z,
                ) == grid_cell(g, p.x0 as int, p.y0 as int, p.z0 as int) by {
                    assert(x == p.x0 && y == p.y0 && z == p.z0);
                }
            },
            Some(d) => {
                let lo = lower_half(p, d);
                let hi = upper_half(p, d);
                lemma_build_leaves_hold(g, lo);
                lemma_build_leaves_hold(g, hi);
                lemma_build_tree(g, lo);
                lemma_build_tree(g, hi);
                let t = build_tree(g, p);
                if let ChunkNode::Leaf(v, q) = t {
                    assert forall|x: int, y: int, z: int| p.contains(x, y, z) implies #[trigger] grid_cell(
                        g,
                        x,
                        y,
                        z,
                    ) == v by {
                        if coord_along(d, x, y, z) < split_mid(p, d) {
                            assert(lo.contains(x, y, z));
                        } else {
                            assert(hi.contains(x, y, z));
                        }
                    }
                }
            },
        }
    }
}

/// A grid holding one value everywhere, air included, compresses to a single leaf.
pub proof fn lemma_uniform_grid_single_leaf(g: Seq<Option<BlockType>>, v: Option<BlockType>)
    requires
        g.len() == CHUNK_VOLUME,
        forall|i: int| 0 <= i < g.len() ==> g[i] == v,
    ensures
        build_tree(g, full_box()) == ChunkNode::Leaf(v, full_box()),
        build_tree(g, full_box()).leaves() == 1,
{
    let p = full_box();
    assert forall|x: int, y: int, z: int| #[trigger] p.contains(x, y, z) implies grid_cell(g, x, y, z)
        == grid_cell(g, p.x0 as int, p.y0 as int, p.z0 as int) by {
        lemma_cell_index_bounds(x, y, z);
        lemma_cell_index_bounds(0, 0, 0);
    }
    lemma_cell_index_bounds(0, 0, 0);
}

} // verus!

verus! {

/// A chunk: its column position and the compression tree of its 16×16×256 cells.
pub struct Chunk {
    pub coords: ChunkCoords,
    pub root: ChunkNode,
}

impl Chunk {
    /// The tree is well formed and covers the whole chunk.
    pub open spec fn wf(&self) -> bool {
        self.root.wf() && self.root.pos() == full_box()
    }

    /// What the chunk holds at local cell `(x, y, z)`.
    pub open spec fn block_at(&self, x: int, y: int, z: int) -> Option<BlockType> {
        self.root.value_at(x, y, z)
    }

    /// Compresses a full block grid into a chunk at `coords`.
    pub fn new(coords: ChunkCoords, blocks: Blocks) -> (r: Self)
        requires
            blocks@.len() == CHUNK_VOLUME,
        ensures
            r.wf(),
            r.coords == coords,
            r.root == build_tree(blocks@, full_box()),
            forall|x: int, y: int, z: int|
                in_chunk(x, y, z) ==> #[trigger] r.block_at(x, y, z) == grid_cell(blocks@, x, y, z),
    {
        let root = ChunkNode::from_region(
            &blocks,
            ChunkNodePos::new(0, CHUNK_WIDTH, 0, CHUNK_WIDTH, 0, CHUNK_HEIGHT),
        );
        proof {
            lemma_build_tree(blocks@, full_box());
            assert forall|x: int, y: int, z: int| in_chunk(x, y, z) implies #[trigger] root.value_at(
                x,
                y,
                z,
            ) == grid_cell(blocks@, x, y, z) by {
                assert(full_box().contains(x, y, z));
            }
        }
        Chunk { coords, root }
    }

    pub fn coords(&self) -> (r: ChunkCoords)
        ensures
            r == self.coords,
    {
        self.coords
    }

    pub fn get_block(&self, x: usize, y: usize, z: usize) -> (r: Option<BlockType>)
        requires
            self.wf(),
            x < CHUNK_WIDTH,
            y < CHUNK_WIDTH,
            z < CHUNK_HEIGHT,
        ensures
            r == self.block_at(x as int, y as int, z as int),
    {
        self.root.get_at(x, y, z)
    }

    /// Number of leaves of the compression tree.
    pub fn leaf_count(&self) -> (r: u32)
        requires
            self.wf(),
        ensures
            r == self.root.leaves(),
    {
        self.root.count_leaves()
    }

    /// The chunk's cells as a flattened grid.
    pub fn to_blocks(&self) -> (r: Blocks)
        requires
            self.wf(),
        ensures
            r@.len() == CHUNK_VOLUME,
            forall|x: int, y: int, z: int|
                in_chunk(x, y, z) ==> #[trigger] grid_cell(r@, x, y, z) == self.block_at(x, y, z),
    {
        let mut v: Blocks = Vec::new();
        let mut x: usize = 0;
        while x < CHUNK_WIDTH
            invariant
                self.wf(),
                x <= CHUNK_WIDTH,
                v@.len() == cell_index(x as int, 0, 0),
                forall|a: int, b: int, c: int|
                    in_chunk(a, b, c) && cell_index(a, b, c) < v@.len() ==> #[trigger] grid_cell(
                        v@,
                        a,
                        b,
                        c,
                    ) == self.block_at(a, b, c),
            decreases CHUNK_WIDTH - x,
        {
            let mut y: usize = 0;
            while y < CHUNK_WIDTH
                invariant
                    self.wf(),
                    x < CHUNK_WIDTH,
                    y <= CHUNK_WIDTH,
                    v@.len() == cell_index(x as int, y as int, 0),
                    forall|a: int, b: int, c: int|
                        in_chunk(a, b, c) && cell_index(a, b, c) < v@.len() ==> #[trigger] grid_cell(
                            v@,
                            a,
                            b,
                            c,
                        ) == self.block_at(a, b, c),
                decreases CHUNK_WIDTH - y,
            {
                let mut z: usize = 0;
                while z < CHUNK_HEIGHT
                    invariant
                        self.wf(),
                        x < CHUNK_WIDTH,
                        y < CHUNK_WIDTH,
                        z <= CHUNK_HEIGHT,
                        v@.len() == cell_index(x as int, y as int, z as int),
                        forall|a: int, b: int, c: int|
                            in_chunk(a, b, c) && cell_index(a, b, c) < v@.len()
                                ==> #[trigger] grid_cell(v@, a, b, c) == self.block_at(a, b, c),
                    decreases CHUNK_HEIGHT - z,
                {
                    let cell = self.get_block(x, y, z);
                    let ghost old_v = v@;
                    v.push(cell);
                    proof {
                        assert forall|a: int, b: int, c: int|
                            in_chunk(a, b, c) && cell_index(a, b, c) < v@.len() implies #[trigger] grid_cell(
                                v@,
                                a,
                                b,
                                c,
                            ) == self.block_at(a, b, c) by {
                            if cell_index(a, b, c) == old_v.len() {
                                lemma_cell_index_unique(a, b, c, x as int, y as int, z as int);
                            } else {
                                assert(grid_cell(old_v, a, b, c) == self.block_at(a, b, c));
                            }
                        }
                    }
                    z += 1;
                }
                y += 1;
            }
            x += 1;
        }
        v
    }

    /// Turns local cell `(x, y, z)` into air, rebuilding the tree.
    pub fn delete_block(&mut self, x: usize, y: usize, z: usize)
        requires
            old(self).wf(),
            x < CHUNK_WIDTH,
            y < CHUNK_WIDTH,
            z < CHUNK_HEIGHT,
        ensures
            final(self).wf(),
            final(self).coords == old(self).coords,
            forall|a: int, b: int, c: int|
                in_chunk(a, b, c) ==> #[trigger] final(self).block_at(a, b, c) == if a == x && b
                    == y && c == z {
                    None
                } else {
                    old(self).block_at(a, b, c)
                },
    {
        let mut blocks = self.to_blocks();
        let i = block_index(x, y, z);
        let ghost before = blocks@;
        blocks.set(i, None);
        let ghost g = blocks@;
        let rebuilt = Chunk::new(self.coords, blocks);
        proof {
            assert forall|a: int, b: int, c: int| in_chunk(a, b, c) implies #[trigger] rebuilt.block_at(
                a,
                b,
                c,
            ) == if a == x && b == y && c == z {
                None
            } else {
                self.block_at(a, b, c)
            } by {
                lemma_cell_index_bounds(a, b, c);
                if !(a == x && b == y && c == z) {
                    if cell_index(a, b, c) == i {
                        lemma_cell_index_unique(a, b, c, x as int, y as int, z as int);
                    }
                    assert(grid_cell(before, a, b, c) == self.block_at(a, b, c));
                    assert(grid_cell(g, a, b, c) == grid_cell(before, a, b, c));
                }
                assert(rebuilt.block_at(a, b, c) == grid_cell(g, a, b, c));
            }
        }
        *self = rebuilt;
    }
}

} // verus!
