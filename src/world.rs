use vstd::prelude::*;

use crate::block::BlockType;
use crate::chunk::{
    block_index, cell_index, grid_cell, in_chunk, lemma_cell_index_unique, Blocks, Chunk,
    ChunkCoords, CHUNK_HEIGHT, CHUNK_VOLUME, CHUNK_WIDTH,
};
use crate::coords::{split_coords, split_spec, BlockCoords, WorldCoords};
use crate::mesh::{is_chunk_mesh, AdjacentChunks, MeshVertex};

verus! {

/// The loaded chunks, and every block the player has removed. Removals are kept
/// per chunk position and outlive the chunk: they are applied again whenever the
/// chunk is loaded.
pub struct World {
    chunks: Vec<Chunk>,
    deleted_blocks: Vec<(ChunkCoords, BlockCoords)>,
}

/// What a world holds: its loaded chunks, and its removals in the order they were
/// recorded.
pub struct WorldView {
    pub chunks: Seq<Chunk>,
    pub deleted: Seq<(ChunkCoords, BlockCoords)>,
}

impl View for World {
    type V = WorldView;

    closed spec fn view(&self) -> WorldView {
        WorldView { chunks: self.chunks@, deleted: self.deleted_blocks@ }
    }
}

/// Whether one of the first `n` removals is cell `b` of chunk `c`.
pub open spec fn deleted_in(ds: Seq<(ChunkCoords, BlockCoords)>, n: int, c: ChunkCoords, b: BlockCoords) -> bool {
    exists|k: int| 0 <= k < n && #[trigger] ds[k] == (c, b)
}

/// What a ray finds on entering a cell: the world's vertical bounds, air (or a
/// chunk that is not loaded), or a block.
#[derive(Debug, Clone, Copy, PartialEq, Eq, Structural)]
pub enum RayProbe {
    OutOfWorld,
    Empty,
    Hit(BlockType),
}

/// The position next to `c` by `(dx, dy)` chunks, when it fits in `i32`.
pub open spec fn offset(c: ChunkCoords, dx: int, dy: int) -> Option<ChunkCoords> {
    let x = c.0 + dx;
    let y = c.1 + dy;
    if i32::MIN <= x <= i32::MAX && i32::MIN <= y <= i32::MAX {
        Some((x as i32, y as i32))
    } else {
        None
    }
}

/// What `load_chunk(c, blocks)` does to a world `o`, giving `n`.
pub open spec fn loaded_from(o: World, n: World, c: ChunkCoords, blocks: Seq<Option<BlockType>>) -> bool {
    &&& o.loaded(c) ==> n == o
    &&& !o.loaded(c) ==> n.holds_generated(c, blocks)
    &&& n.same_chunks_except(o, c)
    &&& n@.deleted == o@.deleted
}

/// What `retain_chunks(keep)` does to a world `o`, giving `n`.
pub open spec fn retained(o: World, n: World, keep: Seq<ChunkCoords>) -> bool {
    &&& forall|c: ChunkCoords| #[trigger] n.loaded(c) == (o.loaded(c) && keep.contains(c))
    &&& forall|c: ChunkCoords| #[trigger] n.loaded(c) ==> n.chunk_of(c) == o.chunk_of(c)
    &&& n@.deleted == o@.deleted
}

/// What `delete_block(w)` does to a world `o`, giving `n`.
pub open spec fn deleted_from(o: World, n: World, w: WorldCoords) -> bool {
    match split_spec(w) {
        None => n == o,
        Some((c, b)) => if !o.loaded(c) {
            n == o
        } else {
            &&& n.loaded(c)
            &&& n.same_chunks_except(o, c)
            &&& forall|x: usize, y: usize, z: usize|
                x < 16 && y < 16 && z < 256 ==> #[trigger] n.chunk_of(c).block_at(
                    x as int,
                    y as int,
                    z as int,
                ) == if (x, y, z) == b {
                    None
                } else {
                    o.chunk_of(c).block_at(x as int, y as int, z as int)
                }
            &&& forall|d: ChunkCoords, e: BlockCoords|
                #[trigger] n.is_deleted(d, e) == (o.is_deleted(d, e) || (d, e) == (c, b))
        },
    }
}

impl World {
    /// Loaded chunks are well formed and at distinct positions; removals name
    /// cells inside a chunk.
    pub open spec fn wf(&self) -> bool {
        &&& forall|i: int| 0 <= i < self@.chunks.len() ==> (#[trigger] self@.chunks[i]).wf()
        &&& forall|i: int, j: int|
            0 <= i < self@.chunks.len() && 0 <= j < self@.chunks.len() && i != j
                ==> #[trigger] self@.chunks[i].coords != #[trigger] self@.chunks[j].coords
        &&& forall|k: int|
            0 <= k < self@.deleted.len() ==> {
                let b = (#[trigger] self@.deleted[k]).1;
                b.0 < 16 && b.1 < 16 && b.2 < 256
            }
    }

    pub open spec fn loaded(&self, c: ChunkCoords) -> bool {
        exists|i: int| 0 <= i < self@.chunks.len() && (#[trigger] self@.chunks[i]).coords == c
    }

    /// The loaded chunk at `c` (meaningful when `loaded(c)`).
    pub open spec fn chunk_of(&self, c: ChunkCoords) -> Chunk {
        self@.chunks[choose|i: int| 0 <= i < self@.chunks.len() && (#[trigger] self@.chunks[i]).coords == c]
    }

    /// Whether cell `b` of chunk `c` has been removed by the player.
    pub open spec fn is_deleted(&self, c: ChunkCoords, b: BlockCoords) -> bool {
        deleted_in(self@.deleted, self@.deleted.len() as int, c, b)
    }

    /// The block at world position `w`: `None` for air, for a position outside the
    /// world's height, and inside a chunk that is not loaded.
    pub open spec fn block_at(&self, w: WorldCoords) -> Option<BlockType> {
        match split_spec(w) {
            None => None,
            Some((c, b)) => if self.loaded(c) {
                self.chunk_of(c).block_at(b.0 as int, b.1 as int, b.2 as int)
            } else {
                None
            },
        }
    }

    /// Chunk `c` is loaded and its cells are those of `blocks`, with every removal
    /// recorded for `c` turned into air.
    pub open spec fn holds_generated(&self, c: ChunkCoords, blocks: Seq<Option<BlockType>>) -> bool {
        &&& self.loaded(c)
        &&& forall|x: usize, y: usize, z: usize|
            x < 16 && y < 16 && z < 256 ==> #[trigger] self.chunk_of(c).block_at(x as int, y as int, z as int)
                == if self.is_deleted(c, (x, y, z)) {
                None
            } else {
                grid_cell(blocks, x as int, y as int, z as int)
            }
    }

    /// Every chunk other than `c` is loaded in `self` exactly when it is in `o`,
    /// with the same content.
    pub open spec fn same_chunks_except(&self, o: World, c: ChunkCoords) -> bool {
        forall|d: ChunkCoords|
            d != c ==> (#[trigger] self.loaded(d) == o.loaded(d)) && (self.loaded(d) ==> self.chunk_of(d)
                == o.chunk_of(d))
    }

    pub proof fn lemma_chunk_of(&self, i: int)
        requires
            self.wf(),
            0 <= i < self@.chunks.len(),
        ensures
            self.loaded(self@.chunks[i].coords),
            self.chunk_of(self@.chunks[i].coords) == self@.chunks[i],
    {
        let c = self@.chunks[i].coords;
        assert(self.loaded(c));
        let k = choose|k: int| 0 <= k < self@.chunks.len() && (#[trigger] self@.chunks[k]).coords == c;
        if k != i {
            assert(self@.chunks[k].coords != self@.chunks[i].coords);
        }
    }

    /// An empty world: nothing loaded, nothing removed.
    pub fn new() -> (r: World)
        ensures
            r.wf(),
            forall|c: ChunkCoords| !r.loaded(c),
            forall|c: ChunkCoords, b: BlockCoords| !r.is_deleted(c, b),
    {
        World { chunks: Vec::new(), deleted_blocks: Vec::new() }
    }

    /// The loaded chunks.
    pub fn chunks(&self) -> (r: &Vec<Chunk>)
        ensures
            r@ == self@.chunks,
    {
        &self.chunks
    }

    /// Every removal recorded so far, oldest first.
    pub fn deleted_blocks(&self) -> (r: &Vec<(ChunkCoords, BlockCoords)>)
        ensures
            r@ == self@.deleted,
    {
        &self.deleted_blocks
    }

    fn find_chunk(&self, c: ChunkCoords) -> (r: Option<usize>)
        requires
            self.wf(),
        ensures
            r is None ==> !self.loaded(c),
            r is Some ==> r->Some_0 < self@.chunks.len() && self@.chunks[r->Some_0 as int].coords == c
                && self.chunk_of(c) == self@.chunks[r->Some_0 as int],
    {
        let mut i: usize = 0;
        while i < self.chunks.len()
            invariant
                self.wf(),
                i <= self@.chunks.len(),
                forall|j: int| 0 <= j < i ==> (#[trigger] self@.chunks[j]).coords != c,
            decreases self@.chunks.len() - i,
        {
            let d = self.chunks[i].coords();
            if d.0 == c.0 && d.1 == c.1 {
                proof {
                    self.lemma_chunk_of(i as int);
                }
                return Some(i);
            }
            i += 1;
        }
        None
    }

    pub fn is_loaded(&self, c: ChunkCoords) -> (r: bool)
        requires
            self.wf(),
        ensures
            r == self.loaded(c),
    {
        self.find_chunk(c).is_some()
    }

    pub fn get_chunk_if_loaded(&self, c: ChunkCoords) -> (r: Option<&Chunk>)
        requires
            self.wf(),
        ensures
            r is Some <==> self.loaded(c),
            r is Some ==> *r->Some_0 == self.chunk_of(c) && r->Some_0.wf(),
    {
        match self.find_chunk(c) {
            None => None,
            Some(i) => Some(&self.chunks[i]),
        }
    }

    /// The block at world position `w`.
    pub fn get_block(&self, w: WorldCoords) -> (r: Option<BlockType>)
        requires
            self.wf(),
        ensures
            r == self.block_at(w),
    {
        let (c, b) = match split_coords(w) {
            None => return None,
            Some(p) => p,
        };
        match self.get_chunk_if_loaded(c) {
            None => None,
            Some(chunk) => chunk.get_block(b.0, b.1, b.2),
        }
    }

    /// Applies the recorded removals of chunk `c` to a freshly generated grid.
    fn apply_deletions(&self, c: ChunkCoords, blocks: &mut Blocks)
        requires
            self.wf(),
            old(blocks)@.len() == CHUNK_VOLUME,
        ensures
            final(blocks)@.len() == CHUNK_VOLUME,
            forall|x: usize, y: usize, z: usize|
                x < 16 && y < 16 && z < 256 ==> #[trigger] grid_cell(final(blocks)@, x as int, y as int, z as int)
                    == if self.is_deleted(c, (x, y, z)) {
                    None
                } else {
                    grid_cell(old(blocks)@, x as int, y as int, z as int)
                },
    {
        let ghost orig = blocks@;
        let mut j: usize = 0;
        while j < self.deleted_blocks.len()
            invariant
                self.wf(),
                j <= self@.deleted.len(),
                blocks@.len() == CHUNK_VOLUME,
                forall|x: usize, y: usize, z: usize|
                    x < 16 && y < 16 && z < 256 ==> #[trigger] grid_cell(blocks@, x as int, y as int, z as int)
                        == if deleted_in(self@.deleted, j as int, c, (x, y, z)) {
                        None
                    } else {
                        grid_cell(orig, x as int, y as int, z as int)
                    },
            decreases self@.deleted.len() - j,
        {
            let (d, b) = self.deleted_blocks[j];
            let ghost prev = blocks@;
            proof {
                assert(b.0 < 16 && b.1 < 16 && b.2 < 256 && self@.deleted[j as int] == (d, b));
            }
            let hit = d.0 == c.0 && d.1 == c.1;
            if hit {
                let i = block_index(b.0, b.1, b.2);
                blocks.set(i, None);
            }
            proof {
                assert forall|x: usize, y: usize, z: usize|
                    x < 16 && y < 16 && z < 256 implies #[trigger] grid_cell(blocks@, x as int, y as int, z as int)
                        == if deleted_in(self@.deleted, j + 1, c, (x, y, z)) {
                        None
                    } else {
                        grid_cell(orig, x as int, y as int, z as int)
                    } by {
                    let same = hit && x == b.0 && y == b.1 && z == b.2;
                    if same {
                        assert(self@.deleted[j as int] == (c, (x, y, z)));
                    } else {
                        if hit {
                            if cell_index(x as int, y as int, z as int) == cell_index(b.0 as int, b.1 as int, b.2 as int) {
                                lemma_cell_index_unique(x as int, y as int, z as int, b.0 as int, b.1 as int, b.2 as int);
                            }
                        }
                        assert(grid_cell(blocks@, x as int, y as int, z as int) == grid_cell(prev, x as int, y as int, z as int));
                        assert(self@.deleted[j as int] != (c, (x, y, z)));
                        if deleted_in(self@.deleted, j + 1, c, (x, y, z)) {
                            let k = choose|k: int| 0 <= k < j + 1 && #[trigger] self@.deleted[k] == (c, (x, y, z));
                            assert(k < j);
                            assert(deleted_in(self@.deleted, j as int, c, (x, y, z)));
                        }
                    }
                }
            }
            j += 1;
        }
    }

    /// Loads chunk `c` from a freshly generated grid, unless it is loaded already.
    /// Removals recorded for `c` are applied before the chunk is built.
    pub fn load_chunk(&mut self, c: ChunkCoords, blocks: Blocks)
        requires
            old(self).wf(),
            blocks@.len() == CHUNK_VOLUME,
        ensures
            final(self).wf(),
            loaded_from(*old(self), *final(self), c, blocks@),
    {
        if self.find_chunk(c).is_some() {
            return;
        }
        let mut blocks = blocks;
        self.apply_deletions(c, &mut blocks);
        let ghost g = blocks@;
        let chunk = Chunk::new(c, blocks);
        let ghost before = *self;
        self.chunks.push(chunk);
        proof {
            let n = before@.chunks.len() as int;
            assert(self@.chunks[n] == chunk);
            assert forall|i: int, j: int|
                0 <= i < self@.chunks.len() && 0 <= j < self@.chunks.len() && i != j
                    implies #[trigger] self@.chunks[i].coords != #[trigger] self@.chunks[j].coords by {
                if i == n {
                    assert(before@.chunks[j] == self@.chunks[j]);
                    assert(!before.loaded(c));
                } else if j == n {
                    assert(before@.chunks[i] == self@.chunks[i]);
                    assert(!before.loaded(c));
                } else {
                    assert(before@.chunks[i] == self@.chunks[i]);
                    assert(before@.chunks[j] == self@.chunks[j]);
                }
            }
            assert(self.wf());
            self.lemma_chunk_of(n);
            assert forall|d: ChunkCoords| d != c implies (#[trigger] self.loaded(d) == before.loaded(d)) && (
            self.loaded(d) ==> self.chunk_of(d) == before.chunk_of(d)) by {
                if self.loaded(d) {
                    let i = choose|i: int| 0 <= i < self@.chunks.len() && (#[trigger] self@.chunks[i]).coords == d;
                    assert(i != n);
                    assert(before@.chunks[i] == self@.chunks[i]);
                    self.lemma_chunk_of(i);
                    before.lemma_chunk_of(i);
                }
                if before.loaded(d) {
                    let i = choose|i: int| 0 <= i < before@.chunks.len() && (#[trigger] before@.chunks[i]).coords == d;
                    assert(self@.chunks[i] == before@.chunks[i]);
                }
            }
            assert forall|x: usize, y: usize, z: usize|
                x < 16 && y < 16 && z < 256 implies #[trigger] self.chunk_of(c).block_at(x as int, y as int, z as int)
                    == if self.is_deleted(c, (x, y, z)) {
                    None
                } else {
                    grid_cell(blocks@, x as int, y as int, z as int)
                } by {
                assert(in_chunk(x as int, y as int, z as int));
                assert(chunk.block_at(x as int, y as int, z as int) == grid_cell(g, x as int, y as int, z as int));
            }
        }
    }

    /// One step of a ray march: whether the ray left the world through its floor
    /// or ceiling at `w`, passes through, or hits a block there.
    pub fn probe(&self, w: WorldCoords) -> (r: RayProbe)
        requires
            self.wf(),
        ensures
            !(0 <= w.2 < CHUNK_HEIGHT) ==> r == RayProbe::OutOfWorld,
            0 <= w.2 < CHUNK_HEIGHT ==> r == match self.block_at(w) {
                None => RayProbe::Empty,
                Some(b) => RayProbe::Hit(b),
            },
    {
        if w.2 < 0 || w.2 >= CHUNK_HEIGHT as i32 {
            return RayProbe::OutOfWorld;
        }
        match self.get_block(w) {
            None => RayProbe::Empty,
            Some(b) => RayProbe::Hit(b),
        }
    }

    fn keeps(keep: &Vec<ChunkCoords>, c: ChunkCoords) -> (r: bool)
        ensures
            r == keep@.contains(c),
    {
        let mut i: usize = 0;
        while i < keep.len()
            invariant
                i <= keep@.len(),
                forall|j: int| 0 <= j < i ==> keep@[j] != c,
            decreases keep@.len() - i,
        {
            let k = keep[i];
            if k.0 == c.0 && k.1 == c.1 {
                assert(keep@[i as int] == c);
                return true;
            }
            i += 1;
        }
        false
    }

    /// Unloads every chunk whose position is not in `keep`. Recorded removals stay.
    pub fn retain_chunks(&mut self, keep: &Vec<ChunkCoords>)
        requires
            old(self).wf(),
        ensures
            final(self).wf(),
            retained(*old(self), *final(self), keep@),
    {
        let ghost before = *self;
        let mut rest: Vec<Chunk> = Vec::new();
        std::mem::swap(&mut self.chunks, &mut rest);
        let ghost orig = rest@;
        let ghost mut idx: Seq<int> = Seq::empty();
        while rest.len() > 0
            invariant
                before.wf(),
                orig == before@.chunks,
                self@.deleted == before@.deleted,
                rest@.len() <= orig.len(),
                rest@ == orig.subrange(0, rest@.len() as int),
                idx.len() == self@.chunks.len(),
                forall|k: int| 0 <= k < idx.len() ==> rest@.len() <= #[trigger] idx[k] < orig.len()
                    && self@.chunks[k] == orig[idx[k]] && keep@.contains(orig[idx[k]].coords),
                forall|k1: int, k2: int| 0 <= k1 < k2 < idx.len() ==> #[trigger] idx[k1] > #[trigger] idx[k2],
                forall|i: int| rest@.len() <= i < orig.len() && keep@.contains((#[trigger] orig[i]).coords)
                    ==> exists|k: int| 0 <= k < idx.len() && idx[k] == i,
            decreases rest@.len(),
        {
            let ghost n = rest@.len() as int;
            let ghost old_idx = idx;
            let ch = rest.pop().unwrap();
            assert(ch == orig[n - 1]);
            if World::keeps(keep, ch.coords()) {
                self.chunks.push(ch);
                proof {
                    idx = idx.push(n - 1);
                }
            }
            proof {
                assert(rest@ =~= orig.subrange(0, rest@.len() as int));
                assert forall|i: int| rest@.len() <= i < orig.len() && keep@.contains((#[trigger] orig[i]).coords)
                    implies exists|k: int| 0 <= k < idx.len() && idx[k] == i by {
                    if i == n - 1 {
                        assert(idx[idx.len() - 1] == i);
                    } else {
                        assert(orig[i] == orig[i]);
                        let k = choose|k: int| 0 <= k < old_idx.len() && old_idx[k] == i;
                        assert(idx[k] == old_idx[k]);
                    }
                }
            }
        }
        proof {
            assert forall|i: int, j: int|
                0 <= i < self@.chunks.len() && 0 <= j < self@.chunks.len() && i != j
                    implies #[trigger] self@.chunks[i].coords != #[trigger] self@.chunks[j].coords by {
                if i < j {
                    assert(idx[i] > idx[j]);
                } else {
                    assert(idx[j] > idx[i]);
                }
                assert(orig[idx[i]].coords != orig[idx[j]].coords);
            }
            assert forall|i: int| 0 <= i < self@.chunks.len() implies (#[trigger] self@.chunks[i]).wf() by {
                assert(before@.chunks[idx[i]].wf());
            }
            assert(self.wf());
            assert forall|c: ChunkCoords| #[trigger] self.loaded(c) == (before.loaded(c) && keep@.contains(c)) by {
                if self.loaded(c) {
                    let k = choose|k: int| 0 <= k < self@.chunks.len() && (#[trigger] self@.chunks[k]).coords == c;
                    assert(before@.chunks[idx[k]].coords == c);
                }
                if before.loaded(c) && keep@.contains(c) {
                    let i = choose|i: int| 0 <= i < before@.chunks.len() && (#[trigger] before@.chunks[i]).coords == c;
                    assert(keep@.contains(orig[i].coords));
                    let k = choose|k: int| 0 <= k < idx.len() && idx[k] == i;
                    assert(self@.chunks[k].coords == c);
                }
            }
            assert forall|c: ChunkCoords| #[trigger] self.loaded(c) implies self.chunk_of(c) == before.chunk_of(c) by {
                let k = choose|k: int| 0 <= k < self@.chunks.len() && (#[trigger] self@.chunks[k]).coords == c;
                self.lemma_chunk_of(k);
                before.lemma_chunk_of(idx[k]);
            }
        }
    }

    fn is_recorded(&self, c: ChunkCoords, b: BlockCoords) -> (r: bool)
        ensures
            r == self.is_deleted(c, b),
    {
        let mut j: usize = 0;
        while j < self.deleted_blocks.len()
            invariant
                j <= self@.deleted.len(),
                !deleted_in(self@.deleted, j as int, c, b),
            decreases self@.deleted.len() - j,
        {
            let (d, e) = self.deleted_blocks[j];
            if d.0 == c.0 && d.1 == c.1 && e.0 == b.0 && e.1 == b.1 && e.2 == b.2 {
                assert(self@.deleted[j as int] == (c, b));
                return true;
            }
            j += 1;
        }
        false
    }

    /// Removes the block at world position `w` from its loaded chunk and records
    /// the removal for good. Nothing happens when `w` is outside the world's height
    /// or its chunk is not loaded.
    pub fn delete_block(&mut self, w: WorldCoords)
        requires
            old(self).wf(),
        ensures
            final(self).wf(),
            deleted_from(*old(self), *final(self), w),
    {
        let (c, b) = match split_coords(w) {
            None => return,
            Some(p) => p,
        };
        let i = match self.find_chunk(c) {
            None => return,
            Some(i) => i,
        };
        let ghost before = *self;
        let mut chunk = self.chunks.remove(i);
        chunk.delete_block(b.0, b.1, b.2);
        self.chunks.insert(i, chunk);
        assert(self@.chunks =~= before@.chunks.update(i as int, chunk));
        if !self.is_recorded(c, b) {
            self.deleted_blocks.push((c, b));
        }
        proof {
            let n = self@.chunks.len();
            assert forall|j: int, k: int|
                0 <= j < n && 0 <= k < n && j != k implies #[trigger] self@.chunks[j].coords
                    != #[trigger] self@.chunks[k].coords by {
                assert(before@.chunks[j].coords == self@.chunks[j].coords);
                assert(before@.chunks[k].coords == self@.chunks[k].coords);
            }
            assert forall|k: int| 0 <= k < self@.deleted.len() implies {
                let e = (#[trigger] self@.deleted[k]).1;
                e.0 < 16 && e.1 < 16 && e.2 < 256
            } by {
                if k < before@.deleted.len() {
                    assert(self@.deleted[k] == before@.deleted[k]);
                }
            }
            assert(self.wf());
            self.lemma_chunk_of(i as int);
            assert forall|d: ChunkCoords| d != c implies (#[trigger] self.loaded(d) == before.loaded(d)) && (
            self.loaded(d) ==> self.chunk_of(d) == before.chunk_of(d)) by {
                if self.loaded(d) {
                    let j = choose|j: int| 0 <= j < self@.chunks.len() && (#[trigger] self@.chunks[j]).coords == d;
                    assert(before@.chunks[j] == self@.chunks[j]);
                    self.lemma_chunk_of(j);
                    before.lemma_chunk_of(j);
                }
                if before.loaded(d) {
                    let j = choose|j: int| 0 <= j < before@.chunks.len() && (#[trigger] before@.chunks[j]).coords == d;
                    assert(self@.chunks[j].coords == d);
                }
            }
            assert forall|d: ChunkCoords, e: BlockCoords|
                #[trigger] self.is_deleted(d, e) == (before.is_deleted(d, e) || (d, e) == (c, b)) by {
                let ds = self@.deleted;
                let os = before@.deleted;
                if before.is_deleted(d, e) {
                    let k = choose|k: int| 0 <= k < os.len() && #[trigger] os[k] == (d, e);
                    assert(ds[k] == (d, e));
                }
                if (d, e) == (c, b) && !before.is_deleted(c, b) {
                    assert(ds[os.len() as int] == (c, b));
                }
                if self.is_deleted(d, e) {
                    let k = choose|k: int| 0 <= k < ds.len() && #[trigger] ds[k] == (d, e);
                    if k < os.len() {
                        assert(os[k] == (d, e));
                    }
                }
            }
        }
    }

    /// The neighbour `n` handed to the mesher for position `d`: the loaded chunk
    /// there, or nothing.
    pub open spec fn neighbour_is(&self, n: Option<&Chunk>, d: Option<ChunkCoords>) -> bool {
        match n {
            None => d is None || !self.loaded(d->Some_0),
            Some(ch) => d is Some && self.loaded(d->Some_0) && *ch == self.chunk_of(d->Some_0),
        }
    }

    /// `adj` holds the loaded chunks next to `c`: north is +y, south -y, east +x,
    /// west -x.
    pub open spec fn adjacent_of(&self, c: ChunkCoords, adj: AdjacentChunks) -> bool {
        &&& self.neighbour_is(adj.north, offset(c, 0, 1))
        &&& self.neighbour_is(adj.south, offset(c, 0, -1))
        &&& self.neighbour_is(adj.east, offset(c, 1, 0))
        &&& self.neighbour_is(adj.west, offset(c, -1, 0))
    }

    fn neighbour(&self, c: ChunkCoords, dx: i32, dy: i32) -> (r: Option<&Chunk>)
        requires
            self.wf(),
            -1 <= dx <= 1,
            -1 <= dy <= 1,
        ensures
            self.neighbour_is(r, offset(c, dx as int, dy as int)),
            r is Some ==> r->Some_0.wf(),
    {
        let x = c.0.checked_add(dx);
        let y = c.1.checked_add(dy);
        match (x, y) {
            (Some(x), Some(y)) => self.get_chunk_if_loaded((x, y)),
            _ => None,
        }
    }

    /// The mesh of the loaded chunk at `c`, seen next to whichever of its four
    /// neighbours are loaded; `None` when `c` is not loaded.
    pub fn generate_chunk_mesh(&self, c: ChunkCoords) -> (r: Option<(Vec<MeshVertex>, Vec<u16>)>)
        requires
            self.wf(),
        ensures
            r is Some <==> self.loaded(c),
            r is Some ==> exists|adj: AdjacentChunks|
                self.adjacent_of(c, adj) && is_chunk_mesh(self.chunk_of(c), adj, r->Some_0.0@, r->Some_0.1@),
    {
        let chunk = match self.get_chunk_if_loaded(c) {
            None => return None,
            Some(ch) => ch,
        };
        let adjacent = AdjacentChunks {
            north: self.neighbour(c, 0, 1),
            south: self.neighbour(c, 0, -1),
            east: self.neighbour(c, 1, 0),
            west: self.neighbour(c, -1, 0),
        };
        let mesh = chunk.generate_mesh(&adjacent);
        assert(self.adjacent_of(c, adjacent));
        Some(mesh)
    }
}

/// A removed block stays removed: after `delete_block` on a loaded chunk, any
/// `retain_chunks` and any `load_chunk` of fresh terrain leave air at that
/// position.
pub proof fn lemma_deletion_persists(
    w0: World,
    w1: World,
    w2: World,
    w3: World,
    w: WorldCoords,
    keep: Seq<ChunkCoords>,
    blocks: Seq<Option<BlockType>>,
)
    requires
        split_spec(w) is Some,
        w0.loaded(split_spec(w)->Some_0.0),
        deleted_from(w0, w1, w),
        retained(w1, w2, keep),
        loaded_from(w2, w3, split_spec(w)->Some_0.0, blocks),
    ensures
        w3.loaded(split_spec(w)->Some_0.0),
        w3.block_at(w) is None,
{
    let (c, b) = split_spec(w)->Some_0;
    assert(w1.is_deleted(c, b));
    assert(w2.is_deleted(c, b));
    if w2.loaded(c) {
        assert(w1.loaded(c));
        assert(w1.chunk_of(c).block_at(b.0 as int, b.1 as int, b.2 as int) is None);
    } else {
        assert(w3.chunk_of(c).block_at(b.0 as int, b.1 as int, b.2 as int) is None);
    }
}

/// Removing the same block twice leaves the world as removing it once: the same
/// chunks are loaded, every position holds the same block, and the same removals
/// are recorded.
pub proof fn lemma_deletion_idempotent(w0: World, w1: World, w2: World, w: WorldCoords)
    requires
        deleted_from(w0, w1, w),
        deleted_from(w1, w2, w),
    ensures
        forall|c: ChunkCoords| #[trigger] w2.loaded(c) == w1.loaded(c),
        forall|v: WorldCoords| #[trigger] w2.block_at(v) == w1.block_at(v),
        forall|c: ChunkCoords, b: BlockCoords| #[trigger] w2.is_deleted(c, b) == w1.is_deleted(c, b),
{
    match split_spec(w) {
        None => {},
        Some((c, b)) => {
            if w0.loaded(c) {
                assert forall|v: WorldCoords| #[trigger] w2.block_at(v) == w1.block_at(v) by {
                    match split_spec(v) {
                        None => {},
                        Some((d, e)) => {
                            if d == c {
                                let t = e;
                                assert(t.0 < 16 && t.1 < 16 && t.2 < 256);
                                assert(w2.chunk_of(c).block_at(t.0 as int, t.1 as int, t.2 as int)
                                    == w1.chunk_of(c).block_at(t.0 as int, t.1 as int, t.2 as int));
                            }
                        },
                    }
                }
                assert forall|d: ChunkCoords| #[trigger] w2.loaded(d) == w1.loaded(d) by {
                    if d != c {
                        assert(w2.same_chunks_except(w1, c));
                    }
                }
            }
        },
    }
}

} // verus!
