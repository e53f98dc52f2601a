use vstd::prelude::*;
use vstd::arithmetic::div_mod::lemma_add_mod_noop;

use crate::block::{atlas_bottom, atlas_side, atlas_top, BlockType};
use crate::chunk::{
    build_tree, full_box, grid_cell, in_chunk, lemma_any_empty, lemma_build_leaves_hold, lemma_build_tree, leaves_hold,
    Chunk, ChunkNode, ChunkNodePos, CHUNK_HEIGHT, CHUNK_VOLUME, CHUNK_WIDTH,
};
use crate::face::{face_corner, face_extent, face_order, face_uv, Face};

verus! {

/// The loaded chunks around the one being meshed. A missing neighbour counts as
/// open: faces on that side of the chunk are shown.
pub struct AdjacentChunks<'a> {
    pub north: Option<&'a Chunk>,
    pub south: Option<&'a Chunk>,
    pub east: Option<&'a Chunk>,
    pub west: Option<&'a Chunk>,
}

/// A vertex of a chunk mesh, in chunk-local block units.
#[derive(Debug, Clone, Copy, PartialEq, Eq)]
pub struct MeshVertex {
    pub position: [u32; 3],
    pub tex_coords: [u32; 2],
    pub atlas_offset: [u32; 2],
}

/// One visible face of a leaf box.
#[derive(Debug, Clone, Copy, PartialEq, Eq, Structural)]
pub struct Quad {
    pub face: Face,
    pub block: BlockType,
    pub pos: ChunkNodePos,
}

pub open spec fn slab(x0: int, x1: int, y0: int, y1: int, z0: int, z1: int) -> ChunkNodePos {
    ChunkNodePos {
        x0: x0 as usize,
        x1: x1 as usize,
        y0: y0 as usize,
        y1: y1 as usize,
        z0: z0 as usize,
        z1: z1 as usize,
    }
}

/// Whether a neighbouring chunk leaves the slab `region` open: true when it is
/// not loaded, or when some air in it meets the slab.
pub open spec fn neighbour_open(n: Option<&Chunk>, region: ChunkNodePos) -> bool {
    match n {
        None => true,
        Some(c) => c.root.any_empty(region),
    }
}

/// Whether face `f` of the leaf box `p` of `chunk` is visible: the one-cell slab
/// just beyond it holds air, looked up in this chunk or in the neighbour on that
/// side. The top of the world is always open, its floor always closed.
pub open spec fn face_visible(chunk: Chunk, p: ChunkNodePos, f: Face, adj: AdjacentChunks) -> bool {
    match f {
        Face::Left => if p.x0 > 0 {
            chunk.root.any_empty(slab(p.x0 - 1, p.x0 as int, p.y0 as int, p.y1 as int, p.z0 as int, p.z1 as int))
        } else {
            neighbour_open(adj.west, slab(15, 16, p.y0 as int, p.y1 as int, p.z0 as int, p.z1 as int))
        },
        Face::Right => if p.x1 < 16 {
            chunk.root.any_empty(slab(p.x1 as int, p.x1 + 1, p.y0 as int, p.y1 as int, p.z0 as int, p.z1 as int))
        } else {
            neighbour_open(adj.east, slab(0, 1, p.y0 as int, p.y1 as int, p.z0 as int, p.z1 as int))
        },
        Face::Back => if p.y1 < 16 {
            chunk.root.any_empty(slab(p.x0 as int, p.x1 as int, p.y1 as int, p.y1 + 1, p.z0 as int, p.z1 as int))
        } else {
            neighbour_open(adj.north, slab(p.x0 as int, p.x1 as int, 0, 1, p.z0 as int, p.z1 as int))
        },
        Face::Front => if p.y0 > 0 {
            chunk.root.any_empty(slab(p.x0 as int, p.x1 as int, p.y0 - 1, p.y0 as int, p.z0 as int, p.z1 as int))
        } else {
            neighbour_open(adj.south, slab(p.x0 as int, p.x1 as int, 15, 16, p.z0 as int, p.z1 as int))
        },
        Face::Top => p.z1 >= 256 || chunk.root.any_empty(
            slab(p.x0 as int, p.x1 as int, p.y0 as int, p.y1 as int, p.z1 as int, p.z1 + 1),
        ),
        Face::Bottom => p.z0 > 0 && chunk.root.any_empty(
            slab(p.x0 as int, p.x1 as int, p.y0 as int, p.y1 as int, p.z0 - 1, p.z0 as int),
        ),
    }
}

/// The visible faces among the first `n` faces (in meshing order) of a leaf
/// box `p` of material `b`.
pub open spec fn leaf_quads(chunk: Chunk, adj: AdjacentChunks, b: BlockType, p: ChunkNodePos, n: int) -> Seq<Quad>
    decreases n,
{
    if n <= 0 {
        Seq::empty()
    } else {
        let prev = leaf_quads(chunk, adj, b, p, n - 1);
        if face_visible(chunk, p, face_order(n - 1), adj) {
            prev.push(Quad { face: face_order(n - 1), block: b, pos: p })
        } else {
            prev
        }
    }
}

/// The visible faces of every solid leaf of `node`, leaves taken left to right.
pub open spec fn node_quads(node: ChunkNode, chunk: Chunk, adj: AdjacentChunks) -> Seq<Quad>
    decreases node,
{
    match node {
        ChunkNode::Leaf(None, _) => Seq::empty(),
        ChunkNode::Leaf(Some(b), p) => leaf_quads(chunk, adj, b, p, 6),
        ChunkNode::Inner(a, b, _, _) => node_quads(*a, chunk, adj) + node_quads(*b, chunk, adj),
    }
}

/// The texture atlas cell of face `f` of a block: top, bottom, or the shared side.
pub open spec fn face_atlas(f: Face, b: BlockType) -> (u32, u32) {
    match f {
        Face::Top => atlas_top(b),
        Face::Bottom => atlas_bottom(b),
        _ => atlas_side(b),
    }
}

/// Vertex `v` is corner `i` of quad `q`: the corner of the face on the quad's
/// box, texture coordinates stretched over the box, and the material's atlas cell.
pub open spec fn is_quad_vertex(v: MeshVertex, q: Quad, i: int) -> bool {
    let c = face_corner(q.face, i);
    let p = q.pos;
    let ext = face_extent(q.face, (p.x1 - p.x0) as u32, (p.y1 - p.y0) as u32, (p.z1 - p.z0) as u32);
    &&& v.position[0] == if c.0 == 1 { p.x1 } else { p.x0 }
    &&& v.position[1] == if c.1 == 1 { p.y1 } else { p.y0 }
    &&& v.position[2] == if c.2 == 1 { p.z1 } else { p.z0 }
    &&& (v.tex_coords[0], v.tex_coords[1]) == face_uv(ext.0, ext.1, i)
    &&& (v.atlas_offset[0], v.atlas_offset[1]) == face_atlas(q.face, q.block)
}

/// Offsets of the two triangles of a quad from its first vertex.
pub open spec fn fan(k: int) -> int {
    if k == 0 {
        0
    } else if k == 1 {
        1
    } else if k == 2 {
        2
    } else if k == 3 {
        2
    } else if k == 4 {
        3
    } else {
        0
    }
}

pub proof fn lemma_leaf_quads(chunk: Chunk, adj: AdjacentChunks, b: BlockType, p: ChunkNodePos, n: int)
    ensures
        leaf_quads(chunk, adj, b, p, n).len() <= if n < 0 { 0 } else { n },
        forall|j: int|
            0 <= j < leaf_quads(chunk, adj, b, p, n).len() ==> (#[trigger] leaf_quads(chunk, adj, b, p, n)[j]).pos == p
                && leaf_quads(chunk, adj, b, p, n)[j].block == b,
    decreases n,
{
    if n > 0 {
        lemma_leaf_quads(chunk, adj, b, p, n - 1);
    }
}

/// Every quad of a well-formed tree lies on a valid box.
pub proof fn lemma_node_quads_valid(node: ChunkNode, chunk: Chunk, adj: AdjacentChunks)
    requires
        node.wf(),
    ensures
        forall|j: int|
            0 <= j < node_quads(node, chunk, adj).len() ==> (#[trigger] node_quads(node, chunk, adj)[j]).pos.valid(),
    decreases node,
{
    match node {
        ChunkNode::Leaf(None, _) => {},
        ChunkNode::Leaf(Some(b), p) => {
            lemma_leaf_quads(chunk, adj, b, p, 6);
        },
        ChunkNode::Inner(a, b, _, _) => {
            lemma_node_quads_valid(*a, chunk, adj);
            lemma_node_quads_valid(*b, chunk, adj);
            let qa = node_quads(*a, chunk, adj);
            let qb = node_quads(*b, chunk, adj);
            assert forall|j: int| 0 <= j < (qa + qb).len() implies (#[trigger] (qa + qb)[j]).pos.valid() by {
                if j >= qa.len() {
                    assert((qa + qb)[j] == qb[j - qa.len()]);
                }
            }
        },
    }
}

/// `vertices` and `indices` are the mesh of `chunk` next to `adj`: four vertices
/// per visible face, in the order of `node_quads`, and six 16-bit indices per face
/// forming the triangles `0 1 2` and `2 3 0` of its vertices, taken modulo 2^16.
pub open spec fn is_chunk_mesh(chunk: Chunk, adj: AdjacentChunks, vertices: Seq<MeshVertex>, indices: Seq<u16>) -> bool {
    let quads = node_quads(chunk.root, chunk, adj);
    &&& vertices.len() == 4 * quads.len()
    &&& indices.len() == 6 * quads.len()
    &&& forall|q: int, i: int|
        0 <= q < quads.len() && 0 <= i < 4 ==> is_quad_vertex(#[trigger] vertices[4 * q + i], quads[q], i)
    &&& forall|q: int, k: int|
        0 <= q < quads.len() && 0 <= k < 6 ==> #[trigger] indices[6 * q + k] as int == (4 * q + fan(k)) % 65536
}

fn create_face_vertices(face: Face, block: BlockType, pos: &ChunkNodePos) -> (r: [MeshVertex; 4])
    requires
        pos.valid(),
    ensures
        forall|i: int| 0 <= i < 4 ==> is_quad_vertex(#[trigger] r[i], Quad { face, block, pos: *pos }, i),
{
    let (sx, sy, sz) = pos.size();
    let face_uvs = face.uvs((sx as u32, sy as u32, sz as u32));
    let corners = face.positions();
    let atlas_offset = match face {
        Face::Top => block.atlas_offset_top(),
        Face::Bottom => block.atlas_offset_bottom(),
        Face::Left | Face::Right | Face::Front | Face::Back => block.atlas_offset_side(),
    };
    let mut out = [MeshVertex { position: [0, 0, 0], tex_coords: [0, 0], atlas_offset }; 4];
    let mut i: usize = 0;
    while i < 4
        invariant
            pos.valid(),
            i <= 4,
            sx == pos.x1 - pos.x0,
            sy == pos.y1 - pos.y0,
            sz == pos.z1 - pos.z0,
            forall|j: int| 0 <= j < 4 ==> (corners[j][0], corners[j][1], corners[j][2]) == face_corner(face, j),
            forall|j: int| 0 <= j < 4 ==> (face_uvs[j][0], face_uvs[j][1]) == face_uv(
                face_extent(face, sx as u32, sy as u32, sz as u32).0,
                face_extent(face, sx as u32, sy as u32, sz as u32).1,
                j,
            ),
            atlas_offset[0] == face_atlas(face, block).0,
            atlas_offset[1] == face_atlas(face, block).1,
            forall|j: int| 0 <= j < i ==> is_quad_vertex(#[trigger] out[j], Quad { face, block, pos: *pos }, j),
        decreases 4 - i,
    {
        let c = corners[i];
        let px = if c[0] == 1 { pos.x1 as u32 } else { pos.x0 as u32 };
        let py = if c[1] == 1 { pos.y1 as u32 } else { pos.y0 as u32 };
        let pz = if c[2] == 1 { pos.z1 as u32 } else { pos.z0 as u32 };
        out[i] = MeshVertex { position: [px, py, pz], tex_coords: face_uvs[i], atlas_offset };
        i += 1;
    }
    out
}

impl Chunk {
    /// Whether face `face` of the leaf box `pos` of this chunk is visible.
    pub fn is_face_visible(&self, pos: &ChunkNodePos, face: Face, adjacent: &AdjacentChunks) -> (r: bool)
        requires
            pos.valid(),
        ensures
            r == face_visible(*self, *pos, face, *adjacent),
    {
        match face {
            Face::Left => {
                if pos.x0 > 0 {
                    self.root.any_empty_in_region(
                        &ChunkNodePos::new(pos.x0 - 1, pos.x0, pos.y0, pos.y1, pos.z0, pos.z1),
                    )
                } else {
                    match adjacent.west {
                        None => true,
                        Some(west) => west.root.any_empty_in_region(
                            &ChunkNodePos::new(CHUNK_WIDTH - 1, CHUNK_WIDTH, pos.y0, pos.y1, pos.z0, pos.z1),
                        ),
                    }
                }
            },
            Face::Right => {
                if pos.x1 < CHUNK_WIDTH {
                    self.root.any_empty_in_region(
                        &ChunkNodePos::new(pos.x1, pos.x1 + 1, pos.y0, pos.y1, pos.z0, pos.z1),
                    )
                } else {
                    match adjacent.east {
                        None => true,
                        Some(east) => east.root.any_empty_in_region(
                            &ChunkNodePos::new(0, 1, pos.y0, pos.y1, pos.z0, pos.z1),
                        ),
                    }
                }
            },
            Face::Back => {
                if pos.y1 < CHUNK_WIDTH {
                    self.root.any_empty_in_region(
                        &ChunkNodePos::new(pos.x0, pos.x1, pos.y1, pos.y1 + 1, pos.z0, pos.z1),
                    )
                } else {
                    match adjacent.north {
                        None => true,
                        Some(north) => north.root.any_empty_in_region(
                            &ChunkNodePos::new(pos.x0, pos.x1, 0, 1, pos.z0, pos.z1),
                        ),
                    }
                }
            },
            Face::Front => {
                if pos.y0 > 0 {
                    self.root.any_empty_in_region(
                        &ChunkNodePos::new(pos.x0, pos.x1, pos.y0 - 1, pos.y0, pos.z0, pos.z1),
                    )
                } else {
                    match adjacent.south {
                        None => true,
                        Some(south) => south.root.any_empty_in_region(
                            &ChunkNodePos::new(pos.x0, pos.x1, CHUNK_WIDTH - 1, CHUNK_WIDTH, pos.z0, pos.z1),
                        ),
                    }
                }
            },
            Face::Top => {
                pos.z1 >= CHUNK_HEIGHT || self.root.any_empty_in_region(
                    &ChunkNodePos::new(pos.x0, pos.x1, pos.y0, pos.y1, pos.z1, pos.z1 + 1),
                )
            },
            Face::Bottom => {
                pos.z0 > 0 && self.root.any_empty_in_region(
                    &ChunkNodePos::new(pos.x0, pos.x1, pos.y0, pos.y1, pos.z0 - 1, pos.z0),
                )
            },
        }
    }

    /// Appends the visible faces of the solid leaves of `node`.
    fn collect_quads(&self, node: &ChunkNode, adjacent: &AdjacentChunks, out: &mut Vec<Quad>)
        requires
            node.wf(),
        ensures
            final(out)@ == old(out)@ + node_quads(*node, *self, *adjacent),
        decreases node,
    {
        match node {
            ChunkNode::Leaf(None, _) => {
                assert(out@ =~= out@ + Seq::<Quad>::empty());
            },
            ChunkNode::Leaf(Some(block), pos) => {
                let ghost start = out@;
                let mut i: usize = 0;
                while i < 6
                    invariant
                        pos.valid(),
                        i <= 6,
                        out@ == start + leaf_quads(*self, *adjacent, *block, *pos, i as int),
                    decreases 6 - i,
                {
                    let face = Face::from_index(i);
                    if self.is_face_visible(pos, face, adjacent) {
                        out.push(Quad { face, block: *block, pos: *pos });
                    }
                    proof {
                        let prev = leaf_quads(*self, *adjacent, *block, *pos, i as int);
                        assert(leaf_quads(*self, *adjacent, *block, *pos, i + 1) == if face_visible(*self, *pos, face_order(i as int), *adjacent) {
                            prev.push(Quad { face: face_order(i as int), block: *block, pos: *pos })
                        } else {
                            prev
                        });
                        assert((start + prev).push(Quad { face: face_order(i as int), block: *block, pos: *pos }) =~= start + prev.push(Quad { face: face_order(i as int), block: *block, pos: *pos }));
                    }
                    i += 1;
                }
            },
            ChunkNode::Inner(a, b, _, _) => {
                let ghost start = out@;
                self.collect_quads(a, adjacent, out);
                self.collect_quads(b, adjacent, out);
                assert(out@ =~= start + (node_quads(**a, *self, *adjacent) + node_quads(**b, *self, *adjacent)));
            },
        }
    }

    /// The mesh of the chunk's visible faces; one quad per visible face of each
    /// solid leaf, however many cells the leaf covers.
    pub fn generate_mesh(&self, adjacent: &AdjacentChunks) -> (r: (Vec<MeshVertex>, Vec<u16>))
        requires
            self.wf(),
        ensures
            is_chunk_mesh(*self, *adjacent, r.0@, r.1@),
    {
        let mut quads: Vec<Quad> = Vec::new();
        self.collect_quads(&self.root, adjacent, &mut quads);
        assert(quads@ =~= node_quads(self.root, *self, *adjacent));
        proof {
            lemma_node_quads_valid(self.root, *self, *adjacent);
        }
        let mut vertices: Vec<MeshVertex> = Vec::new();
        let mut indices: Vec<u16> = Vec::new();
        let mut offset: u32 = 0;
        let mut q: usize = 0;
        while q < quads.len()
            invariant
                q <= quads@.len(),
                forall|j: int| 0 <= j < quads@.len() ==> (#[trigger] quads@[j]).pos.valid(),
                offset < 65536,
                offset as int == (4 * q) % 65536,
                vertices@.len() == 4 * q,
                indices@.len() == 6 * q,
                forall|j: int, i: int|
                    0 <= j < q && 0 <= i < 4 ==> is_quad_vertex(#[trigger] vertices@[4 * j + i], quads@[j], i),
                forall|j: int, k: int|
                    0 <= j < q && 0 <= k < 6 ==> #[trigger] indices@[6 * j + k] as int == (4 * j + fan(k)) % 65536,
            decreases quads.len() - q,
        {
            let quad = quads[q];
            let vs = create_face_vertices(quad.face, quad.block, &quad.pos);
            let ghost vstart = vertices@;
            let ghost istart = indices@;
            vertices.push(vs[0]);
            vertices.push(vs[1]);
            vertices.push(vs[2]);
            vertices.push(vs[3]);
            let pattern: [u32; 6] = [0, 1, 2, 2, 3, 0];
            let mut k: usize = 0;
            while k < 6
                invariant
                    k <= 6,
                    offset < 65536,
                    offset as int == (4 * q) % 65536,
                    indices@.len() == 6 * q + k,
                    forall|m: int| 0 <= m < 6 ==> pattern[m] as int == fan(m),
                    istart.len() == 6 * q,
                    forall|j: int| 0 <= j < 6 * q ==> #[trigger] indices@[j] == istart[j],
                    forall|m: int| 0 <= m < k ==> #[trigger] indices@[6 * q + m] as int == (4 * q + fan(m)) % 65536,
                decreases 6 - k,
            {
                assert(pattern[k as int] as int == fan(k as int));
                let idx = (offset + pattern[k]) % 65536;
                proof {
                    lemma_add_mod_noop(4 * q as int, fan(k as int), 65536);
                    assert(fan(k as int) % 65536 == fan(k as int));
                }
                indices.push(idx as u16);
                k += 1;
            }
            proof {
                assert forall|j: int, i: int|
                    0 <= j < q + 1 && 0 <= i < 4 implies is_quad_vertex(#[trigger] vertices@[4 * j + i], quads@[j], i) by {
                    if j < q {
                        assert(vertices@[4 * j + i] == vstart[4 * j + i]);
                    } else {
                        assert(vertices@[4 * j + i] == vs[i]);
                    }
                }
                assert forall|j: int, m: int|
                    0 <= j < q + 1 && 0 <= m < 6 implies #[trigger] indices@[6 * j + m] as int == (4 * j + fan(m)) % 65536 by {
                    if j < q {
                        assert(indices@[6 * j + m] == istart[6 * j + m]);
                    }
                }
                lemma_add_mod_noop(4 * q as int, 4, 65536);
            }
            offset = (offset + 4) % 65536;
            q += 1;
        }
        (vertices, indices)
    }
}

/// Across a chunk border the mesher looks at the neighbour: a face on the west
/// edge of a chunk is visible exactly when the cells of its west neighbour's east
/// edge that it faces hold some air.
pub proof fn lemma_west_face_matches_neighbour(a: Chunk, b: Chunk, p: ChunkNodePos, adj: AdjacentChunks)
    requires
        b.wf(),
        p.valid(),
        p.x0 == 0,
        adj.west is Some,
        *adj.west->Some_0 == b,
    ensures
        face_visible(a, p, Face::Left, adj) <==> exists|y: int, z: int|
            p.y0 <= y < p.y1 && p.z0 <= z < p.z1 && #[trigger] b.block_at(15, y, z) is None,
{
    let region = slab(15, 16, p.y0 as int, p.y1 as int, p.z0 as int, p.z1 as int);
    lemma_any_empty(b.root, region);
    if face_visible(a, p, Face::Left, adj) {
        let (x, y, z) = choose|x: int, y: int, z: int|
            b.root.pos().contains(x, y, z) && region.contains(x, y, z) && #[trigger] b.root.value_at(x, y, z) is None;
        assert(x == 15);
        assert(b.block_at(15, y, z) is None);
    }
    if exists|y: int, z: int| p.y0 <= y < p.y1 && p.z0 <= z < p.z1 && #[trigger] b.block_at(15, y, z) is None {
        let (y, z) = choose|y: int, z: int| p.y0 <= y < p.y1 && p.z0 <= z < p.z1 && #[trigger] b.block_at(15, y, z) is None;
        assert(b.root.pos().contains(15, y, z) && region.contains(15, y, z) && b.root.value_at(15, y, z) is None);
    }
}

/// Inside a chunk a face is visible exactly when some cell of the one-cell slab
/// beyond it is air: the face between two solid cells is never emitted. Stated for
/// the west (-x) face.
pub proof fn lemma_inner_face_matches_cells(chunk: Chunk, p: ChunkNodePos, adj: AdjacentChunks)
    requires
        chunk.wf(),
        p.valid(),
        p.x0 > 0,
    ensures
        face_visible(chunk, p, Face::Left, adj) <==> exists|y: int, z: int|
            p.y0 <= y < p.y1 && p.z0 <= z < p.z1 && #[trigger] chunk.block_at(p.x0 - 1, y, z) is None,
{
    let x = p.x0 - 1;
    let region = slab(x, p.x0 as int, p.y0 as int, p.y1 as int, p.z0 as int, p.z1 as int);
    lemma_any_empty(chunk.root, region);
    if face_visible(chunk, p, Face::Left, adj) {
        let (a, y, z) = choose|a: int, y: int, z: int|
            chunk.root.pos().contains(a, y, z) && region.contains(a, y, z) && #[trigger] chunk.root.value_at(a, y, z) is None;
        assert(a == x);
        assert(chunk.block_at(x, y, z) is None);
    }
    if exists|y: int, z: int| p.y0 <= y < p.y1 && p.z0 <= z < p.z1 && #[trigger] chunk.block_at(x, y, z) is None {
        let (y, z) = choose|y: int, z: int| p.y0 <= y < p.y1 && p.z0 <= z < p.z1 && #[trigger] chunk.block_at(x, y, z) is None;
        assert(chunk.root.pos().contains(x, y, z) && region.contains(x, y, z) && chunk.root.value_at(x, y, z) is None);
    }
}

/// The grid is air everywhere but at cell `(sx, sy, sz)`, which holds `b`.
pub open spec fn single_block_grid(g: Seq<Option<BlockType>>, sx: int, sy: int, sz: int, b: BlockType) -> bool {
    &&& g.len() == CHUNK_VOLUME
    &&& in_chunk(sx, sy, sz)
    &&& forall|x: int, y: int, z: int|
        in_chunk(x, y, z) ==> #[trigger] grid_cell(g, x, y, z) == if x == sx && y == sy && z == sz {
            Some(b)
        } else {
            None
        }
}

pub open spec fn no_neighbours(adj: AdjacentChunks) -> bool {
    adj.north is None && adj.south is None && adj.east is None && adj.west is None
}

/// Some cell of the slab `r` inside the chunk is air.
proof fn lemma_open_cell(chunk: Chunk, g: Seq<Option<BlockType>>, r: ChunkNodePos, x: int, y: int, z: int)
    requires
        chunk.wf(),
        forall|a: int, b: int, c: int| in_chunk(a, b, c) ==> #[trigger] chunk.root.value_at(a, b, c) == grid_cell(g, a, b, c),
        r.x0 < r.x1 && r.y0 < r.y1 && r.z0 < r.z1,
        r.contains(x, y, z),
        in_chunk(x, y, z),
        grid_cell(g, x, y, z) is None,
    ensures
        chunk.root.any_empty(r),
{
    lemma_any_empty(chunk.root, r);
    assert(chunk.root.pos().contains(x, y, z) && r.contains(x, y, z) && chunk.root.value_at(x, y, z) is None);
}

/// Counts the faces a subtree of a one-block chunk emits: six if its box holds the
/// block, none otherwise.
proof fn lemma_single_block_subtree(
    node: ChunkNode,
    chunk: Chunk,
    adj: AdjacentChunks,
    g: Seq<Option<BlockType>>,
    sx: int,
    sy: int,
    sz: int,
    b: BlockType,
)
    requires
        node.wf(),
        leaves_hold(node, g),
        chunk.wf(),
        forall|a: int, c: int, e: int| in_chunk(a, c, e) ==> #[trigger] chunk.root.value_at(a, c, e) == grid_cell(g, a, c, e),
        single_block_grid(g, sx, sy, sz, b),
        sz > 0,
        no_neighbours(adj),
    ensures
        node_quads(node, chunk, adj).len() == if node.pos().contains(sx, sy, sz) { 6int } else { 0int },
    decreases node,
{
    match node {
        ChunkNode::Leaf(v, p) => {
            let (x0, y0, z0) = (p.x0 as int, p.y0 as int, p.z0 as int);
            let (x1, y1, z1) = (p.x1 as int, p.y1 as int, p.z1 as int);
            assert(p.contains(x0, y0, z0));
            assert(p.contains(x1 - 1, y1 - 1, z1 - 1));
            if p.contains(sx, sy, sz) {
                assert(grid_cell(g, sx, sy, sz) == v);
                assert(grid_cell(g, x0, y0, z0) == v);
                assert(grid_cell(g, x1 - 1, y1 - 1, z1 - 1) == v);
                assert(x0 == sx && y0 == sy && z0 == sz);
                assert(x1 - 1 == sx && y1 - 1 == sy && z1 - 1 == sz);
                let bb = v->Some_0;
                if x0 > 0 {
                    lemma_open_cell(chunk, g, slab(x0 - 1, x0, y0, y1, z0, z1), x0 - 1, y0, z0);
                }
                if x1 < 16 {
                    lemma_open_cell(chunk, g, slab(x1, x1 + 1, y0, y1, z0, z1), x1, y0, z0);
                }
                if y1 < 16 {
                    lemma_open_cell(chunk, g, slab(x0, x1, y1, y1 + 1, z0, z1), x0, y1, z0);
                }
                if y0 > 0 {
                    lemma_open_cell(chunk, g, slab(x0, x1, y0 - 1, y0, z0, z1), x0, y0 - 1, z0);
                }
                if z1 < 256 {
                    lemma_open_cell(chunk, g, slab(x0, x1, y0, y1, z1, z1 + 1), x0, y0, z1);
                }
                lemma_open_cell(chunk, g, slab(x0, x1, y0, y1, z0 - 1, z0), x0, y0, z0 - 1);
                assert(face_visible(chunk, p, Face::Top, adj));
                assert(face_visible(chunk, p, Face::Bottom, adj));
                assert(face_visible(chunk, p, Face::Left, adj));
                assert(face_visible(chunk, p, Face::Right, adj));
                assert(face_visible(chunk, p, Face::Front, adj));
                assert(face_visible(chunk, p, Face::Back, adj));
                assert(leaf_quads(chunk, adj, bb, p, 0).len() == 0);
                assert(leaf_quads(chunk, adj, bb, p, 1).len() == 1);
                assert(leaf_quads(chunk, adj, bb, p, 2).len() == 2);
                assert(leaf_quads(chunk, adj, bb, p, 3).len() == 3);
                assert(leaf_quads(chunk, adj, bb, p, 4).len() == 4);
                assert(leaf_quads(chunk, adj, bb, p, 5).len() == 5);
                assert(leaf_quads(chunk, adj, bb, p, 6).len() == 6);
            } else {
                assert(grid_cell(g, x0, y0, z0) == v);
            }
        },
        ChunkNode::Inner(a, c, d, p) => {
            lemma_single_block_subtree(*a, chunk, adj, g, sx, sy, sz, b);
            lemma_single_block_subtree(*c, chunk, adj, g, sx, sy, sz, b);
        },
    }
}

/// A chunk holding a single block, above the world's floor, with no neighbours
/// loaded, meshes as the six faces of that block: 24 vertices and 36 indices.
pub proof fn lemma_single_block_mesh(
    chunk: Chunk,
    adj: AdjacentChunks,
    g: Seq<Option<BlockType>>,
    sx: int,
    sy: int,
    sz: int,
    b: BlockType,
    vertices: Seq<MeshVertex>,
    indices: Seq<u16>,
)
    requires
        single_block_grid(g, sx, sy, sz, b),
        sz > 0,
        chunk.root == build_tree(g, full_box()),
        no_neighbours(adj),
        is_chunk_mesh(chunk, adj, vertices, indices),
    ensures
        node_quads(chunk.root, chunk, adj).len() == 6,
        vertices.len() == 24,
        indices.len() == 36,
{
    lemma_build_tree(g, full_box());
    lemma_build_leaves_hold(g, full_box());
    assert forall|a: int, c: int, e: int| in_chunk(a, c, e) implies #[trigger] chunk.root.value_at(a, c, e)
        == grid_cell(g, a, c, e) by {
        assert(full_box().contains(a, c, e));
    }
    lemma_single_block_subtree(chunk.root, chunk, adj, g, sx, sy, sz, b);
}

} // verus!
