use vstd::prelude::*;

use crate::math::{abs, add3, Int3, Vec3i};
use crate::random::coin_flip;
use crate::render::mesh::{
    all_faces, build_face, face_index, fits_grid, face_normal, face_vertices, lemma_all_faces_enumerates,
    lemma_face_basis_orthonormal, Face,
};
use crate::render::{Vertex, VERTEX_UNIT};
use crate::world::block::BlockType;

verus! {

/// Edge length of a chunk, in voxels.
pub const CHUNK_SIZE: usize = 4;

/// Number of cells in a chunk.
pub const CHUNK_VOLUME: usize = CHUNK_SIZE * CHUNK_SIZE * CHUNK_SIZE;

/// Why a chunk edit was refused.
#[derive(Clone, Copy, Debug, PartialEq, Eq, Structural)]
pub enum ChunkError {
    /// A coordinate lies outside `0..CHUNK_SIZE`.
    OutOfBounds,
}

/// A cube of `CHUNK_SIZE`³ cells, stored with x major and z minor.
pub struct Chunk {
    blocks: Vec<BlockType>,
}

/// Whether every coordinate of `p` lies in `0..CHUNK_SIZE`.
pub open spec fn in_bounds(p: Int3) -> bool {
    &&& 0 <= p.0 < CHUNK_SIZE
    &&& 0 <= p.1 < CHUNK_SIZE
    &&& 0 <= p.2 < CHUNK_SIZE
}

/// Where the cell at an in-bounds position is stored.
pub open spec fn cell_index(p: Int3) -> int {
    p.0 * 16 + p.1 * 4 + p.2
}

/// The position of the cell stored at `i`: the inverse of `cell_index`.
pub open spec fn cell_position(i: int) -> Vec3i {
    Vec3i { x: (i / 16) as i32, y: ((i / 4) % 4) as i32, z: (i % 4) as i32 }
}

/// The vertices of a list of faces of one voxel, face after face.
pub open spec fn faces_mesh(fs: Seq<Face>, pos: Vec3i) -> Seq<Vertex>
    decreases fs.len(),
{
    if fs.len() == 0 {
        seq![]
    } else {
        faces_mesh(fs.drop_last(), pos) + face_vertices(fs.last(), pos)
    }
}

/// An element of `s.push(x)` is `x` or an element of `s`.
proof fn lemma_push_contains<T>(s: Seq<T>, x: T, y: T)
    ensures
        s.push(x).contains(y) <==> (s.contains(y) || y == x),
{
    let q = s.push(x);
    if q.contains(y) {
        let j = choose|j: int| 0 <= j < q.len() && q[j] == y;
        if j < s.len() {
            assert(s[j] == y);
        }
    }
    if s.contains(y) {
        let j = choose|j: int| 0 <= j < s.len() && s[j] == y;
        assert(q[j] == y);
    }
    if y == x {
        assert(q[s.len() as int] == y);
    }
}

impl View for Chunk {
    type V = Seq<BlockType>;

    closed spec fn view(&self) -> Seq<BlockType> {
        self.blocks@
    }
}

impl Chunk {
    pub open spec fn wf(&self) -> bool {
        self@.len() == CHUNK_VOLUME
    }

    /// The cell at `p`, or `None` outside the chunk.
    pub open spec fn sample_at(&self, p: Int3) -> Option<BlockType> {
        if in_bounds(p) {
            Some(self@[cell_index(p)])
        } else {
            None
        }
    }

    /// A neighbour that lets a face show: air, or outside the chunk.
    pub open spec fn open_at(&self, p: Int3) -> bool {
        match self.sample_at(p) {
            None => true,
            Some(b) => b == BlockType::Air,
        }
    }

    /// Face `f` of the cell at `p` is drawn: the cell is solid and the
    /// neighbour across `f` is open.
    pub open spec fn face_visible(&self, p: Int3, f: Face) -> bool {
        &&& self.sample_at(p) matches Some(b) && b.solid()
        &&& self.open_at(add3(p, face_normal(f)))
    }

    /// The visible faces of the cell at `p` among the first `k` faces.
    pub open spec fn visible_prefix(&self, p: Int3, k: int) -> Seq<Face>
        decreases k,
    {
        if k <= 0 {
            seq![]
        } else if self.face_visible(p, all_faces()[k - 1]) {
            self.visible_prefix(p, k - 1).push(all_faces()[k - 1])
        } else {
            self.visible_prefix(p, k - 1)
        }
    }

    /// The visible faces of the cell at `p`, in face order.
    pub open spec fn spec_visible_faces(&self, p: Int3) -> Seq<Face> {
        self.visible_prefix(p, 6)
    }

    /// The mesh of the first `k` cells in storage order.
    pub open spec fn mesh_prefix(&self, k: int) -> Seq<Vertex>
        decreases k,
    {
        if k <= 0 {
            seq![]
        } else {
            let pos = cell_position(k - 1);
            self.mesh_prefix(k - 1) + faces_mesh(self.spec_visible_faces(pos@), pos)
        }
    }

    /// The mesh of the whole chunk.
    pub open spec fn spec_mesh(&self) -> Seq<Vertex> {
        self.mesh_prefix(CHUNK_VOLUME as int)
    }
}

/// Grid positions and storage order correspond one to one.
pub proof fn lemma_cell_index_position(p: Int3)
    requires
        in_bounds(p),
    ensures
        0 <= cell_index(p) < CHUNK_VOLUME,
        cell_position(cell_index(p))@ == p,
{
}

impl Chunk {
    /// A chunk whose every cell holds `block_type`.
    pub fn new_filled(block_type: BlockType) -> (r: Chunk)
        ensures
            r.wf(),
            forall|i: int| 0 <= i < CHUNK_VOLUME ==> r@[i] == block_type,
    {
        let mut blocks: Vec<BlockType> = Vec::new();
        let mut i: usize = 0;
        while i < CHUNK_VOLUME
            invariant
                i <= CHUNK_VOLUME,
                blocks@.len() == i,
                forall|j: int| 0 <= j < i ==> blocks@[j] == block_type,
            decreases CHUNK_VOLUME - i,
        {
            blocks.push(block_type);
            i += 1;
        }
        Chunk { blocks }
    }

    /// A dirt chunk with air in each cell whose flag, in storage order, is set.
    pub fn from_air_flags(flags: &[bool]) -> (r: Chunk)
        requires
            flags@.len() == CHUNK_VOLUME,
        ensures
            r.wf(),
            forall|i: int|
                0 <= i < CHUNK_VOLUME ==> r@[i] == if flags@[i] {
                    BlockType::Air
                } else {
                    BlockType::Dirt
                },
    {
        let mut blocks: Vec<BlockType> = Vec::new();
        let mut i: usize = 0;
        while i < CHUNK_VOLUME
            invariant
                i <= CHUNK_VOLUME,
                flags@.len() == CHUNK_VOLUME,
                blocks@.len() == i,
                forall|j: int|
                    0 <= j < i ==> blocks@[j] == if flags@[j] {
                        BlockType::Air
                    } else {
                        BlockType::Dirt
                    },
            decreases CHUNK_VOLUME - i,
        {
            if flags[i] {
                blocks.push(BlockType::Air);
            } else {
                blocks.push(BlockType::Dirt);
            }
            i += 1;
        }
        Chunk { blocks }
    }

    /// A dirt chunk in which each cell has been turned to air by a coin flip.
    pub fn new() -> (r: Chunk)
        ensures
            r.wf(),
            forall|i: int|
                0 <= i < CHUNK_VOLUME ==> r@[i] == BlockType::Air || r@[i] == BlockType::Dirt,
    {
        let mut flags: Vec<bool> = Vec::new();
        let mut i: usize = 0;
        while i < CHUNK_VOLUME
            invariant
                i <= CHUNK_VOLUME,
                flags@.len() == i,
            decreases CHUNK_VOLUME - i,
        {
            flags.push(coin_flip());
            i += 1;
        }
        Self::from_air_flags(flags.as_slice())
    }

    /// The cell at `vec`, or `None` when a coordinate is outside `0..CHUNK_SIZE`.
    pub fn sample_vec(&self, vec: Vec3i) -> (r: Option<BlockType>)
        requires
            self.wf(),
        ensures
            r == self.sample_at(vec@),
    {
        if vec.x < 0 || vec.x >= CHUNK_SIZE as i32 || vec.y < 0 || vec.y >= CHUNK_SIZE as i32
            || vec.z < 0 || vec.z >= CHUNK_SIZE as i32 {
            None
        } else {
            proof {
                lemma_cell_index_position(vec@);
            }
            let i = (vec.x * 16 + vec.y * 4 + vec.z) as usize;
            Some(self.blocks[i])
        }
    }

    /// Overwrites the cell at `pos`; refused with `OutOfBounds`, and the
    /// chunk left as it was, when a coordinate is outside `0..CHUNK_SIZE`.
    pub fn set(&mut self, pos: Vec3i, block_type: BlockType) -> (r: Result<(), ChunkError>)
        requires
            old(self).wf(),
        ensures
            final(self).wf(),
            in_bounds(pos@) ==> r == Ok::<(), ChunkError>(()) && final(self)@ == old(self)@.update(
                cell_index(pos@),
                block_type,
            ),
            !in_bounds(pos@) ==> r == Err::<(), ChunkError>(ChunkError::OutOfBounds)
                && final(self)@ == old(self)@,
    {
        if pos.x < 0 || pos.x >= CHUNK_SIZE as i32 || pos.y < 0 || pos.y >= CHUNK_SIZE as i32
            || pos.z < 0 || pos.z >= CHUNK_SIZE as i32 {
            Err(ChunkError::OutOfBounds)
        } else {
            proof {
                lemma_cell_index_position(pos@);
            }
            let i = (pos.x * 16 + pos.y * 4 + pos.z) as usize;
            self.blocks.set(i, block_type);
            Ok(())
        }
    }
}

impl Chunk {
    /// A cell that is not solid, or lies outside the chunk, shows no face.
    pub proof fn lemma_no_faces_unless_solid(&self, p: Int3, k: int)
        requires
            !(self.sample_at(p) matches Some(b) && b.solid()),
        ensures
            self.visible_prefix(p, k) == Seq::<Face>::empty(),
        decreases k,
    {
        if k > 0 {
            self.lemma_no_faces_unless_solid(p, k - 1);
        }
    }

    /// The faces of the cell at `pos` that are drawn: none unless the cell
    /// is solid; otherwise each face whose neighbour is air or outside the
    /// chunk, in face order.
    pub fn visible_faces(&self, pos: Vec3i) -> (r: Vec<Face>)
        requires
            self.wf(),
        ensures
            r@ == self.spec_visible_faces(pos@),
    {
        let mut r: Vec<Face> = Vec::new();
        let solid = match self.sample_vec(pos) {
            Some(b) => b.is_solid(),
            None => false,
        };
        if !solid {
            proof {
                self.lemma_no_faces_unless_solid(pos@, 6);
            }
            return r;
        }
        let faces = Face::faces();
        let mut i: usize = 0;
        while i < 6
            invariant
                self.wf(),
                i <= 6,
                faces@ == all_faces(),
                in_bounds(pos@),
                self.sample_at(pos@) matches Some(b) && b.solid(),
                r@ == self.visible_prefix(pos@, i as int),
            decreases 6 - i,
        {
            let face = faces[i];
            let neighbor = pos.add(face.neighbord_dir());
            let open = match self.sample_vec(neighbor) {
                None => true,
                Some(BlockType::Air) => true,
                Some(_) => false,
            };
            if open {
                r.push(face);
            }
            i += 1;
        }
        r
    }

    /// The chunk's mesh: for each cell in storage order (x, then y, then z,
    /// each increasing), the two triangles of each of its visible faces.
    pub fn chunk_vertices(&self) -> (r: Vec<Vertex>)
        requires
            self.wf(),
        ensures
            r@ == self.spec_mesh(),
    {
        let mut vertices: Vec<Vertex> = Vec::new();
        let mut i: usize = 0;
        while i < CHUNK_VOLUME
            invariant
                self.wf(),
                i <= CHUNK_VOLUME,
                vertices@ == self.mesh_prefix(i as int),
            decreases CHUNK_VOLUME - i,
        {
            let pos = Vec3i { x: (i / 16) as i32, y: ((i / 4) % 4) as i32, z: (i % 4) as i32 };
            assert(pos == cell_position(i as int));
            let faces = self.visible_faces(pos);
            let mut j: usize = 0;
            while j < faces.len()
                invariant
                    j <= faces@.len(),
                    0 <= pos.x < 4 && 0 <= pos.y < 4 && 0 <= pos.z < 4,
                    vertices@ == self.mesh_prefix(i as int) + faces_mesh(
                        faces@.take(j as int),
                        pos,
                    ),
                decreases faces@.len() - j,
            {
                build_face(&mut vertices, &faces[j], &pos);
                proof {
                    assert(faces@.take(j + 1).drop_last() =~= faces@.take(j as int));
                    assert(faces@.take(j + 1).last() == faces@[j as int]);
                }
                j += 1;
            }
            assert(faces@.take(faces@.len() as int) =~= faces@);
            i += 1;
        }
        vertices
    }
}

impl Chunk {
    #[verifier::spinoff_prover]
    proof fn lemma_visible_prefix_members(&self, p: Int3, k: int)
        requires
            0 <= k <= 6,
        ensures
            forall|f: Face|
                #[trigger] self.visible_prefix(p, k).contains(f) <==> (self.face_visible(p, f)
                    && face_index(f) < k),
            self.visible_prefix(p, k).no_duplicates(),
        decreases k,
    {
        if k > 0 {
            self.lemma_visible_prefix_members(p, k - 1);
            let prev = self.visible_prefix(p, k - 1);
            let g = all_faces()[k - 1];
            assert(face_index(g) == k - 1);
            if self.face_visible(p, g) {
                assert(self.visible_prefix(p, k) == prev.push(g));
                assert forall|f: Face|
                    #[trigger] self.visible_prefix(p, k).contains(f) <==> (self.face_visible(p, f)
                        && face_index(f) < k) by {
                    lemma_all_faces_enumerates(f);
                    lemma_push_contains(prev, g, f);
                    assert(prev.contains(f) <==> (self.face_visible(p, f) && face_index(f) < k - 1));
                    if face_index(f) == k - 1 {
                        assert(f == g);
                    }
                    if f == g {
                        assert(face_index(f) == k - 1);
                    }
                }
                assert(!prev.contains(g));
                let q = prev.push(g);
                assert forall|a: int, b: int|
                    0 <= a < q.len() && 0 <= b < q.len() && a != b implies q[a] != q[b] by {
                    if a < prev.len() && b < prev.len() {
                    } else if a < prev.len() {
                        assert(prev.contains(q[a]));
                    } else {
                        assert(prev.contains(q[b]));
                    }
                }
            } else {
                assert(self.visible_prefix(p, k) == prev);
                assert forall|f: Face|
                    #[trigger] self.visible_prefix(p, k).contains(f) <==> (self.face_visible(p, f)
                        && face_index(f) < k) by {
                    lemma_all_faces_enumerates(f);
                    assert(prev.contains(f) <==> (self.face_visible(p, f) && face_index(f) < k - 1));
                    if face_index(f) == k - 1 {
                        assert(f == g);
                    }
                }
            }
        } else {
            assert forall|f: Face|
                #[trigger] self.visible_prefix(p, k).contains(f) <==> (self.face_visible(p, f)
                    && face_index(f) < k) by {
                lemma_all_faces_enumerates(f);
            }
        }
    }

    /// Of a cell, each face that is solid on this side and open across
    /// appears exactly once among its visible faces, and no other face does;
    /// a solid cell whose six neighbours are all solid shows no face.
    pub proof fn lemma_visible_faces_exact(&self, p: Int3, f: Face)
        ensures
            self.spec_visible_faces(p).contains(f) <==> self.face_visible(p, f),
            self.spec_visible_faces(p).no_duplicates(),
            (forall|g: Face|
                (#[trigger] self.sample_at(add3(p, face_normal(g)))) matches Some(b) && b.solid())
                ==> self.spec_visible_faces(p).len() == 0,
    {
        self.lemma_visible_prefix_members(p, 6);
        lemma_all_faces_enumerates(f);
        let v = self.spec_visible_faces(p);
        assert((forall|g: Face|
            (#[trigger] self.sample_at(add3(p, face_normal(g)))) matches Some(b) && b.solid())
            ==> v.len() == 0) by {
            if v.len() > 0 {
                let g = v[0];
                assert(v.contains(g));
                assert(self.face_visible(p, g));
                assert(self.open_at(add3(p, face_normal(g))));
            }
        }
    }

    /// `v` belongs to the solid cell it names, and its normal is that of a
    /// visible face of that cell.
    pub open spec fn vertex_of_visible_face(&self, v: Vertex) -> bool {
        &&& in_bounds(v.base_loc@)
        &&& self.sample_at(v.base_loc@) matches Some(b) && b.solid()
        &&& exists|f: Face| face_normal(f) == v.normal@ && self.face_visible(v.base_loc@, f)
    }

    proof fn lemma_faces_mesh_shape(&self, fs: Seq<Face>, pos: Vec3i)
        requires
            forall|f: Face| fs.contains(f) ==> self.face_visible(pos@, f),
        ensures
            faces_mesh(fs, pos).len() == 6 * fs.len(),
            forall|i: int|
                0 <= i < faces_mesh(fs, pos).len() ==> (#[trigger] faces_mesh(fs, pos)[i]).base_loc
                    == pos && self.vertex_of_visible_face(faces_mesh(fs, pos)[i]),
        decreases fs.len(),
    {
        if fs.len() > 0 {
            let init = fs.drop_last();
            assert forall|f: Face| init.contains(f) implies self.face_visible(pos@, f) by {
                let j = choose|j: int| 0 <= j < init.len() && init[j] == f;
                assert(fs[j] == f);
                assert(fs.contains(f));
            }
            self.lemma_faces_mesh_shape(init, pos);
            let last = fs.last();
            assert(fs.contains(last));
            lemma_face_basis_orthonormal(last);
            let m = faces_mesh(fs, pos);
            let a = faces_mesh(init, pos);
            assert(m == a + face_vertices(last, pos));
            assert forall|i: int| 0 <= i < m.len() implies (#[trigger] m[i]).base_loc == pos
                && self.vertex_of_visible_face(m[i]) by {
                if i < a.len() {
                    assert(m[i] == a[i]);
                } else {
                    assert(m[i] == face_vertices(last, pos)[i - a.len()]);
                    assert(m[i].normal@ == face_normal(last));
                    assert(self.face_visible(pos@, last));
                }
            }
        }
    }

    proof fn lemma_mesh_prefix_shape(&self, k: int)
        requires
            self.wf(),
            0 <= k <= CHUNK_VOLUME,
        ensures
            self.mesh_prefix(k).len() % 6 == 0,
            forall|i: int|
                0 <= i < self.mesh_prefix(k).len() ==> self.vertex_of_visible_face(
                    #[trigger] self.mesh_prefix(k)[i],
                ),
        decreases k,
    {
        if k > 0 {
            self.lemma_mesh_prefix_shape(k - 1);
            let pos = cell_position(k - 1);
            let fs = self.spec_visible_faces(pos@);
            self.lemma_visible_prefix_members(pos@, 6);
            self.lemma_faces_mesh_shape(fs, pos);
            let a = self.mesh_prefix(k - 1);
            let b = faces_mesh(fs, pos);
            let m = self.mesh_prefix(k);
            assert(m == a + b);
            assert forall|i: int| 0 <= i < m.len() implies self.vertex_of_visible_face(
                #[trigger] m[i],
            ) by {
                if i < a.len() {
                    assert(m[i] == a[i]);
                } else {
                    assert(m[i] == b[i - a.len()]);
                }
            }
        }
    }

    /// The mesh is made of whole faces (six vertices each), and every vertex
    /// carries the grid position of a solid cell of the chunk together with
    /// the normal of a face of that cell that is visible.
    pub proof fn lemma_mesh_shape(&self)
        requires
            self.wf(),
        ensures
            self.spec_mesh().len() % 6 == 0,
            forall|i: int|
                0 <= i < self.spec_mesh().len() ==> self.vertex_of_visible_face(
                    #[trigger] self.spec_mesh()[i],
                ),
    {
        self.lemma_mesh_prefix_shape(CHUNK_VOLUME as int);
    }

    /// The mesh depends on the cells alone: building it again from a chunk
    /// whose cells have not changed gives the same vertices in the same order.
    pub proof fn lemma_mesh_deterministic(&self, other: &Chunk)
        requires
            self@ == other@,
        ensures
            self.spec_mesh() == other.spec_mesh(),
    {
        assert(self.spec_mesh() =~= other.spec_mesh()) by {
            self.lemma_mesh_prefix_congruent(other, CHUNK_VOLUME as int);
        }
    }

    proof fn lemma_mesh_prefix_congruent(&self, other: &Chunk, k: int)
        requires
            self@ == other@,
        ensures
            self.mesh_prefix(k) == other.mesh_prefix(k),
        decreases k,
    {
        if k > 0 {
            self.lemma_mesh_prefix_congruent(other, k - 1);
            let pos = cell_position(k - 1);
            self.lemma_visible_prefix_congruent(other, pos@, 6);
        }
    }

    proof fn lemma_visible_prefix_congruent(&self, other: &Chunk, p: Int3, k: int)
        requires
            self@ == other@,
        ensures
            self.visible_prefix(p, k) == other.visible_prefix(p, k),
        decreases k,
    {
        if k > 0 {
            self.lemma_visible_prefix_congruent(other, p, k - 1);
        }
    }
}

/// The triangles of a list of (cell, face) quads, quad after quad.
pub open spec fn pairs_mesh(ps: Seq<(Vec3i, Face)>) -> Seq<Vertex>
    decreases ps.len(),
{
    if ps.len() == 0 {
        seq![]
    } else {
        pairs_mesh(ps.drop_last()) + face_vertices(ps.last().1, ps.last().0)
    }
}

proof fn lemma_pairs_mesh_append(a: Seq<(Vec3i, Face)>, b: Seq<(Vec3i, Face)>)
    ensures
        pairs_mesh(a + b) == pairs_mesh(a) + pairs_mesh(b),
    decreases b.len(),
{
    if b.len() == 0 {
        assert(a + b =~= a);
        assert(pairs_mesh(a) + pairs_mesh(b) =~= pairs_mesh(a));
    } else {
        lemma_pairs_mesh_append(a, b.drop_last());
        assert((a + b).drop_last() =~= a + b.drop_last());
        assert((a + b).last() == b.last());
        assert(pairs_mesh(a + b) =~= pairs_mesh(a) + pairs_mesh(b));
    }
}

proof fn lemma_faces_mesh_as_pairs(fs: Seq<Face>, pos: Vec3i)
    ensures
        faces_mesh(fs, pos) == pairs_mesh(fs.map_values(|f: Face| (pos, f))),
    decreases fs.len(),
{
    if fs.len() > 0 {
        lemma_faces_mesh_as_pairs(fs.drop_last(), pos);
        assert(fs.map_values(|f: Face| (pos, f)).drop_last() =~= fs.drop_last().map_values(
            |f: Face| (pos, f),
        ));
    } else {
        assert(fs.map_values(|f: Face| (pos, f)) =~= Seq::<(Vec3i, Face)>::empty());
    }
}

/// Quad `j` of `pairs_mesh(ps)` is the two triangles of `ps[j]`.
proof fn lemma_pairs_mesh_quads(ps: Seq<(Vec3i, Face)>)
    ensures
        pairs_mesh(ps).len() == 6 * ps.len(),
        forall|j: int|
            0 <= j < ps.len() ==> pairs_mesh(ps).subrange(6 * j, 6 * j + 6) == face_vertices(
                (#[trigger] ps[j]).1,
                ps[j].0,
            ),
    decreases ps.len(),
{
    if ps.len() > 0 {
        let init = ps.drop_last();
        lemma_pairs_mesh_quads(init);
        let m = pairs_mesh(ps);
        let a = pairs_mesh(init);
        assert(m == a + face_vertices(ps.last().1, ps.last().0));
        assert forall|j: int| 0 <= j < ps.len() implies m.subrange(6 * j, 6 * j + 6)
            == face_vertices((#[trigger] ps[j]).1, ps[j].0) by {
            if j < init.len() {
                assert(init[j] == ps[j]);
                assert(m.subrange(6 * j, 6 * j + 6) =~= a.subrange(6 * j, 6 * j + 6));
            } else {
                assert(m.subrange(6 * j, 6 * j + 6) =~= face_vertices(ps.last().1, ps.last().0));
            }
        }
    }
}

impl Chunk {
    /// The visible faces of the cell at `pos`, each paired with the cell.
    pub open spec fn cell_quads(&self, pos: Vec3i) -> Seq<(Vec3i, Face)> {
        self.spec_visible_faces(pos@).map_values(|f: Face| (pos, f))
    }

    /// The quads of the first `k` cells in storage order.
    pub open spec fn quads_prefix(&self, k: int) -> Seq<(Vec3i, Face)>
        decreases k,
    {
        if k <= 0 {
            seq![]
        } else {
            self.quads_prefix(k - 1) + self.cell_quads(cell_position(k - 1))
        }
    }

    /// Every quad of the chunk's mesh: a visible face with its cell, in
    /// mesh order.
    pub open spec fn spec_quads(&self) -> Seq<(Vec3i, Face)> {
        self.quads_prefix(CHUNK_VOLUME as int)
    }

    proof fn lemma_mesh_prefix_as_pairs(&self, k: int)
        ensures
            self.mesh_prefix(k) == pairs_mesh(self.quads_prefix(k)),
        decreases k,
    {
        if k > 0 {
            self.lemma_mesh_prefix_as_pairs(k - 1);
            let pos = cell_position(k - 1);
            lemma_faces_mesh_as_pairs(self.spec_visible_faces(pos@), pos);
            lemma_pairs_mesh_append(self.quads_prefix(k - 1), self.cell_quads(pos));
        }
    }
}

proof fn lemma_cell_position_index(i: int)
    requires
        0 <= i < CHUNK_VOLUME,
    ensures
        in_bounds(cell_position(i)@),
        cell_index(cell_position(i)@) == i,
{
}

/// An in-bounds grid position is the position of its own storage slot.
proof fn lemma_position_is_cell(q: Vec3i, i: int)
    requires
        0 <= i < CHUNK_VOLUME,
    ensures
        q == cell_position(i) <==> (in_bounds(q@) && cell_index(q@) == i),
{
    lemma_cell_position_index(i);
    if in_bounds(q@) && cell_index(q@) == i {
        lemma_cell_index_position(q@);
        let c = cell_position(i);
        assert(c@ == q@);
        assert(c.x == q.x && c.y == q.y && c.z == q.z);
    }
}

proof fn lemma_concat_contains<T>(a: Seq<T>, b: Seq<T>, x: T)
    ensures
        (a + b).contains(x) <==> (a.contains(x) || b.contains(x)),
{
    let c = a + b;
    if c.contains(x) {
        let j = choose|j: int| 0 <= j < c.len() && c[j] == x;
        if j < a.len() {
            assert(a[j] == x);
        } else {
            assert(b[j - a.len()] == x);
        }
    }
    if a.contains(x) {
        let j = choose|j: int| 0 <= j < a.len() && a[j] == x;
        assert(c[j] == x);
    }
    if b.contains(x) {
        let j = choose|j: int| 0 <= j < b.len() && b[j] == x;
        assert(c[j + a.len()] == x);
    }
}

impl Chunk {
    proof fn lemma_cell_quads_members(&self, pos: Vec3i, q: Vec3i, f: Face)
        ensures
            self.cell_quads(pos).contains((q, f)) <==> (q == pos && self.face_visible(pos@, f)),
            self.cell_quads(pos).no_duplicates(),
    {
        self.lemma_visible_faces_exact(pos@, f);
        let fs = self.spec_visible_faces(pos@);
        let cq = self.cell_quads(pos);
        if cq.contains((q, f)) {
            let j = choose|j: int| 0 <= j < cq.len() && cq[j] == (q, f);
            assert(fs[j] == f);
            assert(fs.contains(f));
        }
        if q == pos && fs.contains(f) {
            let j = choose|j: int| 0 <= j < fs.len() && fs[j] == f;
            assert(cq[j] == (q, f));
        }
        assert forall|a: int, b: int|
            0 <= a < cq.len() && 0 <= b < cq.len() && a != b implies cq[a] != cq[b] by {
            assert(fs[a] != fs[b]);
        }
    }

    #[verifier::spinoff_prover]
    proof fn lemma_quads_prefix_members(&self, k: int)
        requires
            0 <= k <= CHUNK_VOLUME,
        ensures
            forall|q: Vec3i, f: Face|
                #[trigger] self.quads_prefix(k).contains((q, f)) <==> (in_bounds(q@) && cell_index(q@)
                    < k && self.face_visible(q@, f)),
            self.quads_prefix(k).no_duplicates(),
        decreases k,
    {
        if k > 0 {
            self.lemma_quads_prefix_members(k - 1);
            let prev = self.quads_prefix(k - 1);
            let pos = cell_position(k - 1);
            let cq = self.cell_quads(pos);
            let all = self.quads_prefix(k);
            assert(all == prev + cq);
            assert forall|q: Vec3i, f: Face|
                #[trigger] self.quads_prefix(k).contains((q, f)) <==> (in_bounds(q@) && cell_index(q@)
                    < k && self.face_visible(q@, f)) by {
                lemma_concat_contains(prev, cq, (q, f));
                self.lemma_cell_quads_members(pos, q, f);
                lemma_position_is_cell(q, k - 1);
                assert(prev.contains((q, f)) <==> (in_bounds(q@) && cell_index(q@) < k - 1
                    && self.face_visible(q@, f)));
            }
            assert forall|a: int, b: int|
                0 <= a < all.len() && 0 <= b < all.len() && a != b implies all[a] != all[b] by {
                if a < prev.len() && b < prev.len() {
                    assert(all[a] == prev[a] && all[b] == prev[b]);
                } else if a >= prev.len() && b >= prev.len() {
                    self.lemma_cell_quads_members(pos, pos, Face::NegativeX);
                    assert(all[a] == cq[a - prev.len()] && all[b] == cq[b - prev.len()]);
                } else {
                    let (i, j) = if a < prev.len() {
                        (a, b)
                    } else {
                        (b, a)
                    };
                    let x = all[i];
                    let y = all[j];
                    assert(prev.contains(x)) by {
                        assert(prev[i] == x);
                    }
                    assert(cq.contains(y)) by {
                        assert(cq[j - prev.len()] == y);
                    }
                    self.lemma_cell_quads_members(pos, y.0, y.1);
                    lemma_position_is_cell(y.0, k - 1);
                    assert(x == (x.0, x.1));
                    assert(self.quads_prefix(k - 1).contains((x.0, x.1)));
                    assert(cell_index(x.0@) < k - 1);
                }
            }
        } else {
            assert forall|q: Vec3i, f: Face|
                #[trigger] self.quads_prefix(k).contains((q, f)) <==> (in_bounds(q@) && cell_index(q@)
                    < k && self.face_visible(q@, f)) by {
                if in_bounds(q@) {
                    lemma_cell_index_position(q@);
                }
            }
        }
    }
}

impl Chunk {
    /// The mesh is one quad (six vertices) for each visible face of each
    /// cell, and nothing else: quad `j` is the two triangles of face
    /// `spec_quads()[j].1` of the cell at `spec_quads()[j].0`; a (cell, face)
    /// pair is among the quads exactly when that face of that cell is
    /// visible, and no pair appears twice.
    pub proof fn lemma_mesh_quads(&self)
        requires
            self.wf(),
        ensures
            self.spec_mesh().len() == 6 * self.spec_quads().len(),
            forall|j: int|
                0 <= j < self.spec_quads().len() ==> self.spec_mesh().subrange(6 * j, 6 * j + 6)
                    == face_vertices(
                    (#[trigger] self.spec_quads()[j]).1,
                    self.spec_quads()[j].0,
                ),
            forall|q: Vec3i, f: Face|
                #[trigger] self.spec_quads().contains((q, f)) <==> self.face_visible(q@, f),
            self.spec_quads().no_duplicates(),
    {
        self.lemma_mesh_prefix_as_pairs(CHUNK_VOLUME as int);
        lemma_pairs_mesh_quads(self.spec_quads());
        self.lemma_quads_prefix_members(CHUNK_VOLUME as int);
        assert forall|q: Vec3i, f: Face|
            #[trigger] self.spec_quads().contains((q, f)) <==> self.face_visible(q@, f) by {
            if in_bounds(q@) {
                lemma_cell_index_position(q@);
            }
        }
    }

    /// In a chunk whose every cell is solid, a face is visible exactly when
    /// it lies on the chunk's boundary: its cell is inside and the
    /// neighbour across it is outside.
    pub proof fn lemma_full_chunk_shows_boundary(&self, p: Int3, f: Face)
        requires
            self.wf(),
            forall|i: int| 0 <= i < CHUNK_VOLUME ==> (#[trigger] self@[i]).solid(),
        ensures
            self.face_visible(p, f) <==> (in_bounds(p) && !in_bounds(add3(p, face_normal(f)))),
    {
        let q = add3(p, face_normal(f));
        if in_bounds(p) {
            lemma_cell_index_position(p);
            assert(self@[cell_index(p)].solid());
        }
        if in_bounds(q) {
            lemma_cell_index_position(q);
            assert(self@[cell_index(q)].solid());
        }
    }
}

/// Every vertex of a face quad carries the cell's grid position and lies on
/// a corner of the cell's unit cube: half a voxel from the cell's centre
/// along every axis.
pub proof fn lemma_face_corners_on_cell(f: Face, p: Vec3i, r: int)
    requires
        fits_grid(p),
        0 <= r < 6,
    ensures
        ({
            let v = face_vertices(f, p)[r];
            &&& v.base_loc == p
            &&& abs(v.pos.x - VERTEX_UNIT * p.x) == VERTEX_UNIT / 2
            &&& abs(v.pos.y - VERTEX_UNIT * p.y) == VERTEX_UNIT / 2
            &&& abs(v.pos.z - VERTEX_UNIT * p.z) == VERTEX_UNIT / 2
        }),
{
    lemma_face_basis_orthonormal(f);
    assert(VERTEX_UNIT == 40);
    match f {
        Face::NegativeX => {},
        Face::PositiveX => {},
        Face::NegativeY => {},
        Face::PositiveY => {},
        Face::NegativeZ => {},
        Face::PositiveZ => {},
    }
}

} // verus!
