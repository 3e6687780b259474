//! The GPU resource model: buffer objects and linked programs as the renderer
//! sees them. Binding a mesh uploads its four attribute arrays into four
//! fresh buffers and yields an opaque handle set; the data is never touched
//! again from the CPU side, so the model keeps it verbatim and readable back.
use crate::mesh::Mesh;
use vstd::prelude::*;

verus! {

/// The contents of one buffer object: a tightly packed array of
/// single-precision values (as bit patterns), or of 16-bit indices.
pub enum BufferData {
    FloatBits(Vec<u32>),
    Indices(Vec<u16>),
}

/// The mathematical picture of a buffer's contents.
pub enum BufView {
    Floats(Seq<u32>),
    Tris(Seq<u16>),
}

impl View for BufferData {
    type V = BufView;

    open spec fn view(&self) -> BufView {
        match self {
            BufferData::FloatBits(v) => BufView::Floats(v@),
            BufferData::Indices(v) => BufView::Tris(v@),
        }
    }
}

/// The source pair a linked program was built from.
pub struct ProgramSources {
    pub vertex: String,
    pub fragment: String,
}

/// The GPU context's resource state: every allocated buffer with its
/// uploaded contents, and every linked program with its stage sources.
/// Handles are indices into these tables; they are never recycled, matching
/// a process whose resources live until teardown.
pub struct GpuModel {
    pub buffers: Vec<BufferData>,
    pub programs: Vec<ProgramSources>,
}

impl GpuModel {
    /// What each allocated buffer holds.
    pub open spec fn buffer_views(&self) -> Seq<BufView> {
        self.buffers@.map_values(|d: BufferData| d@)
    }

    pub fn new() -> (g: GpuModel)
        ensures
            g.buffer_views() == Seq::<BufView>::empty(),
            g.programs@ == Seq::<ProgramSources>::empty(),
    {
        let g = GpuModel { buffers: Vec::new(), programs: Vec::new() };
        proof {
            assert(g.buffer_views() =~= Seq::<BufView>::empty());
        }
        g
    }

    /// Allocates one buffer and uploads `data` into it; the returned handle
    /// names exactly that data, which no later upload disturbs.
    pub fn upload(&mut self, data: BufferData) -> (id: u32)
        requires
            old(self).buffers@.len() < u32::MAX,
        ensures
            id as int == old(self).buffer_views().len(),
            final(self).buffers@.len() == old(self).buffers@.len() + 1,
            final(self).buffer_views() == old(self).buffer_views().push(data@),
            final(self).programs@ == old(self).programs@,
    {
        let id = self.buffers.len() as u32;
        let ghost before = self.buffer_views();
        let ghost dv = data@;
        self.buffers.push(data);
        proof {
            assert(self.buffer_views() =~= before.push(dv));
        }
        id
    }

    /// Reads a buffer's contents back; a handle from `upload` always reads
    /// back what was uploaded.
    pub fn read_buffer(&self, id: u32) -> (r: Option<&BufferData>)
        ensures
            match r {
                Some(d) => id < self.buffer_views().len() && d@ == self.buffer_views()[id as int],
                None => id >= self.buffer_views().len(),
            },
    {
        if (id as usize) < self.buffers.len() {
            Some(&self.buffers[id as usize])
        } else {
            None
        }
    }
}

/// The handle set of a mesh whose arrays live on the GPU: four buffer
/// handles plus the count of indices to draw. The raw arrays are no longer
/// needed once this exists.
#[derive(Clone, Copy, PartialEq, Eq, Debug)]
pub struct BoundMesh {
    pub num_indices: u16,
    pub vertex_buffer: u32,
    pub normal_buffer: u32,
    pub color_buffer: u32,
    pub index_buffer: u32,
}

impl BoundMesh {
    pub fn new(
        num_indices: u16,
        vertex_buffer: u32,
        normal_buffer: u32,
        color_buffer: u32,
        index_buffer: u32,
    ) -> (r: BoundMesh)
        ensures
            r.num_indices == num_indices,
            r.vertex_buffer == vertex_buffer,
            r.normal_buffer == normal_buffer,
            r.color_buffer == color_buffer,
            r.index_buffer == index_buffer,
    {
        BoundMesh { num_indices, vertex_buffer, normal_buffer, color_buffer, index_buffer }
    }
}

fn clone_u32s(v: &Vec<u32>) -> (r: Vec<u32>)
    ensures
        r@ == v@,
{
    let mut r: Vec<u32> = Vec::new();
    let mut i: usize = 0;
    while i < v.len()
        invariant
            i <= v@.len(),
            r@ == v@.take(i as int),
        decreases v@.len() - i,
    {
        r.push(v[i]);
        proof {
            assert(r@ =~= v@.take(i as int + 1));
        }
        i += 1;
    }
    proof {
        assert(v@.take(v@.len() as int) =~= v@);
    }
    r
}

fn clone_u16s(v: &Vec<u16>) -> (r: Vec<u16>)
    ensures
        r@ == v@,
{
    let mut r: Vec<u16> = Vec::new();
    let mut i: usize = 0;
    while i < v.len()
        invariant
            i <= v@.len(),
            r@ == v@.take(i as int),
        decreases v@.len() - i,
    {
        r.push(v[i]);
        proof {
            assert(r@ =~= v@.take(i as int + 1));
        }
        i += 1;
    }
    proof {
        assert(v@.take(v@.len() as int) =~= v@);
    }
    r
}

/// Uploads a mesh's four attribute arrays into four fresh buffers — vertex,
/// normal, color, index, in that order — and returns the bound handle set.
/// The uploaded contents are exactly the mesh's arrays, and the triangle
/// index count is exactly the length of the index array.
pub fn bind<M: Mesh>(mesh: &M, gpu: &mut GpuModel) -> (bm: BoundMesh)
    requires
        mesh.spec_indices().len() <= 0xFFFF,
        old(gpu).buffers@.len() + 4 <= u32::MAX,
    ensures
        final(gpu).buffer_views() == old(gpu).buffer_views() + seq![
            BufView::Floats(mesh.spec_vertices()),
            BufView::Floats(mesh.spec_normals()),
            BufView::Floats(mesh.spec_colors()),
            BufView::Tris(mesh.spec_indices()),
        ],
        final(gpu).programs@ == old(gpu).programs@,
        bm.vertex_buffer as int == old(gpu).buffer_views().len(),
        bm.normal_buffer as int == old(gpu).buffer_views().len() + 1,
        bm.color_buffer as int == old(gpu).buffer_views().len() + 2,
        bm.index_buffer as int == old(gpu).buffer_views().len() + 3,
        bm.num_indices == mesh.spec_indices().len(),
{
    let vertices = clone_u32s(mesh.vertices());
    let normals = clone_u32s(mesh.normals());
    let colors = clone_u32s(mesh.colors());
    let indices = clone_u16s(mesh.indices());
    let count = mesh.indices().len() as u16;
    let vb = gpu.upload(BufferData::FloatBits(vertices));
    let nb = gpu.upload(BufferData::FloatBits(normals));
    let cb = gpu.upload(BufferData::FloatBits(colors));
    let ib = gpu.upload(BufferData::Indices(indices));
    proof {
        assert(final(gpu).buffer_views() =~= old(gpu).buffer_views() + seq![
            BufView::Floats(mesh.spec_vertices()),
            BufView::Floats(mesh.spec_normals()),
            BufView::Floats(mesh.spec_colors()),
            BufView::Tris(mesh.spec_indices()),
        ]);
    }
    BoundMesh::new(count, vb, nb, cb, ib)
}

/// The shader component: a handle to one linked program. Attribute and
/// uniform locations are resolved by the host context against this program;
/// the scheduler takes them as plain values.
pub struct Shader {
    pub program: u32,
}

impl Shader {
    /// Links the two stage sources into one program in the resource model and
    /// hands back its handle. Stage compile or link diagnostics go to the
    /// host's observability sink and never abort: a broken program renders
    /// nothing rather than crashing.
    pub fn new(gpu: &mut GpuModel, vertex_code: String, fragment_code: String) -> (r: Shader)
        requires
            old(gpu).programs@.len() < u32::MAX,
        ensures
            r.program as int == old(gpu).programs@.len(),
            final(gpu).programs@ == old(gpu).programs@.push(
                ProgramSources { vertex: vertex_code, fragment: fragment_code },
            ),
            final(gpu).buffers@ == old(gpu).buffers@,
    {
        let program = gpu.programs.len() as u32;
        gpu.programs.push(ProgramSources { vertex: vertex_code, fragment: fragment_code });
        Shader { program }
    }
}

/// Reading back any of the four buffers that binding a mesh allocated yields
/// exactly the attribute array that was uploaded: the round trip over the
/// resource model loses nothing.
pub proof fn lemma_bind_round_trip(
    before: Seq<BufView>,
    after: Seq<BufView>,
    vs: Seq<u32>,
    ns: Seq<u32>,
    cs: Seq<u32>,
    is: Seq<u16>,
)
    requires
        after == before + seq![
            BufView::Floats(vs),
            BufView::Floats(ns),
            BufView::Floats(cs),
            BufView::Tris(is),
        ],
    ensures
        after[before.len() as int] == BufView::Floats(vs),
        after[before.len() as int + 1] == BufView::Floats(ns),
        after[before.len() as int + 2] == BufView::Floats(cs),
        after[before.len() as int + 3] == BufView::Tris(is),
{
}

} // verus!
