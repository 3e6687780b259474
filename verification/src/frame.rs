//! The frame scheduler: the continuously self-rescheduling render loop body.
//! Each invocation advances the transform state and emits, as data, the exact
//! ordered sequence of GPU commands the host must issue — clear and depth
//! setup, per-mesh buffer binds, uniform uploads and indexed draws — ending
//! with the request to schedule the next invocation. The host performs the
//! commands; the scheduler never blocks and never runs two frames at once.
use crate::camera::{
    rotation_needed, spec_identity, spec_math_request, spec_view_matrix, CameraTransformState,
    FrameMath, Mat4, MathResult,
};
use crate::gpu::{BoundMesh, Shader};
use crate::input::InputState;
use crate::mesh::{F_ONE, F_ZERO};
use vstd::prelude::*;

verus! {

/// One GPU command of a frame, with every operand it needs. Color and depth
/// operands are single-precision bit patterns.
#[derive(Clone, Copy, PartialEq, Eq, Debug)]
pub enum GlCommand {
    /// Turn depth testing on.
    EnableDepthTest,
    /// Compare depths with closer-or-equal.
    DepthFuncLessEqual,
    /// Set the clear color (red, green, blue, alpha).
    ClearColor(u32, u32, u32, u32),
    /// Set the clear depth.
    ClearDepth(u32),
    /// Cull both faces, as this viewer's draw pass configures.
    CullFaceFrontAndBack,
    /// Size the viewport to the canvas extent.
    Viewport(u32, u32),
    /// Clear the color and depth buffers.
    ClearColorAndDepthBuffers,
    /// Select the linked program.
    UseProgram(u32),
    /// Enable one vertex attribute array by location.
    EnableVertexAttrib(u32),
    /// Bind a buffer handle as the array buffer.
    BindArrayBuffer(u32),
    /// Point the attribute at the bound buffer: three float components,
    /// tightly packed.
    VertexAttribPointerVec3(u32),
    /// Upload a matrix to a uniform location.
    UniformMatrix4(u32, Mat4),
    /// Bind a buffer handle as the element (index) buffer.
    BindElementBuffer(u32),
    /// Draw that many indices as a triangle list.
    DrawTriangles(u16),
    /// Ask the host to invoke the scheduler again on the next frame.
    Reschedule,
}

/// Where the loop stands: constructed but not yet started, or continuously
/// self-rescheduling. It only ever leaves `Running` when the host tears the
/// context down.
#[derive(Clone, Copy, PartialEq, Eq, Structural, Debug)]
pub enum Phase {
    Idle,
    Running,
}

/// The render loop's state: the transform state, the program and its six
/// resolved locations (three attributes, three matrix uniforms), and the
/// bound meshes in draw order.
pub struct FrameScheduler {
    pub phase: Phase,
    pub camera: CameraTransformState,
    pub program: u32,
    pub position: u32,
    pub normal: u32,
    pub color: u32,
    pub p_matrix: u32,
    pub v_matrix: u32,
    pub m_matrix: u32,
    pub meshes: Vec<BoundMesh>,
}

/// The eleven commands that draw one bound mesh: bind each attribute buffer
/// to its location, upload the three matrices, bind the index buffer, draw.
pub open spec fn spec_draw_commands(
    s: FrameScheduler,
    proj: Mat4,
    model: Mat4,
    bm: BoundMesh,
) -> Seq<GlCommand> {
    seq![
        GlCommand::BindArrayBuffer(bm.vertex_buffer),
        GlCommand::VertexAttribPointerVec3(s.position),
        GlCommand::BindArrayBuffer(bm.color_buffer),
        GlCommand::VertexAttribPointerVec3(s.color),
        GlCommand::BindArrayBuffer(bm.normal_buffer),
        GlCommand::VertexAttribPointerVec3(s.normal),
        GlCommand::UniformMatrix4(s.p_matrix, proj),
        GlCommand::UniformMatrix4(s.v_matrix, s.camera.view),
        GlCommand::UniformMatrix4(s.m_matrix, model),
        GlCommand::BindElementBuffer(bm.index_buffer),
        GlCommand::DrawTriangles(bm.num_indices),
    ]
}

/// The draw commands of a run of meshes, in draw order.
pub open spec fn spec_draws(
    s: FrameScheduler,
    proj: Mat4,
    model: Mat4,
    ms: Seq<BoundMesh>,
) -> Seq<GlCommand>
    decreases ms.len(),
{
    if ms.len() == 0 {
        seq![]
    } else {
        spec_draw_commands(s, proj, model, ms[0]) + spec_draws(s, proj, model, ms.drop_first())
    }
}

proof fn lemma_draws_snoc(s: FrameScheduler, proj: Mat4, model: Mat4, ms: Seq<BoundMesh>, bm: BoundMesh)
    ensures
        spec_draws(s, proj, model, ms.push(bm)) == spec_draws(s, proj, model, ms)
            + spec_draw_commands(s, proj, model, bm),
    decreases ms.len(),
{
    let lhs = spec_draws(s, proj, model, ms.push(bm));
    assert(ms.push(bm).len() == ms.len() + 1);
    if ms.len() == 0 {
        assert(ms.push(bm)[0] == bm);
        assert(ms.push(bm).drop_first() =~= Seq::<BoundMesh>::empty());
        assert(lhs == spec_draw_commands(s, proj, model, bm) + spec_draws(
            s,
            proj,
            model,
            ms.push(bm).drop_first(),
        ));
        assert(spec_draws(s, proj, model, Seq::<BoundMesh>::empty()) == Seq::<GlCommand>::empty());
        assert(spec_draws(s, proj, model, ms) == Seq::<GlCommand>::empty());
        assert(lhs =~= spec_draws(s, proj, model, ms) + spec_draw_commands(s, proj, model, bm));
    } else {
        assert(ms.push(bm)[0] == ms[0]);
        assert(ms.push(bm).drop_first() =~= ms.drop_first().push(bm));
        assert(lhs == spec_draw_commands(s, proj, model, ms[0]) + spec_draws(
            s,
            proj,
            model,
            ms.push(bm).drop_first(),
        ));
        lemma_draws_snoc(s, proj, model, ms.drop_first(), bm);
        assert(spec_draws(s, proj, model, ms) == spec_draw_commands(s, proj, model, ms[0])
            + spec_draws(s, proj, model, ms.drop_first()));
        assert(lhs =~= spec_draws(s, proj, model, ms) + spec_draw_commands(s, proj, model, bm));
    }
}

/// The eleven commands that open every frame: depth and cull configuration,
/// clear state, viewport, clear, program selection, and the three attribute
/// enables.
pub open spec fn spec_frame_prefix(s: FrameScheduler, width: u32, height: u32) -> Seq<GlCommand> {
    seq![
        GlCommand::EnableDepthTest,
        GlCommand::DepthFuncLessEqual,
        GlCommand::ClearColor(F_ZERO, F_ZERO, F_ZERO, F_ONE),
        GlCommand::ClearDepth(F_ONE),
        GlCommand::CullFaceFrontAndBack,
        GlCommand::Viewport(width, height),
        GlCommand::ClearColorAndDepthBuffers,
        GlCommand::UseProgram(s.program),
        GlCommand::EnableVertexAttrib(s.position),
        GlCommand::EnableVertexAttrib(s.color),
        GlCommand::EnableVertexAttrib(s.normal),
    ]
}

/// Everything one frame issues: the opening configuration, each mesh's draw
/// commands in order, and the self-rescheduling request last.
pub open spec fn spec_frame_commands(
    s: FrameScheduler,
    width: u32,
    height: u32,
    proj: Mat4,
    model: Mat4,
) -> Seq<GlCommand> {
    spec_frame_prefix(s, width, height) + spec_draws(s, proj, model, s.meshes@) + seq![
        GlCommand::Reschedule,
    ]
}

impl FrameScheduler {
    /// Builds the loop around a linked program, its six resolved locations,
    /// and the meshes to draw; the transform state starts at the identity
    /// model, the fixed back-translated view, and a previous timestamp of
    /// zero. The loop starts idle.
    pub fn new(
        shader: &Shader,
        position: u32,
        normal: u32,
        color: u32,
        p_matrix: u32,
        v_matrix: u32,
        m_matrix: u32,
        meshes: Vec<BoundMesh>,
    ) -> (s: FrameScheduler)
        ensures
            s.phase == Phase::Idle,
            s.camera.time_old == 0,
            s.camera.model == spec_identity(),
            s.camera.view == spec_view_matrix(),
            s.program == shader.program,
            s.position == position,
            s.normal == normal,
            s.color == color,
            s.p_matrix == p_matrix,
            s.v_matrix == v_matrix,
            s.m_matrix == m_matrix,
            s.meshes@ == meshes@,
    {
        FrameScheduler {
            phase: Phase::Idle,
            camera: CameraTransformState::new(),
            program: shader.program,
            position,
            normal,
            color,
            p_matrix,
            v_matrix,
            m_matrix,
            meshes,
        }
    }

    /// Hands the loop to the host's frame-callback primitive: from here on it
    /// reschedules itself every frame.
    pub fn start(&mut self)
        ensures
            final(self).phase == Phase::Running,
            final(self).camera == old(self).camera,
            final(self).program == old(self).program,
            final(self).position == old(self).position,
            final(self).normal == old(self).normal,
            final(self).color == old(self).color,
            final(self).p_matrix == old(self).p_matrix,
            final(self).v_matrix == old(self).v_matrix,
            final(self).m_matrix == old(self).m_matrix,
            final(self).meshes@ == old(self).meshes@,
    {
        self.phase = Phase::Running;
    }

    /// What the host must evaluate before the frame at `time` can be drawn.
    pub fn math_request(&self, time: u64, keys: &InputState, width: u32, height: u32) -> (r:
        FrameMath)
        ensures
            r == spec_math_request(self.camera, time, *keys, width, height),
    {
        self.camera.math_request(time, keys, width, height)
    }

    /// One frame: advances the transform state with the host's evaluated
    /// matrices — the model moves exactly when some key rate is nonzero,
    /// stays put bit for bit otherwise — and returns the exact command
    /// sequence the host must issue, ending with the reschedule request.
    pub fn step(&mut self, time: u64, keys: &InputState, width: u32, height: u32, math: &MathResult) -> (cmds: Vec<GlCommand>)
        requires
            old(self).phase == Phase::Running,
        ensures
            final(self).phase == Phase::Running,
            final(self).camera.view == old(self).camera.view,
            final(self).camera.time_old == time,
            final(self).camera.proj == math.projection,
            rotation_needed(*keys) ==> final(self).camera.model == math.rotated_model,
            !rotation_needed(*keys) ==> final(self).camera.model == old(self).camera.model,
            final(self).program == old(self).program,
            final(self).position == old(self).position,
            final(self).normal == old(self).normal,
            final(self).color == old(self).color,
            final(self).p_matrix == old(self).p_matrix,
            final(self).v_matrix == old(self).v_matrix,
            final(self).m_matrix == old(self).m_matrix,
            final(self).meshes@ == old(self).meshes@,
            cmds@ == spec_frame_commands(
                *old(self),
                width,
                height,
                math.projection,
                final(self).camera.model,
            ),
    {
        self.camera.apply(time, keys, math);
        let ghost s0 = *old(self);
        let ghost model = self.camera.model;
        let proj = math.projection;
        let mut cmds: Vec<GlCommand> = Vec::new();
        cmds.push(GlCommand::EnableDepthTest);
        cmds.push(GlCommand::DepthFuncLessEqual);
        cmds.push(GlCommand::ClearColor(F_ZERO, F_ZERO, F_ZERO, F_ONE));
        cmds.push(GlCommand::ClearDepth(F_ONE));
        cmds.push(GlCommand::CullFaceFrontAndBack);
        cmds.push(GlCommand::Viewport(width, height));
        cmds.push(GlCommand::ClearColorAndDepthBuffers);
        cmds.push(GlCommand::UseProgram(self.program));
        cmds.push(GlCommand::EnableVertexAttrib(self.position));
        cmds.push(GlCommand::EnableVertexAttrib(self.color));
        cmds.push(GlCommand::EnableVertexAttrib(self.normal));
        proof {
            assert(cmds@ =~= spec_frame_prefix(s0, width, height));
        }
        let ghost prefix = cmds@;
        let mut mi: usize = 0;
        proof {
            assert(self.meshes@.take(0) =~= Seq::<BoundMesh>::empty());
            assert(prefix + seq![] =~= prefix);
        }
        while mi < self.meshes.len()
            invariant
                mi <= self.meshes@.len(),
                self.meshes@ == s0.meshes@,
                self.camera.view == s0.camera.view,
                self.camera.model == model,
                self.position == s0.position,
                self.normal == s0.normal,
                self.color == s0.color,
                self.p_matrix == s0.p_matrix,
                self.v_matrix == s0.v_matrix,
                self.m_matrix == s0.m_matrix,
                cmds@ == prefix + spec_draws(s0, proj, model, self.meshes@.take(mi as int)),
            decreases self.meshes@.len() - mi,
        {
            let bm = self.meshes[mi];
            cmds.push(GlCommand::BindArrayBuffer(bm.vertex_buffer));
            cmds.push(GlCommand::VertexAttribPointerVec3(self.position));
            cmds.push(GlCommand::BindArrayBuffer(bm.color_buffer));
            cmds.push(GlCommand::VertexAttribPointerVec3(self.color));
            cmds.push(GlCommand::BindArrayBuffer(bm.normal_buffer));
            cmds.push(GlCommand::VertexAttribPointerVec3(self.normal));
            cmds.push(GlCommand::UniformMatrix4(self.p_matrix, proj));
            cmds.push(GlCommand::UniformMatrix4(self.v_matrix, self.camera.view));
            cmds.push(GlCommand::UniformMatrix4(self.m_matrix, self.camera.model));
            cmds.push(GlCommand::BindElementBuffer(bm.index_buffer));
            cmds.push(GlCommand::DrawTriangles(bm.num_indices));
            proof {
                lemma_draws_snoc(s0, proj, model, self.meshes@.take(mi as int), bm);
                assert(self.meshes@.take(mi as int).push(bm) =~= self.meshes@.take(mi as int + 1));
                assert(cmds@ =~= prefix + spec_draws(
                    s0,
                    proj,
                    model,
                    self.meshes@.take(mi as int + 1),
                ));
            }
            mi += 1;
        }
        cmds.push(GlCommand::Reschedule);
        proof {
            assert(self.meshes@.take(self.meshes@.len() as int) =~= self.meshes@);
            assert(cmds@ =~= spec_frame_commands(s0, width, height, proj, model));
        }
        cmds
    }
}

} // verus!
