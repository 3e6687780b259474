//! Tests of the mesh sources, the GPU resource model, and the frame
//! scheduler: binding round trips, projection determinism, the degenerate
//! viewport guard, the input-to-rotation mapping, and full frame command
//! sequences.
use plyview::camera::{
    CameraTransformState, Mat4, MathResult, FOVY_DEG_BITS, RATE_SCALE_BITS, VIEW_BACK_BITS,
};
use plyview::frame::{FrameScheduler, GlCommand, Phase};
use plyview::gpu::{bind, BoundMesh, BufferData, GpuModel, Shader};
use plyview::input::{InputState, Key};
use plyview::mesh::{Cube, Mesh};

fn bits(vals: &[f32]) -> Vec<u32> {
    vals.iter().map(|v| v.to_bits()).collect()
}

#[test]
fn named_constants_are_the_documented_values() {
    assert_eq!(VIEW_BACK_BITS, (-6.0f32).to_bits());
    assert_eq!(RATE_SCALE_BITS, (0.001f32).to_bits());
    assert_eq!(FOVY_DEG_BITS, (80.0f32).to_bits());
}

#[test]
fn cube_arrays_match_the_reference_values() {
    let cube = Cube::new();
    let verts: Vec<f32> = vec![
        -1., -1., -1., 1., -1., -1., 1., 1., -1., -1., 1., -1., -1., -1., 1., 1., -1., 1., 1., 1.,
        1., -1., 1., 1., -1., -1., -1., -1., 1., -1., -1., 1., 1., -1., -1., 1., 1., -1., -1., 1.,
        1., -1., 1., 1., 1., 1., -1., 1., -1., -1., -1., -1., -1., 1., 1., -1., 1., 1., -1., -1.,
        -1., 1., -1., -1., 1., 1., 1., 1., 1., 1., 1., -1.,
    ];
    let norms: Vec<f32> = vec![
        0., 0., -1., 0., 0., -1., 0., 0., -1., 0., 0., -1., 0., 0., 1., 0., 0., 1., 0., 0., 1.,
        0., 0., 1., -1., 0., 0., -1., 0., 0., -1., 0., 0., -1., 0., 0., 1., 0., 0., 1., 0., 0.,
        1., 0., 0., 1., 0., 0., 0., -1., 0., 0., -1., 0., 0., -1., 0., 0., -1., 0., 0., 1., 0.,
        0., 1., 0., 0., 1., 0., 0., 1., 0.,
    ];
    let cols: Vec<f32> = vec![
        0.8, 0.5, 1.0, 0.8, 0.5, 1.0, 0.8, 0.5, 1.0, 0.8, 0.5, 1.0, 0.2, 0.2, 0.5, 0.2, 0.2, 0.5,
        0.2, 0.2, 0.5, 0.2, 0.2, 0.5, 0., 0., 0.2, 0., 0., 0.2, 0., 0., 0.2, 0., 0., 0.2, 0.2,
        0., 0., 0.2, 0., 0., 0.2, 0., 0., 0.2, 0., 0., 0.2, 0.2, 0., 0.2, 0.2, 0., 0.2, 0.2, 0.,
        0.2, 0.2, 0., 0., 0.2, 0., 0., 0.2, 0., 0., 0.2, 0., 0., 0.2, 0.,
    ];
    assert_eq!(*cube.vertices(), bits(&verts));
    assert_eq!(*cube.normals(), bits(&norms));
    assert_eq!(*cube.colors(), bits(&cols));
    assert_eq!(
        *cube.indices(),
        vec![
            0u16, 1, 2, 0, 2, 3, 4, 5, 6, 4, 6, 7, 8, 9, 10, 8, 10, 11, 12, 13, 14, 12, 14, 15,
            16, 17, 18, 16, 18, 19, 20, 21, 22, 20, 22, 23,
        ]
    );
    let nv = cube.vertices().len() / 3;
    assert!(cube.indices().iter().all(|&i| (i as usize) < nv));
}

#[test]
fn binding_reads_back_exactly_what_was_uploaded() {
    let cube = Cube::new();
    let mut gpu = GpuModel::new();
    let bm = bind(&cube, &mut gpu);
    assert_eq!(bm.num_indices, 36);
    match gpu.read_buffer(bm.vertex_buffer).unwrap() {
        BufferData::FloatBits(v) => assert_eq!(v, cube.vertices()),
        _ => panic!("vertex buffer holds the wrong kind of data"),
    }
    match gpu.read_buffer(bm.normal_buffer).unwrap() {
        BufferData::FloatBits(v) => assert_eq!(v, cube.normals()),
        _ => panic!("normal buffer holds the wrong kind of data"),
    }
    match gpu.read_buffer(bm.color_buffer).unwrap() {
        BufferData::FloatBits(v) => assert_eq!(v, cube.colors()),
        _ => panic!("color buffer holds the wrong kind of data"),
    }
    match gpu.read_buffer(bm.index_buffer).unwrap() {
        BufferData::Indices(v) => assert_eq!(v, cube.indices()),
        _ => panic!("index buffer holds the wrong kind of data"),
    }
}

#[test]
fn binding_two_meshes_never_aliases_handles() {
    let cube = Cube::new();
    let mut gpu = GpuModel::new();
    let a = bind(&cube, &mut gpu);
    let b = bind(&cube, &mut gpu);
    let handles = [
        a.vertex_buffer, a.normal_buffer, a.color_buffer, a.index_buffer,
        b.vertex_buffer, b.normal_buffer, b.color_buffer, b.index_buffer,
    ];
    for i in 0..8 {
        for j in 0..8 {
            if i != j {
                assert_ne!(handles[i], handles[j]);
            }
        }
    }
}

#[test]
fn bound_mesh_new_keeps_its_fields() {
    let bm = BoundMesh::new(36, 0, 1, 2, 3);
    assert_eq!(bm.num_indices, 36);
    assert_eq!(bm.vertex_buffer, 0);
    assert_eq!(bm.normal_buffer, 1);
    assert_eq!(bm.color_buffer, 2);
    assert_eq!(bm.index_buffer, 3);
}

#[test]
fn shader_new_links_one_program_per_call() {
    let mut gpu = GpuModel::new();
    let s1 = Shader::new(&mut gpu, String::from("vertex stage"), String::from("fragment stage"));
    let s2 = Shader::new(&mut gpu, String::from("v2"), String::from("f2"));
    assert_eq!(s1.program, 0);
    assert_eq!(s2.program, 1);
}

#[test]
fn projection_request_is_idempotent() {
    let cam = CameraTransformState::new();
    let keys = InputState::new();
    let a = cam.math_request(0, &keys, 800, 600);
    let b = cam.math_request(0, &keys, 800, 600);
    assert_eq!(a.projection, b.projection);
    // and it ignores everything but the viewport
    let mut held = InputState::new();
    held.key_down(Key::Left);
    let c = cam.math_request(999, &held, 800, 600);
    assert_eq!(a.projection, c.projection);
    assert_eq!(a.projection.width, 800);
    assert_eq!(a.projection.height, 600);
    assert_eq!(a.projection.fovy_deg, (80.0f32).to_bits());
    assert_eq!(a.projection.near, (1.0f32).to_bits());
    assert_eq!(a.projection.far, (100.0f32).to_bits());
}

#[test]
fn zero_height_viewport_falls_back_to_unit_aspect() {
    let cam = CameraTransformState::new();
    let keys = InputState::new();
    let r = cam.math_request(0, &keys, 800, 0);
    assert_eq!(r.projection.width, 1);
    assert_eq!(r.projection.height, 1);
    // the host's quotient of these operands is exactly one
    assert_eq!(r.projection.width as f32 / r.projection.height as f32, 1.0);
}

#[test]
fn holding_up_alone_requests_pure_pitch() {
    let cam = CameraTransformState::new();
    let mut keys = InputState::new();
    keys.key_down(Key::Up);
    let t16 = 16.0f64.to_bits();
    let r = cam.math_request(t16, &keys, 800, 600);
    let rot = r.rotation.expect("a held key must request a rotation");
    assert_eq!(rot.pitch_rate, 1);
    assert_eq!(rot.yaw_rate, 0);
    assert_eq!(rot.rate_scale, (0.001f32).to_bits());
    assert_eq!(rot.t_new, t16);
    assert_eq!(rot.t_old, 0);
    // the angle the host derives from this request is dt * 0.001 radians
    let dt = (f64::from_bits(rot.t_new) - f64::from_bits(rot.t_old)) as f32;
    let angle = dt * f32::from_bits(rot.rate_scale) * rot.pitch_rate as f32;
    assert_eq!(angle, 16.0f32 * 0.001);
}

#[test]
fn opposing_keys_cancel_to_no_rotation() {
    let cam = CameraTransformState::new();
    let mut keys = InputState::new();
    keys.key_down(Key::Up);
    keys.key_down(Key::Down);
    assert!(cam.math_request(16, &keys, 800, 600).rotation.is_none());
    keys.key_down(Key::Left);
    keys.key_down(Key::Right);
    assert!(cam.math_request(32, &keys, 800, 600).rotation.is_none());
}

#[test]
fn key_events_toggle_single_flags() {
    let mut keys = InputState::new();
    assert!(!keys.up && !keys.down && !keys.left && !keys.right);
    keys.key_down(Key::Up);
    assert!(keys.up && !keys.down && !keys.left && !keys.right);
    keys.key_down(Key::Right);
    assert!(keys.up && keys.right);
    keys.key_down(Key::Up); // key repeat changes nothing
    assert!(keys.up && keys.right && !keys.down && !keys.left);
    keys.key_up(Key::Up);
    assert!(!keys.up && keys.right);
    keys.key_up(Key::Right);
    assert_eq!(keys, InputState::new());
}

fn any_matrix(seed: u32) -> Mat4 {
    let mut m = [0u32; 16];
    for (i, slot) in m.iter_mut().enumerate() {
        *slot = seed.wrapping_add(i as u32).wrapping_mul(2654435761);
    }
    Mat4 { m }
}

#[test]
fn two_idle_frames_leave_the_model_untouched() {
    let mut gpu = GpuModel::new();
    let shader = Shader::new(&mut gpu, String::from("v"), String::from("f"));
    let bm = bind(&Cube::new(), &mut gpu);
    let mut sched = FrameScheduler::new(&shader, 0, 1, 2, 10, 11, 12, vec![bm]);
    let initial_model = sched.camera.model;
    sched.start();
    assert_eq!(sched.phase, Phase::Running);
    let keys = InputState::new();
    for t in [0.0f64, 16.0] {
        let tb = t.to_bits();
        let math = sched.math_request(tb, &keys, 640, 480);
        assert!(math.rotation.is_none());
        // whatever the host hands back as a rotated model is ignored
        let result = MathResult { rotated_model: any_matrix(77), projection: any_matrix(5) };
        let _ = sched.step(tb, &keys, 640, 480, &result);
    }
    assert_eq!(sched.camera.model, initial_model);
    assert_eq!(sched.camera.time_old, 16.0f64.to_bits());
}

#[test]
fn a_held_key_advances_the_model_to_the_host_result() {
    let mut gpu = GpuModel::new();
    let shader = Shader::new(&mut gpu, String::from("v"), String::from("f"));
    let bm = bind(&Cube::new(), &mut gpu);
    let mut sched = FrameScheduler::new(&shader, 0, 1, 2, 10, 11, 12, vec![bm]);
    sched.start();
    let mut keys = InputState::new();
    keys.key_down(Key::Down);
    let rotated = any_matrix(123);
    let result = MathResult { rotated_model: rotated, projection: any_matrix(9) };
    let _ = sched.step(16.0f64.to_bits(), &keys, 640, 480, &result);
    assert_eq!(sched.camera.model, rotated);
}

#[test]
fn frame_emits_the_exact_command_sequence() {
    let mut gpu = GpuModel::new();
    let shader = Shader::new(&mut gpu, String::from("v"), String::from("f"));
    let bm = bind(&Cube::new(), &mut gpu);
    let mut sched = FrameScheduler::new(&shader, 4, 5, 6, 10, 11, 12, vec![bm]);
    sched.start();
    let keys = InputState::new();
    let proj = any_matrix(3);
    let result = MathResult { rotated_model: any_matrix(8), projection: proj };
    let model = sched.camera.model;
    let view = sched.camera.view;
    let cmds = sched.step(0, &keys, 320, 200, &result);
    let expected = vec![
        GlCommand::EnableDepthTest,
        GlCommand::DepthFuncLessEqual,
        GlCommand::ClearColor(0, 0, 0, 1.0f32.to_bits()),
        GlCommand::ClearDepth(1.0f32.to_bits()),
        GlCommand::CullFaceFrontAndBack,
        GlCommand::Viewport(320, 200),
        GlCommand::ClearColorAndDepthBuffers,
        GlCommand::UseProgram(shader.program),
        GlCommand::EnableVertexAttrib(4),
        GlCommand::EnableVertexAttrib(6),
        GlCommand::EnableVertexAttrib(5),
        GlCommand::BindArrayBuffer(bm.vertex_buffer),
        GlCommand::VertexAttribPointerVec3(4),
        GlCommand::BindArrayBuffer(bm.color_buffer),
        GlCommand::VertexAttribPointerVec3(6),
        GlCommand::BindArrayBuffer(bm.normal_buffer),
        GlCommand::VertexAttribPointerVec3(5),
        GlCommand::UniformMatrix4(10, proj),
        GlCommand::UniformMatrix4(11, view),
        GlCommand::UniformMatrix4(12, model),
        GlCommand::BindElementBuffer(bm.index_buffer),
        GlCommand::DrawTriangles(36),
        GlCommand::Reschedule,
    ];
    assert_eq!(cmds, expected);
}

#[test]
fn view_matrix_is_the_fixed_back_translation() {
    let cam = CameraTransformState::new();
    let mut expected = [0u32; 16];
    expected[0] = 1.0f32.to_bits();
    expected[5] = 1.0f32.to_bits();
    expected[10] = 1.0f32.to_bits();
    expected[14] = (-6.0f32).to_bits();
    expected[15] = 1.0f32.to_bits();
    assert_eq!(cam.view.m, expected);
    // the model starts at the identity
    let mut identity = [0u32; 16];
    identity[0] = 1.0f32.to_bits();
    identity[5] = 1.0f32.to_bits();
    identity[10] = 1.0f32.to_bits();
    identity[15] = 1.0f32.to_bits();
    assert_eq!(cam.model.m, identity);
}
