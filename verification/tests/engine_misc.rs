use xastge::render::material::SkyboxMaterial;
use xastge::render::mesh::Mesh;
use xastge::render::texture::TextureHandle;
use xastge::render::{drain_render_error, FrameAction, RenderErrorKind, TransformationType};
use xastge::scene::CliResult;
use xastge::ui::atlas::{atlas_registration, atlas_size, AtlasRegistration};
use xastge::utils::{
    cubemap_face_images, cubemap_face_size, cubemap_faces_of_image, cubemap_faces, CubeFace, CubemapError, CubemapFace, CubemapLayoutError,
};
use xastge::zip3;

#[test]
fn atlas_size_by_font_size() {
    assert_eq!(atlas_size(0), None);
    assert_eq!(atlas_size(1), Some(512));
    assert_eq!(atlas_size(28), Some(512));
    assert_eq!(atlas_size(29), Some(1024));
    assert_eq!(atlas_size(u32::MAX), Some(1024));
}

#[test]
fn zip3_needs_all_three() {
    assert_eq!(zip3(Some(1), Some('a'), Some(true)), Some((1, 'a', true)));
    assert_eq!(zip3(None::<i32>, Some('a'), Some(true)), None);
    assert_eq!(zip3(Some(1), None::<char>, Some(true)), None);
    assert_eq!(zip3(Some(1), Some('a'), None::<bool>), None);
}

#[test]
fn cubemap_face_size_checks_layout() {
    assert_eq!(cubemap_face_size(400, 300), Ok(100));
    assert_eq!(cubemap_face_size(401, 300), Err(CubemapLayoutError::NotGrid { width: 401, height: 300 }));
    assert_eq!(cubemap_face_size(400, 301), Err(CubemapLayoutError::NotGrid { width: 400, height: 301 }));
    assert_eq!(
        cubemap_face_size(400, 600),
        Err(CubemapLayoutError::NotSquare { width: 400, height: 600, face_width: 100, face_height: 200 })
    );
    assert_eq!(cubemap_face_size(0, 0), Ok(0));
}

#[test]
fn cubemap_faces_follow_cross_layout() {
    let faces = cubemap_faces(100);
    assert_eq!(
        faces,
        vec![
            CubemapFace { face: CubeFace::Right, x: 200, y: 100, size: 100 },
            CubemapFace { face: CubeFace::Left, x: 0, y: 100, size: 100 },
            CubemapFace { face: CubeFace::Top, x: 100, y: 0, size: 100 },
            CubemapFace { face: CubeFace::Bottom, x: 100, y: 200, size: 100 },
            CubemapFace { face: CubeFace::Front, x: 100, y: 100, size: 100 },
            CubemapFace { face: CubeFace::Back, x: 300, y: 100, size: 100 },
        ]
    );
    let names: Vec<&str> = faces.iter().map(|f| f.face.name()).collect();
    assert_eq!(names, vec!["right", "left", "top", "bottom", "front", "back"]);
}

#[test]
fn cli_result_from_result() {
    match CliResult::from_result(Ok("scene".to_string())) {
        CliResult::Success(s) => assert_eq!(s, "scene"),
        CliResult::Error(_) => panic!("expected success"),
    }
    match CliResult::from_result(Err(anyhow::Error::msg("bad scene"))) {
        CliResult::Error(e) => assert_eq!(e.to_string(), "bad scene"),
        CliResult::Success(_) => panic!("expected error"),
    }
}

#[test]
fn new_mesh_is_not_uploaded() {
    let mesh = Mesh::new(vec![1u8, 2, 3], vec![0, 1, 2]);
    assert_eq!(mesh.vertices, vec![1, 2, 3]);
    assert_eq!(mesh.indices, vec![0, 1, 2]);
    assert!(mesh.vertex_buffer.is_none());
    assert!(mesh.index_buffer.is_none());
    let empty: Mesh<u8> = Mesh::default();
    assert!(empty.vertices.is_empty() && empty.indices.is_empty());
}

#[test]
fn skybox_material_keeps_cubemap() {
    let handle = TextureHandle(slotmap::KeyData::from_ffi(7));
    let material = SkyboxMaterial::new(handle);
    assert!(material.cubemap == handle);
}

#[test]
fn transformation_type_defaults_to_first_person() {
    assert_eq!(TransformationType::default(), TransformationType::FirstPerson);
}

#[test]
fn window_descriptor_default() {
    let d = xastge::window::WindowDescriptor::default();
    assert_eq!(d.title, "Blank Game");
    assert_eq!(d.width, 800);
    assert_eq!(d.height, 600);
    assert_eq!(d.mode, xastge::window::WindowMode::Windowed);
    assert_eq!(d.cursor_mode, xastge::window::CursorMode::Normal);
}

fn png_of(width: u32, height: u32) -> Vec<u8> {
    let img = image::RgbaImage::from_fn(width, height, |x, y| image::Rgba([x as u8, y as u8, 7, 255]));
    let mut out = std::io::Cursor::new(Vec::new());
    img.write_to(&mut out, image::ImageFormat::Png).unwrap();
    out.into_inner()
}

#[test]
fn cubemap_face_images_cut_each_face() {
    let faces = cubemap_face_images(&png_of(8, 6)).unwrap();
    let order: Vec<CubeFace> = faces.iter().map(|f| f.0).collect();
    assert_eq!(
        order,
        vec![CubeFace::Right, CubeFace::Left, CubeFace::Top, CubeFace::Bottom, CubeFace::Front, CubeFace::Back]
    );
    let corners = [(4, 2), (0, 2), (2, 0), (2, 4), (2, 2), (6, 2)];
    for ((_, png), (cx, cy)) in faces.iter().zip(corners) {
        let face = image::load_from_memory(png).unwrap().to_rgba8();
        assert_eq!(face.dimensions(), (2, 2));
        assert_eq!(face.get_pixel(0, 0).0, [cx, cy, 7, 255]);
        assert_eq!(face.get_pixel(1, 1).0, [cx + 1, cy + 1, 7, 255]);
    }
}

#[test]
fn cubemap_face_images_errors() {
    assert_eq!(cubemap_face_images(&[1, 2, 3]).unwrap_err(), CubemapError::Decode);
    assert_eq!(
        cubemap_face_images(&png_of(7, 6)).unwrap_err(),
        CubemapError::Layout(CubemapLayoutError::NotGrid { width: 7, height: 6 })
    );
    assert_eq!(
        cubemap_face_images(&png_of(8, 9)).unwrap_err(),
        CubemapError::Layout(CubemapLayoutError::NotSquare { width: 8, height: 9, face_width: 2, face_height: 3 })
    );
}

#[test]
fn atlas_registration_decisions() {
    use_atlas_registration();
}

fn use_atlas_registration() {
    assert_eq!(atlas_registration(true, 12), AtlasRegistration::AlreadyExists);
    assert_eq!(atlas_registration(false, 0), AtlasRegistration::InvalidSize);
    assert_eq!(atlas_registration(false, 12), AtlasRegistration::Build { atlas_size: 512 });
    assert_eq!(atlas_registration(false, 40), AtlasRegistration::Build { atlas_size: 1024 });
}

#[test]
fn frame_errors_drain_and_decide() {
    let mut slot = Some(RenderErrorKind::Lost);
    assert_eq!(drain_render_error(&mut slot), FrameAction::ResizeSurface);
    assert_eq!(slot, None);
    assert_eq!(drain_render_error(&mut slot), FrameAction::Continue);
    let mut slot = Some(RenderErrorKind::OutOfMemory);
    assert_eq!(drain_render_error(&mut slot), FrameAction::DropFrame);
    let mut slot = Some(RenderErrorKind::BufferOverflow);
    assert_eq!(drain_render_error(&mut slot), FrameAction::Abort(RenderErrorKind::BufferOverflow));
    assert_eq!(slot, None);
}

#[test]
fn cubemap_faces_of_raw_image() {
    let (w, h) = (8u32, 6u32);
    let mut pixels = Vec::new();
    for y in 0..h {
        for x in 0..w {
            pixels.extend_from_slice(&[x as u8, y as u8, 9, 255]);
        }
    }
    let faces = cubemap_faces_of_image(w, h, &pixels).unwrap();
    assert_eq!(faces.len(), 6);
    // Back is the fourth cell of the middle row.
    let (face, png) = &faces[5];
    assert_eq!(*face, CubeFace::Back);
    let img = image::load_from_memory(png).unwrap().to_rgba8();
    assert_eq!(img.get_pixel(0, 0).0, [6, 2, 9, 255]);
    assert_eq!(img.get_pixel(1, 0).0, [7, 2, 9, 255]);
    assert_eq!(img.get_pixel(0, 1).0, [6, 3, 9, 255]);
    assert_eq!(
        cubemap_faces_of_image(4, 4, &vec![0u8; 64]).unwrap_err(),
        CubemapError::Layout(CubemapLayoutError::NotGrid { width: 4, height: 4 })
    );
}

#[test]
fn small_render_decisions() {
    use_small_render_decisions();
}

fn use_small_render_decisions() {
    assert_eq!(xastge::render::buffer::plan_fill_exact(4, 5), xastge::render::buffer::FillPlan::Overflow(5));
    assert_eq!(xastge::render::buffer::plan_fill_exact(4, 0), xastge::render::buffer::FillPlan::Nothing);
    assert_eq!(xastge::render::buffer::plan_fill_exact(4, 4), xastge::render::buffer::FillPlan::Write);
    assert!(!xastge::render::accepts_surface_size(0, 600));
    assert!(xastge::render::accepts_surface_size(800, 600));
    assert_eq!(xastge::render::surface_format_index(&[false, true, true]), 1);
    assert_eq!(xastge::render::surface_format_index(&[false, false]), 0);
    assert_eq!(
        xastge::window::toggle_capture(true),
        (false, xastge::window::CursorMode::Normal)
    );
    assert_eq!(
        xastge::window::toggle_capture(false),
        (true, xastge::window::CursorMode::Disabled)
    );
}
