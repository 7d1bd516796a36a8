use smithay_egui::geometry::Rect;
use smithay_egui::geometry::Transform;
use smithay_egui::rendering::check_gl_support;
use smithay_egui::rendering::has_gl_extension;
use smithay_egui::rendering::merge_damage;
use smithay_egui::rendering::ClippedPrimitive;
use smithay_egui::rendering::DeltaPos;
use smithay_egui::rendering::GlError;
use smithay_egui::rendering::GlExtension;
use smithay_egui::rendering::GlState;
use smithay_egui::rendering::MeshInfo;
use smithay_egui::rendering::PaintParams;
use smithay_egui::rendering::Primitive;
use smithay_egui::rendering::TextureDelta;
use smithay_egui::rendering::TextureId;
use smithay_egui::rendering::UploadOp;

fn rect(x: i32, y: i32, w: i32, h: i32) -> Rect {
    Rect { x, y, w, h }
}

fn params(w: i32, h: i32) -> PaintParams {
    PaintParams { loc_x: 0, loc_y: 0, area_w: w, area_h: h, transform: Transform::Normal }
}

fn mesh(clip: Rect, id: TextureId) -> ClippedPrimitive {
    ClippedPrimitive { clip_rect: clip, primitive: Primitive::Mesh(MeshInfo { texture_id: id }) }
}

fn whole(id: u64, w: u32, h: u32) -> TextureDelta {
    TextureDelta { id: TextureId::Managed(id), pos: None, width: w, height: h }
}

fn partial(id: u64, x: u32, y: u32, w: u32, h: u32) -> TextureDelta {
    TextureDelta { id: TextureId::Managed(id), pos: Some(DeltaPos { x, y }), width: w, height: h }
}

#[test]
fn first_upload_allocates_to_the_image_size() {
    let mut gl = GlState::new();
    let ops = gl.upload_textures(&vec![whole(1, 64, 32)], &vec![100]);
    assert_eq!(ops.len(), 1);
    match ops[0] {
        UploadOp::Allocate { tex, alloc_width, alloc_height, x, y, width, height, delete_old } => {
            assert_eq!(tex, 100);
            assert_eq!((alloc_width, alloc_height), (64, 32));
            assert_eq!((x, y), (0, 0));
            assert_eq!((width, height), (64, 32));
            assert_eq!(delete_old, None);
        }
        _ => panic!("expected an allocation"),
    }
    let e = gl.lookup_texture(1).unwrap();
    assert_eq!((e.tex, e.width, e.height), (100, 64, 32));
}

#[test]
fn upload_inside_allocation_performs_zero_reallocations() {
    let mut gl = GlState::new();
    let _ = gl.upload_textures(&vec![whole(1, 64, 32)], &vec![100]);
    let ops = gl.upload_textures(&vec![partial(1, 8, 8, 16, 16)], &vec![101]);
    // the delta fits: a sub-image copy, the unused fresh name is released
    assert_eq!(ops.len(), 2);
    assert_eq!(
        ops[0],
        UploadOp::SubImage { tex: 100, x: 8, y: 8, width: 16, height: 16 }
    );
    assert_eq!(ops[1], UploadOp::ReleaseName { tex: 101 });
    // the recorded extent is unchanged
    let e = gl.lookup_texture(1).unwrap();
    assert_eq!((e.tex, e.width, e.height), (100, 64, 32));
}

#[test]
fn growing_upload_reallocates_once_to_the_union_of_regions() {
    let mut gl = GlState::new();
    let _ = gl.upload_textures(&vec![whole(1, 64, 32)], &vec![100]);
    // target sub-region reaches (72, 24): exceeds the 64-wide allocation
    let ops = gl.upload_textures(&vec![partial(1, 56, 8, 16, 16)], &vec![101]);
    let allocs: Vec<&UploadOp> = ops
        .iter()
        .filter(|op| matches!(op, UploadOp::Allocate { .. }))
        .collect();
    assert_eq!(allocs.len(), 1);
    match allocs[0] {
        UploadOp::Allocate { tex, alloc_width, alloc_height, delete_old, .. } => {
            assert_eq!(*tex, 101);
            // at least the union of the old extent and the new region
            assert_eq!((*alloc_width, *alloc_height), (72, 32));
            assert_eq!(*delete_old, Some(100));
        }
        _ => unreachable!(),
    }
    // a subsequent query reflects the new extent
    let e = gl.lookup_texture(1).unwrap();
    assert_eq!((e.tex, e.width, e.height), (101, 72, 32));
}

#[test]
fn upload_skips_raw_host_textures() {
    let mut gl = GlState::new();
    let delta = TextureDelta { id: TextureId::User(9), pos: None, width: 4, height: 4 };
    let ops = gl.upload_textures(&vec![delta], &vec![100]);
    assert_eq!(ops, vec![UploadOp::ReleaseName { tex: 100 }]);
    assert!(gl.lookup_texture(9).is_none());
}

#[test]
fn eviction_after_last_reference_forgets_the_identifier() {
    let mut gl = GlState::new();
    let _ = gl.upload_textures(&vec![whole(7, 4, 4)], &vec![100]);
    // paint one frame referencing id 7
    let prims = vec![mesh(rect(0, 0, 4, 4), TextureId::Managed(7))];
    let damage = vec![rect(0, 0, 4, 4)];
    assert!(gl.can_paint(&prims, 4, 4));
    let plan = gl.paint_meshes(&prims, &damage, params(4, 4));
    assert_eq!(plan.len(), 1);
    assert_eq!(plan[0].texture, 100);
    // evict id 7: its GPU texture dies and a lookup finds nothing
    let dead = gl.free_textures(&vec![TextureId::Managed(7)]);
    assert_eq!(dead, vec![100]);
    assert!(gl.lookup_texture(7).is_none());
    // a second eviction notice is a no-op
    let dead2 = gl.free_textures(&vec![TextureId::Managed(7)]);
    assert!(dead2.is_empty());
}

#[test]
fn undamaged_mesh_gets_zero_draw_calls() {
    let mut gl = GlState::new();
    let _ = gl.upload_textures(&vec![whole(1, 8, 8)], &vec![100]);
    let prims = vec![mesh(rect(0, 0, 10, 10), TextureId::Managed(1))];
    let damage = vec![rect(20, 20, 10, 10)];
    let plan = gl.paint_meshes(&prims, &damage, params(64, 64));
    assert!(plan.is_empty());
}

#[test]
fn damaged_mesh_is_scissored_to_the_overlap() {
    let mut gl = GlState::new();
    let _ = gl.upload_textures(&vec![whole(1, 8, 8)], &vec![100]);
    let prims = vec![
        mesh(rect(0, 0, 10, 10), TextureId::Managed(1)),
        mesh(rect(5, 5, 20, 20), TextureId::User(42)),
    ];
    let damage = vec![rect(8, 8, 8, 8)];
    let plan = gl.paint_meshes(&prims, &damage, params(64, 64));
    assert_eq!(plan.len(), 2);
    // draw order follows the primitive order
    assert_eq!(plan[0].mesh_index, 0);
    assert_eq!(plan[1].mesh_index, 1);
    assert_eq!(plan[0].scissor, rect(8, 8, 2, 2));
    assert_eq!(plan[1].scissor, rect(8, 8, 8, 8));
    assert_eq!(plan[0].texture, 100);
    assert_eq!(plan[1].texture, 42);
}

#[test]
fn paint_applies_placement_offset_and_flip() {
    let mut gl = GlState::new();
    let _ = gl.upload_textures(&vec![whole(1, 8, 8)], &vec![100]);
    let prims = vec![mesh(rect(0, 0, 10, 10), TextureId::Managed(1))];
    let damage = vec![rect(0, 0, 10, 10)];
    let p = PaintParams {
        loc_x: 100,
        loc_y: 200,
        area_w: 64,
        area_h: 64,
        transform: Transform::Flipped180,
    };
    let plan = gl.paint_meshes(&prims, &damage, p);
    assert_eq!(plan.len(), 1);
    // flipped vertically inside the 64-high area, then offset
    assert_eq!(plan[0].scissor, rect(100, 254, 10, 10));
}

#[test]
fn merging_disjoint_damage_returns_it_unchanged() {
    let damage = vec![rect(0, 0, 10, 10), rect(20, 20, 10, 10), rect(40, 0, 5, 5)];
    let merged = merge_damage(&damage);
    assert_eq!(merged, damage);
}

#[test]
fn merging_overlapping_damage_shrinks_the_list_and_covers_it() {
    let damage = vec![rect(0, 0, 10, 10), rect(5, 5, 10, 10), rect(30, 30, 5, 5)];
    let merged = merge_damage(&damage);
    assert!(merged.len() <= damage.len());
    assert_eq!(merged.len(), 2);
    // each input lies inside some output
    for d in &damage {
        assert!(merged.iter().any(|m| d.x >= m.x
            && d.y >= m.y
            && d.x + d.w <= m.x + m.w
            && d.y + d.h <= m.y + m.h));
    }
    // no two outputs overlap
    for (i, a) in merged.iter().enumerate() {
        for (j, b) in merged.iter().enumerate() {
            if i != j {
                assert!(!a.overlaps(b));
            }
        }
    }
    assert_eq!(merged[0], rect(0, 0, 15, 15));
}

#[test]
fn merging_chained_overlaps_reaches_a_disjoint_fixpoint() {
    // the third rectangle bridges the first two only after they merge
    let damage = vec![rect(0, 0, 4, 4), rect(8, 0, 4, 4), rect(3, 0, 6, 4)];
    let merged = merge_damage(&damage);
    assert_eq!(merged, vec![rect(0, 0, 12, 4)]);
}

#[test]
fn transform_moves_rectangles_within_the_area() {
    let r = rect(2, 3, 4, 5);
    assert_eq!(Transform::Normal.transform_rect_in(&r, 20, 30), r);
    assert_eq!(Transform::Flipped180.transform_rect_in(&r, 20, 30), rect(2, 22, 4, 5));
    assert_eq!(Transform::Rot180.transform_rect_in(&r, 20, 30), rect(14, 22, 4, 5));
    assert_eq!(Transform::Rot90.transform_rect_in(&r, 20, 30), rect(22, 2, 5, 4));
}

#[test]
fn rectangle_operations_follow_the_half_open_convention() {
    let a = rect(0, 0, 10, 10);
    let b = rect(10, 0, 5, 5);
    // touching edges do not overlap
    assert!(!a.overlaps(&b));
    assert_eq!(a.intersection(&b), None);
    let c = rect(5, 5, 10, 10);
    assert!(a.overlaps(&c));
    assert_eq!(a.intersection(&c), Some(rect(5, 5, 5, 5)));
    assert_eq!(a.merge(&c), rect(0, 0, 15, 15));
    assert!(a.contains_rect(&rect(2, 2, 3, 3)));
    assert!(!a.contains_rect(&c));
}

#[test]
fn gl_support_check_names_the_missing_extension() {
    assert_eq!(check_gl_support(3, false, true), Ok(()));
    assert_eq!(check_gl_support(2, true, true), Ok(()));
    assert_eq!(
        check_gl_support(2, false, true),
        Err(GlError::ExtensionNotSupported(GlExtension::Srgb))
    );
    assert_eq!(
        check_gl_support(3, false, false),
        Err(GlError::ExtensionNotSupported(GlExtension::VertexArrayObject))
    );
}

#[test]
fn can_paint_rejects_missing_textures_and_callbacks() {
    let mut gl = GlState::new();
    let resident = mesh(rect(0, 0, 4, 4), TextureId::Managed(1));
    assert!(!gl.can_paint(&vec![resident], 8, 8));
    let _ = gl.upload_textures(&vec![whole(1, 4, 4)], &vec![100]);
    assert!(gl.can_paint(&vec![resident], 8, 8));
    let callback = ClippedPrimitive { clip_rect: rect(0, 0, 4, 4), primitive: Primitive::Callback };
    assert!(!gl.can_paint(&vec![callback], 8, 8));
    // a clip rectangle outside the target is refused too
    let outside = mesh(rect(6, 6, 4, 4), TextureId::Managed(1));
    assert!(!gl.can_paint(&vec![outside], 8, 8));
}

#[test]
fn extension_search_matches_whole_tokens_only() {
    let list = b"GL_EXT_sRGB GL_OES_vertex_array_object GL_EXT_sRGB2".to_vec();
    assert!(has_gl_extension(&list, &b"GL_EXT_sRGB".to_vec()));
    assert!(has_gl_extension(&list, &b"GL_OES_vertex_array_object".to_vec()));
    assert!(has_gl_extension(&list, &b"GL_EXT_sRGB2".to_vec()));
    // substrings of a longer token do not count
    assert!(!has_gl_extension(&list, &b"GL_EXT_sR".to_vec()));
    assert!(!has_gl_extension(&list, &b"vertex_array".to_vec()));
    assert!(!has_gl_extension(&b"".to_vec(), &b"GL_EXT_sRGB".to_vec()));
    assert!(has_gl_extension(&b"GL_EXT_sRGB".to_vec(), &b"GL_EXT_sRGB".to_vec()));
}
