use std::collections::HashMap;

use compositor_slint::bbox::detect_visible_bbox;
use compositor_slint::dmabuf::{
    create_dmabuf_global, dmabuf_imported, force_opaque, BufferFormat, DmabufGlobal, Readback,
};
use compositor_slint::pixels::{blend_over, fits_in_memory, import_shm_buffer, ClientSurfaceData, Rgba, ShmBuffer, SurfaceNode};
use compositor_slint::screencopy::{
    check_buffer, pack_rows, padded_bytes_per_row, process_frame, staging_size, BufferPeek, CaptureFailureReason,
    CaptureOutcome, CaptureSize, DestLayout,
};
use compositor_slint::state::SpikeState;
use compositor_slint::surface_import::{import_shm_per_surface, Attached, ImportSurface};

fn solid(b: u8, g: u8, r: u8, a: u8, width: i32, height: i32, has_alpha: bool) -> ShmBuffer {
    let mut data = Vec::new();
    for _ in 0..width * height {
        data.push(b);
        data.push(g);
        data.push(r);
        data.push(a);
    }
    ShmBuffer { data, width, height, stride: width * 4, has_alpha }
}

fn node(x: i32, y: i32, buffer: ShmBuffer) -> SurfaceNode {
    SurfaceNode { offset_x: x, offset_y: y, width: buffer.width, height: buffer.height, buffer: Some(buffer) }
}

#[test]
fn an_opaque_pixel_hides_what_is_below() {
    let red = Rgba { r: 255, g: 0, b: 0, a: 255 };
    let blue = Rgba { r: 0, g: 0, b: 255, a: 255 };
    assert_eq!(blend_over(red, blue), red);
}

#[test]
fn a_clear_pixel_shows_what_is_below() {
    let clear = Rgba { r: 0, g: 0, b: 0, a: 0 };
    let blue = Rgba { r: 0, g: 0, b: 255, a: 255 };
    assert_eq!(blend_over(clear, blue), blue);
}

#[test]
fn half_over_white_is_between() {
    let half = Rgba { r: 128, g: 0, b: 0, a: 128 };
    let white = Rgba { r: 255, g: 255, b: 255, a: 255 };
    let out = blend_over(half, white);
    assert_eq!(out.r, 255);
    assert_eq!(out.g, 127);
    assert_eq!(out.a, 255);
}

#[test]
fn one_surface_is_imported_as_rgba() {
    let nodes = vec![node(0, 0, solid(1, 2, 3, 200, 2, 1, true))];
    let mut out = ClientSurfaceData::default();
    assert_eq!(import_shm_buffer(&nodes, &mut out), 1);
    assert_eq!((out.width, out.height), (2, 1));
    assert_eq!(out.pixels, vec![3, 2, 1, 200, 3, 2, 1, 200]);
    assert!(out.dirty);
    assert_eq!(out.version, 1);
}

#[test]
fn a_buffer_without_alpha_is_opaque() {
    let nodes = vec![node(0, 0, solid(9, 8, 7, 0, 1, 1, false))];
    let mut out = ClientSurfaceData::default();
    import_shm_buffer(&nodes, &mut out);
    assert_eq!(out.pixels, vec![7, 8, 9, 255]);
}

#[test]
fn a_subsurface_is_drawn_at_its_offset() {
    let nodes = vec![node(0, 0, solid(0, 0, 0, 255, 2, 2, true)), node(1, 1, solid(255, 255, 255, 255, 1, 1, true))];
    let mut out = ClientSurfaceData::default();
    assert_eq!(import_shm_buffer(&nodes, &mut out), 2);
    assert_eq!(&out.pixels[0..4], &[0, 0, 0, 255]);
    assert_eq!(&out.pixels[12..16], &[255, 255, 255, 255]);
}

#[test]
fn a_tree_without_buffers_imports_nothing() {
    let nodes = vec![SurfaceNode { offset_x: 0, offset_y: 0, width: 0, height: 0, buffer: None }];
    let mut out = ClientSurfaceData::default();
    assert_eq!(import_shm_buffer(&nodes, &mut out), 0);
    assert!(!out.dirty);
    assert_eq!(out.version, 0);
}

fn surface(key: u32, commit: u64, buffer: ShmBuffer) -> ImportSurface {
    ImportSurface {
        key,
        attached: Some(Attached {
            width: buffer.width as u32,
            height: buffer.height as u32,
            commit,
            contents: Some(buffer),
        }),
    }
}

#[test]
fn each_surface_is_imported_once_per_commit() {
    let mut map: HashMap<u32, ClientSurfaceData> = HashMap::new();
    let first = vec![surface(5, 1, solid(1, 2, 3, 4, 1, 1, true))];
    assert_eq!(import_shm_per_surface(&first, &mut map), 1);
    assert_eq!(map[&5].pixels, vec![3, 2, 1, 4]);
    assert_eq!(import_shm_per_surface(&first, &mut map), 0);
    let second = vec![surface(5, 2, solid(1, 2, 3, 4, 1, 1, true))];
    assert_eq!(import_shm_per_surface(&second, &mut map), 1);
    assert_eq!(map[&5].version, 2);
}

#[test]
fn a_surface_that_left_the_tree_is_forgotten() {
    let mut map: HashMap<u32, ClientSurfaceData> = HashMap::new();
    import_shm_per_surface(&vec![surface(5, 1, solid(1, 2, 3, 4, 1, 1, true))], &mut map);
    import_shm_per_surface(&vec![surface(6, 1, solid(1, 2, 3, 4, 1, 1, true))], &mut map);
    assert!(!map.contains_key(&5));
    assert!(map.contains_key(&6));
}

#[test]
fn the_visible_part_is_found() {
    let (w, h) = (16u32, 16u32);
    let mut pixels = vec![0u8; (w * h * 4) as usize];
    for y in 4..12u32 {
        for x in 2..14u32 {
            pixels[((y * w + x) * 4 + 3) as usize] = 255;
        }
    }
    assert_eq!(detect_visible_bbox(&pixels, w, h), Some((2, 4, 12, 8)));
}

#[test]
fn nothing_visible_has_no_box() {
    assert_eq!(detect_visible_bbox(&vec![0u8; 64], 4, 4), None);
    assert_eq!(detect_visible_bbox(&[], 0, 4), None);
    assert_eq!(detect_visible_bbox(&vec![255u8; 10], 4, 4), None);
}

#[test]
fn rows_are_padded_for_the_copy() {
    assert_eq!(padded_bytes_per_row(64), 256);
    assert_eq!(padded_bytes_per_row(65), 512);
    assert_eq!(staging_size(CaptureSize { width: 65, height: 3 }), 1536);
}

#[test]
fn only_shared_memory_of_the_right_size_is_captured() {
    let size = CaptureSize { width: 2, height: 2 };
    assert_eq!(check_buffer(BufferPeek::Shm { width: 2, height: 2 }, size), Ok(()));
    assert_eq!(
        check_buffer(BufferPeek::Shm { width: 3, height: 2 }, size),
        Err(CaptureFailureReason::BufferConstraints)
    );
    assert_eq!(
        check_buffer(BufferPeek::Shm { width: 0, height: 2 }, size),
        Err(CaptureFailureReason::BufferConstraints)
    );
    assert_eq!(check_buffer(BufferPeek::NotManaged, size), Err(CaptureFailureReason::BufferConstraints));
    assert_eq!(check_buffer(BufferPeek::Failed, size), Err(CaptureFailureReason::Unknown));
}

#[test]
fn a_frame_is_delivered_with_its_channels_swapped() {
    let size = CaptureSize { width: 1, height: 1 };
    let mut mapped = vec![0u8; 256];
    mapped[0..4].copy_from_slice(&[10, 20, 30, 40]);
    let layout = DestLayout { width: 1, height: 1, stride: 4, offset: 0 };
    let peek = BufferPeek::Shm { width: 1, height: 1 };
    let mut dst = vec![0u8; 4];
    let r = process_frame(peek, size, Some(&mapped), true, Some(layout), &mut dst);
    assert_eq!(r, CaptureOutcome::Success { damage_width: 1, damage_height: 1 });
    assert_eq!(dst, vec![30, 20, 10, 40]);
    process_frame(peek, size, Some(&mapped), false, Some(layout), &mut dst);
    assert_eq!(dst, vec![30, 20, 10, 255]);
}

#[test]
fn a_frame_that_cannot_be_read_or_written_fails() {
    let size = CaptureSize { width: 1, height: 1 };
    let mapped = vec![0u8; 256];
    let layout = DestLayout { width: 1, height: 1, stride: 4, offset: 0 };
    let peek = BufferPeek::Shm { width: 1, height: 1 };
    let mut dst = vec![7u8; 4];
    let unread = process_frame(peek, size, None, true, Some(layout), &mut dst);
    assert_eq!(unread, CaptureOutcome::Fail(CaptureFailureReason::Unknown));
    let unopened = process_frame(peek, size, Some(&mapped), true, None, &mut dst);
    assert_eq!(unopened, CaptureOutcome::Fail(CaptureFailureReason::Unknown));
    let short = DestLayout { width: 1, height: 1, stride: 8, offset: 0 };
    let outside = process_frame(peek, size, Some(&mapped), true, Some(short), &mut dst);
    assert_eq!(outside, CaptureOutcome::Fail(CaptureFailureReason::BufferConstraints));
    assert_eq!(dst, vec![7, 7, 7, 7]);
}

#[test]
fn a_screenshot_is_packed_without_padding() {
    let size = CaptureSize { width: 1, height: 2 };
    let mut mapped = vec![0u8; 512];
    mapped[0..4].copy_from_slice(&[1, 2, 3, 4]);
    mapped[256..260].copy_from_slice(&[5, 6, 7, 8]);
    assert_eq!(pack_rows(&mapped, size, false), vec![1, 2, 3, 4, 5, 6, 7, 8]);
    assert_eq!(pack_rows(&mapped, size, true), vec![3, 2, 1, 4, 7, 6, 5, 8]);
}

#[test]
fn formats_without_alpha_are_made_opaque() {
    let mut pixels = vec![1, 2, 3, 4, 5, 6, 7, 8, 9];
    force_opaque(&mut pixels, BufferFormat::Xrgb8888);
    assert_eq!(pixels, vec![1, 2, 3, 255, 5, 6, 7, 255, 9]);
    let mut kept = vec![1, 2, 3, 4];
    force_opaque(&mut kept, BufferFormat::Alpha);
    assert_eq!(kept, vec![1, 2, 3, 4]);
}

#[test]
fn pixels_of_a_gpu_buffer_wait_for_their_commit() {
    let mut state = SpikeState::new();
    state.import_dmabuf_for_surface(4, None, BufferFormat::Alpha);
    assert!(state.dmabuf_pending.is_empty());
    let read = Readback { pixels: vec![1, 2, 3, 0], width: 1, height: 1 };
    state.import_dmabuf_for_surface(4, Some(read), BufferFormat::Bgr888);
    let data = &state.dmabuf_pending[&4];
    assert_eq!(data.pixels, vec![1, 2, 3, 255]);
    assert!(data.dirty);
    assert_eq!(data.version, 1);
    assert_eq!(data.last_commit, None);
}

#[test]
fn gpu_buffers_are_offered_as_far_as_the_renderer_goes() {
    assert_eq!(create_dmabuf_global(None, true, true), DmabufGlobal::Absent);
    assert_eq!(create_dmabuf_global(Some(0), true, true), DmabufGlobal::Absent);
    assert_eq!(create_dmabuf_global(Some(3), false, true), DmabufGlobal::Formats);
    assert_eq!(create_dmabuf_global(Some(3), true, false), DmabufGlobal::Formats);
    assert_eq!(create_dmabuf_global(Some(3), true, true), DmabufGlobal::Feedback);
    assert!(dmabuf_imported(true, true));
    assert!(!dmabuf_imported(false, true));
    assert!(!dmabuf_imported(true, false));
}

#[test]
fn blending_keeps_pixels_sound() {
    let pixels = [
        Rgba { r: 0, g: 0, b: 0, a: 0 },
        Rgba { r: 10, g: 128, b: 0, a: 128 },
        Rgba { r: 254, g: 1, b: 77, a: 254 },
        Rgba { r: 255, g: 0, b: 9, a: 255 },
    ];
    for src in pixels {
        for dst in pixels {
            let out = blend_over(src, dst);
            assert!(out.r <= out.a && out.g <= out.a && out.b <= out.a);
            assert!(dst.a != 255 || out.a == 255);
        }
    }
}

#[test]
fn a_tree_must_fit_in_memory() {
    let node = |offset_x: i32, stride: i32| SurfaceNode {
        offset_x,
        offset_y: 0,
        width: 4,
        height: 4,
        buffer: Some(ShmBuffer { data: Vec::new(), width: 4, height: 4, stride, has_alpha: true }),
    };
    assert!(fits_in_memory(&Vec::new()));
    assert!(fits_in_memory(&vec![node(0, 16), node(-9, 16)]));
    assert!(!fits_in_memory(&vec![node(0, 16), node(i32::MIN, 16)]));
    assert!(!fits_in_memory(&vec![node(0, -1)]));
}

#[test]
fn only_surfaces_that_are_drawn_are_counted() {
    let bare = SurfaceNode { offset_x: 0, offset_y: 0, width: 2, height: 2, buffer: None };
    let unmapped = SurfaceNode {
        offset_x: 0,
        offset_y: 0,
        width: 0,
        height: 2,
        buffer: Some(solid(1, 2, 3, 255, 1, 1, true)),
    };
    let nodes = vec![bare, node(0, 0, solid(1, 2, 3, 255, 1, 1, true)), unmapped];
    let mut out = ClientSurfaceData::default();
    assert_eq!(import_shm_buffer(&nodes, &mut out), 1);
    assert!(out.dirty);
}

#[test]
fn content_between_the_samples_can_lie_outside_the_box() {
    let (w, h) = (16u32, 16u32);
    let mut pixels = vec![0u8; (w * h * 4) as usize];
    for y in 4..12u32 {
        for x in 4..12u32 {
            pixels[((y * w + x) * 4 + 3) as usize] = 255;
        }
    }
    pixels[3] = 255;
    assert_eq!(detect_visible_bbox(&pixels, w, h), Some((4, 4, 8, 8)));
}
