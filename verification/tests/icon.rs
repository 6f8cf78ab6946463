use wayland_extras::icon::{
    encode_pixel, paint, premultiply, set_image, BufferParams, Format, IconRequest,
    PlatformIcon, ToplevelIcon, XdgToplevelIconManager,
};
use wayland_extras::natural::Natural;

fn number(value: u64) -> Natural {
    let mut result = Natural::zero();
    for _ in 0..value {
        result.advance();
    }
    result
}

fn image(width: u32, height: u32) -> PlatformIcon {
    PlatformIcon { rgba: Vec::new(), width, height }
}

#[test]
fn premultiply_agrees_with_single_precision() {
    for alpha in 0..=255u8 {
        for colour in 0..=255u8 {
            let share = alpha as f32 / 255.;
            let expected = (colour as f32 * share) as u32;
            assert_eq!(premultiply(colour, alpha) as u32, expected);
        }
    }
}

#[test]
fn pixel_is_a_little_endian_word() {
    for (r, g, b, a) in [(255u8, 128u8, 3u8, 200u8), (1, 2, 3, 255), (9, 9, 9, 0)] {
        let word = ((a as u32) << 24)
            + ((premultiply(r, a) as u32) << 16)
            + ((premultiply(g, a) as u32) << 8)
            + premultiply(b, a) as u32;
        assert_eq!(encode_pixel(r, g, b, a), word.to_le_bytes());
    }
    assert_eq!(encode_pixel(255, 128, 3, 200), [2, 100, 200, 200]);
}

#[test]
fn opaque_and_transparent_pixels() {
    assert_eq!(encode_pixel(10, 20, 30, 255), [30, 20, 10, 255]);
    assert_eq!(encode_pixel(10, 20, 30, 0), [0, 0, 0, 0]);
}

#[test]
fn paint_fills_what_fits() {
    let mut canvas = vec![77u8; 10];
    paint(&mut canvas, &[1, 2, 3, 255, 4, 5, 6, 255, 7, 8, 9, 255]);
    assert_eq!(canvas, vec![3, 2, 1, 255, 6, 5, 4, 255, 77, 77]);

    let mut canvas = vec![77u8; 12];
    paint(&mut canvas, &[1, 2, 3, 255, 4, 5]);
    assert_eq!(canvas, vec![3, 2, 1, 255, 77, 77, 77, 77, 77, 77, 77, 77]);

    let mut canvas = vec![77u8; 3];
    paint(&mut canvas, &[1, 2, 3, 255]);
    assert_eq!(canvas, vec![77, 77, 77]);

    let mut canvas: Vec<u8> = Vec::new();
    paint(&mut canvas, &[]);
    assert_eq!(canvas, Vec::<u8>::new());
}

#[test]
fn paint_twice_is_paint_once() {
    let rgba = [200, 100, 50, 128, 1, 2, 3, 255];
    let mut canvas = vec![5u8; 9];
    paint(&mut canvas, &rgba);
    let once = canvas.clone();
    paint(&mut canvas, &rgba);
    assert_eq!(canvas, once);
    assert_eq!(once, vec![25, 50, 100, 128, 3, 2, 1, 255, 5]);
}

#[test]
fn buffer_of_an_image() {
    assert_eq!(
        image(64, 32).buffer_params(),
        BufferParams { width: 64, height: 32, stride: 256, format: Format::Argb8888 }
    );
    assert_eq!(
        image(0x1fff_ffff, 0xffff_ffff).buffer_params(),
        BufferParams {
            width: 0x1fff_ffff,
            height: -1,
            stride: 0x7fff_fffc,
            format: Format::Argb8888,
        }
    );
    assert_eq!(image(0xffff_ffff, 0x8000_0000).buffer_params().stride, -4);
    assert_eq!(image(0xffff_ffff, 0x8000_0000).buffer_params().height, i32::MIN);
}

#[test]
fn icon_is_set() {
    let mut manager = XdgToplevelIconManager::new(1);
    let image = PlatformIcon { rgba: vec![10, 20, 30, 255], width: 1, height: 1 };
    let mut canvas = vec![0u8; 64];
    let mut requests = Vec::new();
    let fresh = manager.create_icon(&mut requests);
    assert_eq!(requests, vec![IconRequest::CreateIcon { manager: 1, icon: number(0) }]);
    let icon = manager.set_icon(2, fresh, Some(4), &mut canvas, &image, 5, &mut requests);
    assert_eq!(icon, Some(ToplevelIcon { icon: number(0), buffer: 4 }));
    assert_eq!(canvas[..5], [30, 20, 10, 255, 0]);
    assert_eq!(
        requests,
        vec![
            IconRequest::CreateIcon { manager: 1, icon: number(0) },
            IconRequest::AddBuffer { icon: number(0), buffer: 4, scale: 5 },
            IconRequest::SetIcon { manager: 1, toplevel: 2, shown: Some(number(0)) },
        ]
    );
    manager.clear_icon(2, &mut requests);
    assert_eq!(requests.len(), 4);
    assert_eq!(requests[3], IconRequest::SetIcon { manager: 1, toplevel: 2, shown: None });
}

#[test]
fn each_assignment_has_its_own_icon() {
    let mut manager = XdgToplevelIconManager::new(1);
    let image = PlatformIcon { rgba: vec![10, 20, 30, 255], width: 1, height: 1 };
    let mut canvas = vec![0u8; 4];
    let mut requests = Vec::new();
    let fresh = manager.create_icon(&mut requests);
    let first = manager.set_icon(2, fresh, Some(4), &mut canvas, &image, 1, &mut requests);
    requests.clear();
    let fresh = manager.create_icon(&mut requests);
    let second = manager.set_icon(2, fresh, Some(5), &mut canvas, &image, 1, &mut requests);
    assert_eq!(first, Some(ToplevelIcon { icon: number(0), buffer: 4 }));
    assert_eq!(second, Some(ToplevelIcon { icon: number(1), buffer: 5 }));
    assert_eq!(
        requests,
        vec![
            IconRequest::CreateIcon { manager: 1, icon: number(1) },
            IconRequest::AddBuffer { icon: number(1), buffer: 5, scale: 1 },
            IconRequest::SetIcon { manager: 1, toplevel: 2, shown: Some(number(1)) },
        ]
    );
}

#[test]
fn no_slot_no_icon() {
    let mut manager = XdgToplevelIconManager::new(1);
    let image = PlatformIcon { rgba: vec![10, 20, 30, 255], width: 1, height: 1 };
    let mut canvas = vec![0u8; 4];
    let mut requests = Vec::new();
    let fresh = manager.create_icon(&mut requests);
    assert_eq!(manager.set_icon(2, fresh, None, &mut canvas, &image, 1, &mut requests), None);
    assert_eq!(canvas, vec![0, 0, 0, 0]);
    assert_eq!(requests, vec![IconRequest::CreateIcon { manager: 1, icon: number(0) }]);
}

#[test]
fn image_is_attached_to_its_icon() {
    let mut canvas = vec![9u8; 4];
    let mut requests = Vec::new();
    assert_eq!(set_image(&number(3), None, &mut canvas, &[1, 2, 3, 255], 2, &mut requests), None);
    assert_eq!(canvas, vec![9, 9, 9, 9]);
    assert_eq!(set_image(&number(3), Some(8), &mut canvas, &[1, 2, 3, 255], 2, &mut requests), Some(8));
    assert_eq!(canvas, vec![3, 2, 1, 255]);
    assert_eq!(requests, vec![IconRequest::AddBuffer { icon: number(3), buffer: 8, scale: 2 }]);
}

#[test]
fn whole_image_fits_its_buffer() {
    let image = PlatformIcon { rgba: (0..24).map(|i| i * 10).collect(), width: 3, height: 2 };
    let params = image.buffer_params();
    let mut canvas = vec![0u8; (params.height * params.stride) as usize];
    paint(&mut canvas, &image.rgba);
    assert_eq!(canvas.len(), 24);
    for p in 0..6 {
        let pixel = &image.rgba[4 * p..4 * p + 4];
        assert_eq!(canvas[4 * p..4 * p + 4], encode_pixel(pixel[0], pixel[1], pixel[2], pixel[3]));
    }
}

#[test]
fn naturals_count() {
    assert_eq!(number(3).copied(), number(3));
    assert_ne!(number(3), number(4));
    assert_eq!(number(0), Natural::zero());
}
