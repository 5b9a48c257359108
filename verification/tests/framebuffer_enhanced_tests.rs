use fanga::io::framebuffer_enhanced::{
    DrawTarget, EnhancedFramebuffer, FramebufferConfig, HwAccess, PixelValue, Resolution, CLEAR_COLOR,
};

fn config(double_buffering: bool) -> FramebufferConfig {
    FramebufferConfig {
        addr: 0x1000,
        resolution: Resolution::new(8, 4),
        pitch: 32,
        bpp: 32,
        double_buffering,
    }
}

#[test]
fn resolution_presets() {
    assert_eq!(Resolution::vga(), Resolution::new(640, 480));
    assert_eq!(Resolution::svga(), Resolution { width: 800, height: 600 });
    assert_eq!(Resolution::xga(), Resolution::new(1024, 768));
    assert_eq!(Resolution::hd(), Resolution::new(1280, 720));
    assert_eq!(Resolution::full_hd(), Resolution::new(1920, 1080));
}

#[test]
fn enhanced_new_is_empty() {
    let mut fb = EnhancedFramebuffer::new();
    assert_eq!(fb.resolution(), Resolution::new(0, 0));
    assert_eq!(fb.flip_count(), 0);
    assert!(!fb.is_double_buffered());
    assert_eq!(fb.draw_addr(), DrawTarget::Hardware(0));
    assert!(fb.back_buffer().is_none());
}

#[test]
fn enhanced_init_double_buffered_clears_back_buffer() {
    let mut fb = EnhancedFramebuffer::new();
    let r = fb.init(config(true));
    assert_eq!(r, None);
    assert!(fb.is_double_buffered());
    assert_eq!(fb.draw_addr(), DrawTarget::BackBuffer);
    let back = fb.back_buffer().unwrap();
    assert_eq!(back.len(), 4 * 8);
    assert!(back.iter().all(|&p| p == CLEAR_COLOR));
    assert_eq!(fb.get_pixel(3, 2), PixelValue::Value(CLEAR_COLOR));
}

#[test]
fn enhanced_init_single_buffered_hands_clear_to_hardware() {
    let mut fb = EnhancedFramebuffer::new();
    let r = fb.init(config(false));
    assert_eq!(r, Some(HwAccess::Fill { x0: 0, x1: 8, y0: 0, y1: 4, color: CLEAR_COLOR }));
    assert_eq!(fb.draw_addr(), DrawTarget::Hardware(0x1000));
    assert_eq!(fb.get_pixel(1, 1), PixelValue::Hardware { x: 1, y: 1 });
}

#[test]
fn enhanced_draw_pixel_then_read() {
    let mut fb = EnhancedFramebuffer::new();
    fb.init(config(true));
    assert_eq!(fb.draw_pixel(5, 3, 0xFF123456), None);
    assert_eq!(fb.get_pixel(5, 3), PixelValue::Value(0xFF123456));
    assert_eq!(fb.get_pixel(4, 3), PixelValue::Value(CLEAR_COLOR));
    // outside the screen: nothing happens
    assert_eq!(fb.draw_pixel(8, 0, 1), None);
    assert_eq!(fb.get_pixel(8, 0), PixelValue::Missing);
    assert_eq!(fb.get_pixel(0, 4), PixelValue::Missing);
}

#[test]
fn enhanced_fill_rect_is_cut_to_screen() {
    let mut fb = EnhancedFramebuffer::new();
    fb.init(config(true));
    fb.fill_rect(6, 2, 10, 10, 7);
    assert_eq!(fb.get_pixel(6, 2), PixelValue::Value(7));
    assert_eq!(fb.get_pixel(7, 3), PixelValue::Value(7));
    assert_eq!(fb.get_pixel(5, 2), PixelValue::Value(CLEAR_COLOR));
    assert_eq!(fb.get_pixel(6, 1), PixelValue::Value(CLEAR_COLOR));

    let mut hw = EnhancedFramebuffer::new();
    hw.init(config(false));
    assert_eq!(
        hw.fill_rect(6, 2, 10, 10, 7),
        Some(HwAccess::Fill { x0: 6, x1: 8, y0: 2, y1: 4, color: 7 })
    );
}

#[test]
fn enhanced_copy_region_moves_block() {
    let mut fb = EnhancedFramebuffer::new();
    fb.init(config(true));
    fb.draw_pixel(0, 0, 1);
    fb.draw_pixel(1, 0, 2);
    fb.draw_pixel(0, 1, 3);
    fb.draw_pixel(1, 1, 4);
    // overlapping copy one pixel down and right
    assert_eq!(fb.copy_region(0, 0, 1, 1, 2, 2), None);
    assert_eq!(fb.get_pixel(1, 1), PixelValue::Value(1));
    assert_eq!(fb.get_pixel(2, 1), PixelValue::Value(2));
    assert_eq!(fb.get_pixel(1, 2), PixelValue::Value(3));
    assert_eq!(fb.get_pixel(2, 2), PixelValue::Value(4));
    assert_eq!(fb.get_pixel(0, 0), PixelValue::Value(1));
    // out of bounds: nothing
    assert_eq!(fb.copy_region(7, 0, 0, 0, 2, 1), None);
    assert_eq!(fb.get_pixel(0, 0), PixelValue::Value(1));
}

#[test]
fn enhanced_flip_counts_only_when_double_buffered() {
    let mut fb = EnhancedFramebuffer::new();
    fb.init(config(true));
    assert!(fb.flip());
    assert!(fb.flip());
    assert_eq!(fb.flip_count(), 2);

    let mut single = EnhancedFramebuffer::new();
    single.init(config(false));
    assert!(!single.flip());
    assert_eq!(single.flip_count(), 0);

    let mut no_hw = EnhancedFramebuffer::new();
    let mut c = config(true);
    c.addr = 0;
    no_hw.init(c);
    assert!(!no_hw.flip());
}

#[test]
fn enhanced_clear_after_drawing() {
    let mut fb = EnhancedFramebuffer::new();
    fb.init(config(true));
    fb.fill_rect(0, 0, 8, 4, 9);
    assert_eq!(fb.get_pixel(7, 3), PixelValue::Value(9));
    assert_eq!(fb.clear(), None);
    assert_eq!(fb.get_pixel(7, 3), PixelValue::Value(CLEAR_COLOR));
}
