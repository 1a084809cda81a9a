use aurora::framebuffer::Framebuffer;

#[test]
fn new_buffer_is_opaque_black() {
    let fb = Framebuffer::new(3, 2);
    assert_eq!(fb.width, 3);
    assert_eq!(fb.height, 2);
    assert_eq!(fb.pixels, vec![[0, 0, 0, 255]; 6]);
}

#[test]
fn empty_buffer_has_no_pixels() {
    assert!(Framebuffer::new(0, 7).pixels.is_empty());
    assert!(Framebuffer::new(7, 0).pixels.is_empty());
}

#[test]
fn set_pixel_writes_the_row_major_slot() {
    let mut fb = Framebuffer::new(4, 3);
    fb.set_pixel(1, 2, [10, 20, 30, 40]);
    let mut expected = vec![[0, 0, 0, 255]; 12];
    expected[2 * 4 + 1] = [10, 20, 30, 40];
    assert_eq!(fb.pixels, expected);
    assert_eq!((fb.width, fb.height), (4, 3));
}

#[test]
fn set_pixel_reaches_first_and_last_slot() {
    let mut fb = Framebuffer::new(5, 4);
    fb.set_pixel(0, 0, [1, 1, 1, 1]);
    fb.set_pixel(4, 3, [9, 9, 9, 9]);
    assert_eq!(fb.pixels[0], [1, 1, 1, 1]);
    assert_eq!(fb.pixels[19], [9, 9, 9, 9]);
    assert_eq!(fb.pixels[1..19], vec![[0, 0, 0, 255]; 18][..]);
}

#[test]
fn slots_follow_raster_order() {
    let (width, height) = (7usize, 5usize);
    let mut fb = Framebuffer::new(width, height);
    let mut count: u8 = 0;
    for y in 0..height {
        for x in 0..width {
            fb.set_pixel(x, y, [count, 0, 0, 255]);
            count += 1;
        }
    }
    for (slot, pixel) in fb.pixels.iter().enumerate() {
        assert_eq!(pixel[0] as usize, slot);
    }
}

#[test]
fn later_write_wins() {
    let mut fb = Framebuffer::new(2, 2);
    fb.set_pixel(1, 1, [1, 2, 3, 4]);
    fb.set_pixel(1, 1, [5, 6, 7, 8]);
    assert_eq!(fb.pixels[3], [5, 6, 7, 8]);
}
