use mikan_os::frame_buffer_config::{FrameBufferConfig, PixelFormat};
use mikan_os::graphics::{
    desktop_bg_color, draw_desktop, BgrResv8BitPerColorPixelWriter, PixelColor, PixelWrite,
    Rectangle, RgbResv8BitPerColorPixelWriter, Vector2D,
};

fn config(width: usize, height: usize, format: PixelFormat) -> FrameBufferConfig {
    FrameBufferConfig {
        frame_buffer: 0x8000_0000,
        pixels_per_scan_line: width,
        horizontal_resolution: width,
        vertical_resolution: height,
        pixel_format: format,
    }
}

fn rgb_at(writer: &RgbResv8BitPerColorPixelWriter, x: usize, y: usize) -> PixelColor {
    let at = 4 * (writer.buffer.config.pixels_per_scan_line * y + x);
    let bytes = &writer.buffer.bytes;
    PixelColor::new(bytes[at], bytes[at + 1], bytes[at + 2])
}

#[test]
fn to_color_splits_the_channels() {
    assert_eq!(PixelColor::to_color(0x00c6_a10f), PixelColor::new(0xc6, 0xa1, 0x0f));
    assert_eq!(PixelColor::to_color(0xff00_0000), PixelColor::new(0, 0, 0));
    assert_eq!(PixelColor::to_color(0xffffff), PixelColor::new(255, 255, 255));
    assert_eq!(PixelColor::default(), PixelColor::new(0, 0, 0));
}

#[test]
fn vector_accessors_and_arithmetic() {
    let v = Vector2D::new(3, -4);
    assert_eq!(v.x(), 3);
    assert_eq!(v.y(), -4);
    assert_eq!(v + Vector2D::new(10, 20), Vector2D::new(13, 16));
    assert_eq!(v - Vector2D::new(10, 20), Vector2D::new(-7, -24));
    let mut w = Vector2D::new(1, 1);
    w.add_assign(Vector2D::new(2, 3));
    assert_eq!(w, Vector2D::new(3, 4));
    w.sub_assign(Vector2D::new(5, 5));
    assert_eq!(w, Vector2D::new(-2, -1));
}

#[test]
fn element_max_and_min_work_by_coordinate() {
    let a = Vector2D::new(1, 9);
    let b = Vector2D::new(4, 2);
    assert_eq!(Vector2D::element_max(&a, &b), Vector2D::new(4, 9));
    assert_eq!(Vector2D::element_min(&a, &b), Vector2D::new(1, 2));
    assert_eq!(Vector2D::element_max(&a, &a), a);
    let c = Vector2D::new(7u32, 0u32);
    let d = Vector2D::new(2u32, 5u32);
    assert_eq!(Vector2D::element_max(&c, &d), Vector2D::new(7u32, 5u32));
}

#[test]
fn rectangles_intersect() {
    let a = Rectangle { pos: Vector2D::new(0, 0), size: Vector2D::new(10, 10) };
    let b = Rectangle { pos: Vector2D::new(5, 7), size: Vector2D::new(10, 10) };
    let both = a & b;
    assert_eq!(both.pos, Vector2D::new(5, 7));
    assert_eq!(both.size, Vector2D::new(5, 3));
    assert_eq!(b & a, both);
}

#[test]
fn rectangles_apart_give_the_empty_rectangle() {
    let a = Rectangle { pos: Vector2D::new(0, 0), size: Vector2D::new(10, 10) };
    let b = Rectangle { pos: Vector2D::new(11, 0), size: Vector2D::new(3, 3) };
    let none = a & b;
    assert_eq!(none.pos, Vector2D::new(0, 0));
    assert_eq!(none.size, Vector2D::new(0, 0));
}

#[test]
fn rectangles_that_touch_share_an_edge_of_no_width() {
    let a = Rectangle { pos: Vector2D::new(0, 0), size: Vector2D::new(10, 10) };
    let b = Rectangle { pos: Vector2D::new(10, 2), size: Vector2D::new(3, 3) };
    let edge = a & b;
    assert_eq!(edge.pos, Vector2D::new(10, 2));
    assert_eq!(edge.size, Vector2D::new(0, 3));
}

#[test]
fn rgb_writer_stores_red_first() {
    let mut writer = RgbResv8BitPerColorPixelWriter::new(config(4, 3, PixelFormat::Rgb));
    assert_eq!(writer.buffer.bytes.len(), 4 * 4 * 3);
    writer.write(Vector2D::new(2, 1), &PixelColor::new(1, 2, 3));
    let at = 4 * (4 * 1 + 2);
    assert_eq!(&writer.buffer.bytes[at..at + 4], &[1, 2, 3, 0]);
    assert_eq!(writer.pixel_at(Vector2D::new(2, 1)), Some(at));
    assert_eq!(writer.buffer.bytes.iter().filter(|b| **b != 0).count(), 3);
}

#[test]
fn bgr_writer_stores_blue_first() {
    let mut writer = BgrResv8BitPerColorPixelWriter::new(config(4, 3, PixelFormat::Bgr));
    writer.write(Vector2D::new(3, 2), &PixelColor::new(1, 2, 3));
    let at = 4 * (4 * 2 + 3);
    assert_eq!(&writer.buffer.bytes[at..at + 4], &[3, 2, 1, 0]);
    assert_eq!(writer.pixel_at(Vector2D::new(3, 2)), Some(at));
}

#[test]
fn writes_out_of_bounds_change_nothing() {
    let mut writer = RgbResv8BitPerColorPixelWriter::new(config(4, 3, PixelFormat::Rgb));
    for pos in [(-1, 0), (0, -1), (4, 0), (0, 3), (i32::MAX, i32::MAX), (i32::MIN, 0)] {
        writer.write(Vector2D::new(pos.0, pos.1), &PixelColor::new(9, 9, 9));
        assert_eq!(writer.pixel_at(Vector2D::new(pos.0, pos.1)), None);
    }
    assert!(writer.buffer.bytes.iter().all(|b| *b == 0));
}

#[test]
fn writer_reports_its_layout() {
    let writer = RgbResv8BitPerColorPixelWriter::new(FrameBufferConfig {
        frame_buffer: 0x1234,
        pixels_per_scan_line: 8,
        horizontal_resolution: 6,
        vertical_resolution: 2,
        pixel_format: PixelFormat::Rgb,
    });
    assert_eq!(writer.frame_buffer(), 0x1234);
    assert_eq!(writer.pixels_per_scan_line(), 8);
    assert_eq!(writer.horizontal_resolution(), 6);
    assert_eq!(writer.vertical_resolution(), 2);
}

#[test]
fn fill_rectangle_paints_the_inside_only() {
    let mut writer = RgbResv8BitPerColorPixelWriter::new(config(6, 5, PixelFormat::Rgb));
    let c = PixelColor::new(7, 8, 9);
    writer.fill_rectangle(Vector2D::new(1, 2), Vector2D::new(3, 2), &c);
    for y in 0..5 {
        for x in 0..6 {
            let inside = (1..4).contains(&x) && (2..4).contains(&y);
            let expected = if inside { c } else { PixelColor::new(0, 0, 0) };
            assert_eq!(rgb_at(&writer, x, y), expected);
        }
    }
}

#[test]
fn fill_rectangle_is_clipped_and_skips_empty_sizes() {
    let mut writer = RgbResv8BitPerColorPixelWriter::new(config(4, 4, PixelFormat::Rgb));
    let c = PixelColor::new(5, 5, 5);
    writer.fill_rectangle(Vector2D::new(-2, -2), Vector2D::new(4, 4), &c);
    for y in 0..4 {
        for x in 0..4 {
            let expected = if x < 2 && y < 2 { c } else { PixelColor::new(0, 0, 0) };
            assert_eq!(rgb_at(&writer, x, y), expected);
        }
    }
    let before = writer.buffer.bytes.clone();
    writer.fill_rectangle(Vector2D::new(0, 0), Vector2D::new(0, 4), &PixelColor::new(1, 1, 1));
    writer.fill_rectangle(Vector2D::new(0, 0), Vector2D::new(4, -1), &PixelColor::new(1, 1, 1));
    assert_eq!(writer.buffer.bytes, before);
}

#[test]
fn draw_rectangle_paints_the_frame() {
    let mut writer = RgbResv8BitPerColorPixelWriter::new(config(6, 6, PixelFormat::Rgb));
    let c = PixelColor::new(200, 100, 50);
    writer.draw_rectangle(Vector2D::new(1, 1), Vector2D::new(4, 3), &c);
    for y in 0..6i32 {
        for x in 0..6i32 {
            let in_x = (1..5).contains(&x);
            let in_y = (1..4).contains(&y);
            let frame = (in_x && (y == 1 || y == 3)) || (in_y && (x == 1 || x == 4));
            let expected = if frame { c } else { PixelColor::new(0, 0, 0) };
            assert_eq!(rgb_at(&writer, x as usize, y as usize), expected);
        }
    }
}

#[test]
fn draw_desktop_paints_background_task_bar_search_box_and_button() {
    let mut writer = RgbResv8BitPerColorPixelWriter::new(config(100, 80, PixelFormat::Rgb));
    draw_desktop(&mut writer);
    assert_eq!(desktop_bg_color(), PixelColor::new(45, 118, 237));
    assert_eq!(rgb_at(&writer, 0, 0), PixelColor::new(45, 118, 237));
    assert_eq!(rgb_at(&writer, 99, 29), PixelColor::new(45, 118, 237));
    assert_eq!(rgb_at(&writer, 99, 30), PixelColor::new(1, 8, 17));
    assert_eq!(rgb_at(&writer, 20, 79), PixelColor::new(1, 8, 17));
    assert_eq!(rgb_at(&writer, 19, 79), PixelColor::new(80, 80, 80));
    assert_eq!(rgb_at(&writer, 0, 30), PixelColor::new(80, 80, 80));
    assert_eq!(rgb_at(&writer, 9, 45), PixelColor::new(80, 80, 80));
    assert_eq!(rgb_at(&writer, 10, 40), PixelColor::new(160, 160, 160));
    assert_eq!(rgb_at(&writer, 39, 69), PixelColor::new(160, 160, 160));
    assert_eq!(rgb_at(&writer, 40, 69), PixelColor::new(1, 8, 17));
    assert_eq!(rgb_at(&writer, 10, 70), PixelColor::new(80, 80, 80));
}

#[test]
fn a_write_leaves_the_fourth_byte_and_all_other_pixels() {
    let mut rgb = RgbResv8BitPerColorPixelWriter::new(config(3, 2, PixelFormat::Rgb));
    let mut bgr = BgrResv8BitPerColorPixelWriter::new(config(3, 2, PixelFormat::Bgr));
    for (i, byte) in rgb.buffer.bytes.iter_mut().enumerate() {
        *byte = 100 + i as u8;
    }
    bgr.buffer.bytes = rgb.buffer.bytes.clone();
    let before = rgb.buffer.bytes.clone();
    rgb.write(Vector2D::new(1, 1), &PixelColor::new(1, 2, 3));
    bgr.write(Vector2D::new(1, 1), &PixelColor::new(1, 2, 3));
    let at = 4 * (3 * 1 + 1);
    let mut expected_rgb = before.clone();
    expected_rgb[at..at + 3].copy_from_slice(&[1, 2, 3]);
    let mut expected_bgr = before.clone();
    expected_bgr[at..at + 3].copy_from_slice(&[3, 2, 1]);
    assert_eq!(rgb.buffer.bytes, expected_rgb);
    assert_eq!(bgr.buffer.bytes, expected_bgr);
    assert_eq!(rgb.buffer.bytes[at + 3], before[at + 3]);
}
