use image::Rgb;
use image::RgbImage;
use pixelmask::pixels::PixelBuffer;

fn gradient(width: u32, height: u32) -> Vec<u8> {
    let mut data = Vec::new();
    for i in 0..(width * height) {
        data.push((i % 251) as u8);
        data.push(((i * 7) % 253) as u8);
        data.push(((i * 13) % 255) as u8);
    }
    data
}

#[test]
fn buffer_from_raw_keeps_dimensions_and_bytes() {
    let data = gradient(5, 3);
    let buf = PixelBuffer::from_raw(5, 3, data.clone()).unwrap();
    assert_eq!(buf.dimensions(), (5, 3));
    assert_eq!(buf.width(), 5);
    assert_eq!(buf.height(), 3);
    assert_eq!(buf.into_raw(), data);
}

#[test]
fn buffer_rejects_an_empty_side() {
    assert!(PixelBuffer::from_raw(0, 3, Vec::new()).is_none());
    assert!(PixelBuffer::from_raw(3, 0, Vec::new()).is_none());
    assert!(PixelBuffer::from_raw(0, 0, Vec::new()).is_none());
    assert!(PixelBuffer::from_raw(0, 1, vec![1, 2, 3]).is_none());
}

#[test]
fn buffer_rejects_a_wrong_number_of_bytes() {
    assert!(PixelBuffer::from_raw(2, 2, vec![0; 11]).is_none());
    assert!(PixelBuffer::from_raw(2, 2, vec![0; 13]).is_none());
    assert!(PixelBuffer::from_raw(2, 2, Vec::new()).is_none());
    assert!(PixelBuffer::from_raw(u32::MAX, u32::MAX, vec![0; 12]).is_none());
    assert!(PixelBuffer::from_raw(2, 2, vec![0; 12]).is_some());
    assert!(PixelBuffer::from_raw(1, 1, vec![0; 3]).is_some());
}

#[test]
fn pixels_are_addressed_row_by_row() {
    let buf = PixelBuffer::from_raw(3, 2, (0..18).collect()).unwrap();
    assert_eq!(buf.get_pixel(0, 0), (0, 1, 2));
    assert_eq!(buf.get_pixel(1, 0), (3, 4, 5));
    assert_eq!(buf.get_pixel(2, 0), (6, 7, 8));
    assert_eq!(buf.get_pixel(0, 1), (9, 10, 11));
    assert_eq!(buf.get_pixel(1, 1), (12, 13, 14));
    assert_eq!(buf.get_pixel(2, 1), (15, 16, 17));
}

#[test]
fn put_pixel_changes_one_pixel_only() {
    let mut buf = PixelBuffer::from_raw(3, 2, (0..18).collect()).unwrap();
    buf.put_pixel(1, 1, (200, 201, 202));
    assert_eq!(buf.get_pixel(1, 1), (200, 201, 202));
    assert_eq!(buf.dimensions(), (3, 2));
    assert_eq!(
        buf.into_raw(),
        vec![0, 1, 2, 3, 4, 5, 6, 7, 8, 9, 10, 11, 200, 201, 202, 15, 16, 17]
    );
}

#[test]
fn buffer_agrees_with_the_image_it_came_from() {
    let img = RgbImage::from_fn(7, 4, |x, y| Rgb([x as u8, y as u8, (x * y) as u8]));
    let buf = PixelBuffer::from_raw(7, 4, img.clone().into_raw()).unwrap();
    for y in 0..4 {
        for x in 0..7 {
            let Rgb([r, g, b]) = *img.get_pixel(x, y);
            assert_eq!(buf.get_pixel(x, y), (r, g, b));
        }
    }
    let back = RgbImage::from_raw(7, 4, buf.into_raw()).unwrap();
    assert_eq!(back, img);
}
