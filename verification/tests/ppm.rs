use raytracer::PPMBuffer;

#[test]
fn new_raster_is_black() {
    let img = PPMBuffer::new(2, 3);
    assert_eq!(img.width, 2);
    assert_eq!(img.height, 3);
    assert_eq!(img.size, 18);
    assert_eq!(img.buffer, vec![0u8; 18]);
}

#[test]
fn empty_raster() {
    let img = PPMBuffer::new(0, 7);
    assert_eq!(img.size, 0);
    assert!(img.buffer.is_empty());
}

#[test]
fn byte_count_is_three_per_pixel() {
    assert_eq!(PPMBuffer::byte_count(2, 3), Some(18));
    assert_eq!(PPMBuffer::byte_count(640, 480), Some(921600));
    assert_eq!(PPMBuffer::byte_count(0, 480), Some(0));
}

#[test]
fn byte_count_beyond_the_machine() {
    assert_eq!(PPMBuffer::byte_count(u64::MAX, u64::MAX), None);
    assert_eq!(PPMBuffer::byte_count(u64::MAX, 1), None);
    assert_eq!(PPMBuffer::byte_count(1 << 40, 1 << 40), None);
}

#[test]
fn set_pix_writes_three_bytes_at_the_offset() {
    let mut img = PPMBuffer::new(2, 3);
    assert!(img.set_pix((1, 2), (1, 2, 3)));
    let mut expected = vec![0u8; 18];
    expected[15] = 1;
    expected[16] = 2;
    expected[17] = 3;
    assert_eq!(img.buffer, expected);
    assert!(img.set_pix((0, 0), (9, 8, 7)));
    expected[0] = 9;
    expected[1] = 8;
    expected[2] = 7;
    assert_eq!(img.buffer, expected);
    assert_eq!((img.width, img.height, img.size), (2, 3, 18));
}

#[test]
fn set_pix_overwrites() {
    let mut img = PPMBuffer::new(1, 1);
    assert!(img.set_pix((0, 0), (1, 2, 3)));
    assert!(img.set_pix((0, 0), (4, 5, 6)));
    assert_eq!(img.buffer, vec![4, 5, 6]);
}

#[test]
fn set_pix_below_the_last_row_is_refused() {
    let mut img = PPMBuffer::new(2, 3);
    assert!(!img.set_pix((0, 3), (9, 9, 9)));
    assert!(!img.set_pix((1, 3), (9, 9, 9)));
    assert!(!img.set_pix((0, 100), (9, 9, 9)));
    assert_eq!(img.buffer, vec![0u8; 18]);
}

#[test]
fn set_pix_far_outside_is_refused() {
    let mut img = PPMBuffer::new(2, 3);
    assert!(!img.set_pix((u64::MAX, u64::MAX), (9, 9, 9)));
    assert!(!img.set_pix((u64::MAX, 0), (9, 9, 9)));
    assert!(!img.set_pix((0, u64::MAX), (9, 9, 9)));
    assert_eq!(img.buffer, vec![0u8; 18]);
}

#[test]
fn set_pix_on_an_empty_raster_is_refused() {
    let mut img = PPMBuffer::new(0, 0);
    assert!(!img.set_pix((0, 0), (1, 1, 1)));
    assert!(img.buffer.is_empty());
}

#[test]
fn set_pix_past_the_row_end_runs_into_the_next_row() {
    let mut img = PPMBuffer::new(2, 3);
    assert!(img.set_pix((2, 0), (4, 5, 6)));
    let mut expected = vec![0u8; 18];
    expected[6] = 4;
    expected[7] = 5;
    expected[8] = 6;
    assert_eq!(img.buffer, expected);
    assert!(!img.set_pix((2, 2), (1, 1, 1)));
    assert_eq!(img.buffer, expected);
}

#[test]
fn binary_header() {
    assert_eq!(PPMBuffer::new(2, 3).header(), b"P6\n2 3\n255\n".to_vec());
    assert_eq!(PPMBuffer::new(640, 480).header(), b"P6\n640 480\n255\n".to_vec());
    assert_eq!(PPMBuffer::new(0, 0).header(), b"P6\n0 0\n255\n".to_vec());
}

#[test]
fn binary_pixmap_is_header_then_raster() {
    let mut img = PPMBuffer::new(2, 2);
    img.set_pix((0, 0), (255, 0, 0));
    img.set_pix((1, 0), (0, 255, 0));
    img.set_pix((0, 1), (0, 0, 255));
    img.set_pix((1, 1), (10, 20, 30));
    let mut expected = b"P6\n2 2\n255\n".to_vec();
    expected.extend_from_slice(&[255, 0, 0, 0, 255, 0, 0, 0, 255, 10, 20, 30]);
    assert_eq!(img.to_bytes(), expected);
}

#[test]
fn plain_pixmap_has_one_line_for_each_pixel() {
    let mut img = PPMBuffer::new(2, 2);
    img.set_pix((0, 0), (255, 0, 0));
    img.set_pix((1, 0), (0, 255, 0));
    img.set_pix((0, 1), (0, 0, 255));
    img.set_pix((1, 1), (10, 20, 30));
    let expected = b"P3\n2 2\n255\n255 0 0\n0 255 0\n0 0 255\n10 20 30\n".to_vec();
    assert_eq!(img.to_text(), expected);
}

#[test]
fn plain_pixmap_of_an_empty_raster_is_its_header() {
    assert_eq!(PPMBuffer::new(0, 5).to_text(), b"P3\n0 5\n255\n".to_vec());
    assert_eq!(PPMBuffer::new(0, 5).to_bytes(), b"P6\n0 5\n255\n".to_vec());
}
