use recruitment::collage::{compose, encode_collage, Thumbnail};
use recruitment::errors::RecruitError;

fn solid(width: u32, height: u32, r: u8, g: u8, b: u8) -> Thumbnail {
    let mut data = Vec::new();
    for _ in 0..width * height {
        data.push(r);
        data.push(g);
        data.push(b);
    }
    Thumbnail { width, height, data }
}

fn batch(width: u32, height: u32) -> Vec<Thumbnail> {
    // Thumbnail k is a solid colour (k, 100 + k, 200 + k as u8).
    (0..10u8)
        .map(|k| solid(width, height, k, 100 + k, 200u8.wrapping_add(k)))
        .collect()
}

#[test]
fn test_grid_corner_cells() {
    // One-pixel thumbnails make each grid cell one pixel: the top row shows
    // draws 4,3,2,1,0 left to right, the bottom row 9,8,7,6,5.
    let images = batch(1, 1);
    let out = compose(&images, 1, 1);
    assert_eq!(out.len(), 30);
    let pixel = |col: usize, row: usize| -> [u8; 3] {
        let base = (row * 5 + col) * 3;
        [out[base], out[base + 1], out[base + 2]]
    };
    let expect = |k: u8| [k, 100 + k, 200u8.wrapping_add(k)];
    // Top-right shows draw 0, bottom-right draw 5.
    assert_eq!(pixel(4, 0), expect(0));
    assert_eq!(pixel(4, 1), expect(5));
    // Top-left shows draw 4, bottom-left draw 9.
    assert_eq!(pixel(0, 0), expect(4));
    assert_eq!(pixel(0, 1), expect(9));
}

#[test]
fn test_grid_full_layout() {
    let images = batch(2, 3);
    let out = compose(&images, 2, 3);
    // 5 columns of width 2 and 2 rows of height 3, 3 bytes per pixel.
    assert_eq!(out.len(), 30 * 2 * 3);
    // Every byte of every cell equals the thumbnail drawn there.
    for row in 0..2usize {
        for col in 0..5usize {
            let k = (4 - col + 5 * row) as u8;
            let want = [k, 100 + k, 200u8.wrapping_add(k)];
            for ly in 0..3usize {
                for lx in 0..2usize {
                    let base = ((row * 3 + ly) * 10 + col * 2 + lx) * 3;
                    assert_eq!(out[base], want[0]);
                    assert_eq!(out[base + 1], want[1]);
                    assert_eq!(out[base + 2], want[2]);
                }
            }
        }
    }
}

#[test]
fn test_encode_collage_produces_jpeg() {
    let images = batch(8, 8);
    let out = compose(&images, 8, 8);
    let jpeg = encode_collage(&out, 40, 16).unwrap();
    // A JPEG stream starts with the SOI marker and is not the raw buffer.
    assert!(jpeg.len() > 4);
    assert_eq!(jpeg[0], 0xFF);
    assert_eq!(jpeg[1], 0xD8);
    assert_ne!(jpeg, out);
}

#[test]
fn test_encode_collage_rejects_empty_dimensions() {
    // A zero-sized image cannot be encoded; the failure is reported, not
    // swallowed.
    let empty: Vec<u8> = Vec::new();
    assert_eq!(
        encode_collage(&empty, 0, 0),
        Err(RecruitError::CompositeEncodingFailure)
    );
}
