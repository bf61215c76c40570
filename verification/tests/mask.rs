use koharu::mask::{refine_segmentation_mask, GrayMask};

// The detector's binary threshold; the expected pixels below hold for any threshold under
// the predicted value 200.
const THRESHOLD: u8 = 76;

fn gray_mask(width: u32, height: u32, value: impl Fn(u32, u32) -> u8) -> GrayMask {
    let mut pixels = Vec::with_capacity((width * height) as usize);
    for y in 0..height {
        for x in 0..width {
            pixels.push(value(x, y));
        }
    }
    GrayMask { width, height, pixels }
}

#[test]
fn refine_segmentation_mask_erases_when_blocks_are_missing() {
    let pred_mask = gray_mask(16, 16, |x, y| {
        if (4..12).contains(&x) && (5..11).contains(&y) {
            200
        } else {
            0
        }
    });

    let mask = refine_segmentation_mask(&pred_mask, &[], THRESHOLD);
    assert_eq!(mask.get(0, 0), 0);
    assert_eq!(mask.get(8, 8), 0); // No blocks, must be wiped cleanly
}

#[test]
fn refine_segmentation_mask_clips_outside_blocks() {
    let pred_mask = gray_mask(32, 32, |x, y| {
        if (8..24).contains(&x) && (10..22).contains(&y) {
            200
        } else {
            0
        }
    });

    // The crop bounds of the block at (10, 11), 4 by 4 (font size 4): [10, 11, 14, 15].
    let bounds = [[10u32, 11, 14, 15]];
    let mask = refine_segmentation_mask(&pred_mask, &bounds, THRESHOLD);
    let without_blocks = refine_segmentation_mask(&pred_mask, &[], THRESHOLD);

    // Assert providing bounding blocks saves the mask within bounds
    assert_ne!(mask.pixels, without_blocks.pixels);
    // Assert pixel INSIDE the block is preserved
    assert_eq!(mask.get(12, 13), 255);
    // Assert pixel OUTSIDE the block (but inside high-prob region) is cleared
    assert_eq!(mask.get(20, 13), 0);
    // Assert pixel JUST OUTSIDE the block boundary is cleared
    assert_eq!(mask.get(15, 13), 0);
}

#[test]
fn refined_mask_dilates_confident_pixels_within_bounds() {
    // One confident pixel at (5, 5); bounds cover columns 2..9, rows 2..9.
    let pred_mask = gray_mask(12, 12, |x, y| if x == 5 && y == 5 { 250 } else { 10 });
    let mask = refine_segmentation_mask(&pred_mask, &[[2, 2, 9, 9]], THRESHOLD);
    assert_eq!(mask.width, 12);
    assert_eq!(mask.height, 12);
    assert_eq!(mask.pixels.len(), 144);
    assert_eq!(mask.get(5, 5), 255);
    assert_eq!(mask.get(7, 5), 255);
    assert_eq!(mask.get(6, 6), 255);
    assert_eq!(mask.get(8, 5), 0);
    assert_eq!(mask.get(7, 6), 0);
    assert_eq!(mask.get(1, 1), 0);
}

#[test]
fn refined_mask_keeps_dilation_inside_the_bounds() {
    let pred_mask = gray_mask(10, 10, |_, _| 255);
    let mask = refine_segmentation_mask(&pred_mask, &[[0, 0, 3, 3], [7, 7, 10, 10], [5, 5, 5, 9]], THRESHOLD);
    let white = mask.pixels.iter().filter(|&&p| p == 255).count();
    assert_eq!(white, 18);
    assert_eq!(mask.get(3, 3), 0);
    assert_eq!(mask.get(9, 9), 255);
}

#[test]
fn refined_mask_of_empty_image() {
    let pred_mask = GrayMask { width: 0, height: 7, pixels: Vec::new() };
    let mask = refine_segmentation_mask(&pred_mask, &[[0, 0, 0, 0]], THRESHOLD);
    assert_eq!(mask.pixels.len(), 0);
    assert_eq!(mask.height, 7);
}
