use quadrant_hash::gray::GrayImage;
use quadrant_hash::hash::{HashError, SubArea};
use quadrant_hash::{HASHLEN, HEXLEN, SIZE};

fn image_of(pixels: &[u8; 256]) -> GrayImage {
    GrayImage::from_raw(16, 16, pixels.to_vec()).expect("256 pixels fill 16 by 16")
}

fn hash_of(pixels: &[u8; 256]) -> quadrant_hash::hash::Hash {
    quadrant_hash::hash::Hash::from_grayimage(image_of(pixels))
}

/// Top-left quadrant ascending from 0 to 63 in index order, 200 elsewhere.
fn ramp_image() -> [u8; 256] {
    let mut pixels = [200u8; 256];
    let mut next = 0u8;
    for y in 0..8 {
        for x in 0..8 {
            pixels[x + 16 * y] = next;
            next += 1;
        }
    }
    pixels
}

#[test]
fn constants_fit_together() {
    assert_eq!(SIZE, 16);
    assert_eq!(HASHLEN, 256);
    assert_eq!(HEXLEN, 64);
    assert_eq!((SIZE * SIZE) as usize, HASHLEN);
    assert_eq!(HASHLEN / 4, HEXLEN);
}

#[test]
fn black_image_gives_all_ones() {
    let hash = hash_of(&[0u8; 256]);
    assert_eq!(hash.subarea_medians(), [[0, 0], [0, 0]]);
    assert_eq!(hash.binary256(), [1u8; 256]);
    assert_eq!(hash.grayimage256(), [0u8; 256]);
    let hex = hash.to_string_hex();
    assert_eq!(hex.len(), 64);
    assert_eq!(hex, "F".repeat(64));
    assert_eq!(hash.to_hex(), ['F'; 64]);
    assert_eq!(hash.to_string(), "1".repeat(256));
}

#[test]
fn ramp_in_top_left_quadrant() {
    let pixels = ramp_image();
    let hash = hash_of(&pixels);
    let medians = hash.subarea_medians();
    assert_eq!(medians[0][0], 32);
    assert_eq!(medians[1][0], 200);
    assert_eq!(medians[0][1], 200);
    assert_eq!(medians[1][1], 200);

    let bits = hash.binary256();
    for y in 0..16 {
        for x in 0..16 {
            let i = x + 16 * y;
            let expected = if x < 8 && y < 8 {
                if pixels[i] >= 32 {
                    1
                } else {
                    0
                }
            } else {
                1
            };
            assert_eq!(bits[i], expected, "pixel {}", i);
        }
    }
    // rows 0 to 3 hold 0..=31 on the left, rows 4 to 7 hold 32..=63
    assert_eq!(bits[16 * 3 + 7], 0);
    assert_eq!(bits[16 * 4], 1);

    let hex = hash.to_string_hex();
    let expected: String = "00FF".repeat(4) + &"FFFF".repeat(12);
    assert_eq!(hex, expected);

    let back = quadrant_hash::hash::Hash::from_hexhash(&hash.to_hex()).expect("digits only");
    assert_eq!(back.binary256(), bits);
    assert_eq!(back.grayimage256(), [0u8; 256]);
    assert_eq!(back.subarea_medians(), [[0, 0], [0, 0]]);
}

#[test]
fn invalid_digit_is_reported() {
    let mut hex = ['0'; 64];
    hex[10] = 'G';
    let result = quadrant_hash::hash::Hash::from_hexhash(&hex);
    assert_eq!(result.err(), Some(HashError::InvalidHexInput));

    let all_g = ['G'; 64];
    assert!(quadrant_hash::hash::Hash::from_hexhash(&all_g).is_err());
}

#[test]
fn lower_case_is_no_digit() {
    let mut hex = ['A'; 64];
    assert!(quadrant_hash::hash::Hash::from_hexhash(&hex).is_ok());
    hex[63] = 'a';
    assert_eq!(
        quadrant_hash::hash::Hash::from_hexhash(&hex).err(),
        Some(HashError::InvalidHexInput)
    );
}

#[test]
fn construction_is_deterministic() {
    let mut pixels = [0u8; 256];
    for i in 0..256 {
        pixels[i] = ((i * 37 + 11) % 251) as u8;
    }
    let first = hash_of(&pixels);
    let second = hash_of(&pixels);
    assert_eq!(first, second);
    assert_eq!(first.binary256(), second.binary256());
    assert_eq!(first.grayimage256(), second.grayimage256());
    assert_eq!(first.subarea_medians(), second.subarea_medians());
    assert_eq!(first, quadrant_hash::hash::Hash::from_grayscale(pixels));
}

#[test]
fn pixels_are_copied_in_row_major_order() {
    let mut pixels = [0u8; 256];
    for i in 0..256 {
        pixels[i] = i as u8;
    }
    let hash = hash_of(&pixels);
    assert_eq!(hash.grayimage256(), pixels);
    // column 15 of row 0 is index 15, column 0 of row 1 is index 16
    assert_eq!(hash.grayimage256()[15], 15);
    assert_eq!(hash.grayimage256()[16], 16);
}

#[test]
fn median_is_the_value_at_rank_32() {
    // each quadrant holds its 64 values in descending index order
    let mut pixels = [0u8; 256];
    for y in 0..16 {
        for x in 0..16 {
            let within = (x % 8) + 8 * (y % 8);
            let base = if x < 8 { 0 } else { 100 } + if y < 8 { 0 } else { 50 };
            pixels[x + 16 * y] = (base + 63 - within) as u8;
        }
    }
    let hash = hash_of(&pixels);
    let medians = hash.subarea_medians();
    assert_eq!(medians[0][0], 32);
    assert_eq!(medians[1][0], 132);
    assert_eq!(medians[0][1], 82);
    assert_eq!(medians[1][1], 182);
    let ones = hash.binary256().iter().filter(|b| **b == 1).count();
    assert_eq!(ones, 4 * 32);
}

#[test]
fn median_of_two_values_is_the_upper_one() {
    // 32 pixels of 10 and 32 pixels of 20 in every quadrant: rank 32 is 20
    let mut pixels = [0u8; 256];
    for i in 0..256 {
        pixels[i] = if (i / 16) % 2 == 0 { 10 } else { 20 };
    }
    let hash = hash_of(&pixels);
    assert_eq!(hash.subarea_medians(), [[20, 20], [20, 20]]);
    for i in 0..256 {
        assert_eq!(hash.binary256()[i], if pixels[i] == 20 { 1 } else { 0 });
    }

    // 33 pixels of 10 and 31 of 20 in the top-left quadrant: rank 32 is 10
    pixels[16] = 10;
    let hash = hash_of(&pixels);
    assert_eq!(hash.subarea_medians()[0][0], 10);
    assert_eq!(hash.binary256()[0], 1);
    assert_eq!(hash.binary256()[17], 1);
}

#[test]
fn pixel_equal_to_threshold_is_set() {
    let pixels = ramp_image();
    let hash = hash_of(&pixels);
    let threshold = hash.subarea_medians()[0][0];
    let at = pixels.iter().position(|p| *p == threshold).expect("32 is a pixel");
    let below = pixels.iter().position(|p| *p == threshold - 1).expect("31 is a pixel");
    assert_eq!(hash.binary256()[at], 1);
    assert_eq!(hash.binary256()[below], 0);
}

#[test]
fn bits_follow_the_threshold_of_their_own_quadrant() {
    let mut pixels = [0u8; 256];
    for i in 0..256 {
        pixels[i] = ((i * 73 + 5) % 256) as u8;
    }
    let hash = hash_of(&pixels);
    let medians = hash.subarea_medians();
    for i in 0..256 {
        let threshold = match hash.get_subarea(i) {
            SubArea::TopLeft => medians[0][0],
            SubArea::TopRight => medians[1][0],
            SubArea::BottomLeft => medians[0][1],
            SubArea::BottomRight => medians[1][1],
        };
        assert_eq!(hash.binary256()[i] == 1, pixels[i] >= threshold);
        assert!(hash.binary256()[i] <= 1);
    }
}

#[test]
fn quadrants_partition_the_indices() {
    let hash = quadrant_hash::hash::Hash::new();
    let mut counts = [0usize; 4];
    for i in 0..256 {
        let x = i % 16;
        let y = i / 16;
        let area = hash.get_subarea(i);
        let expected = match (x < 8, y < 8) {
            (true, true) => SubArea::TopLeft,
            (false, true) => SubArea::TopRight,
            (true, false) => SubArea::BottomLeft,
            (false, false) => SubArea::BottomRight,
        };
        assert_eq!(area, expected);
        assert_eq!(area, SubArea::at(i));
        match area {
            SubArea::TopLeft => counts[0] += 1,
            SubArea::TopRight => counts[1] += 1,
            SubArea::BottomLeft => counts[2] += 1,
            SubArea::BottomRight => counts[3] += 1,
        }
    }
    assert_eq!(counts, [64, 64, 64, 64]);
}

#[test]
fn quadrant_boundaries() {
    let hash = quadrant_hash::hash::Hash::new();
    assert_eq!(hash.get_subarea(0), SubArea::TopLeft);
    assert_eq!(hash.get_subarea(7), SubArea::TopLeft);
    assert_eq!(hash.get_subarea(8), SubArea::TopRight);
    assert_eq!(hash.get_subarea(15), SubArea::TopRight);
    assert_eq!(hash.get_subarea(127), SubArea::TopRight);
    assert_eq!(hash.get_subarea(128), SubArea::BottomLeft);
    assert_eq!(hash.get_subarea(135), SubArea::BottomLeft);
    assert_eq!(hash.get_subarea(136), SubArea::BottomRight);
    assert_eq!(hash.get_subarea(255), SubArea::BottomRight);
}

#[test]
fn new_is_all_zero() {
    let hash = quadrant_hash::hash::Hash::new();
    assert_eq!(hash.grayimage256(), [0u8; 256]);
    assert_eq!(hash.binary256(), [0u8; 256]);
    assert_eq!(hash.subarea_medians(), [[0, 0], [0, 0]]);
    assert_eq!(hash.to_string_hex(), "0".repeat(64));
    assert_eq!(hash.to_string(), "0".repeat(256));
    let read = quadrant_hash::hash::Hash::from_hexhash(&['0'; 64]).expect("digits only");
    assert_eq!(hash, read);
}

#[test]
fn image_of_another_size_is_refused() {
    let small = GrayImage::from_raw(8, 8, vec![0u8; 64]).expect("64 pixels fill 8 by 8");
    assert!(quadrant_hash::hash::Hash::try_from_grayimage(small).is_none());
    let wide = GrayImage::from_raw(32, 8, vec![0u8; 256]).expect("256 pixels fill 32 by 8");
    assert!(quadrant_hash::hash::Hash::try_from_grayimage(wide).is_none());
    let square = GrayImage::from_raw(16, 16, vec![9u8; 256]).expect("256 pixels fill 16 by 16");
    let hash = quadrant_hash::hash::Hash::try_from_grayimage(square).expect("16 by 16");
    assert_eq!(hash, hash_of(&[9u8; 256]));
}

#[test]
fn raw_buffer_must_hold_the_image() {
    assert!(GrayImage::from_raw(16, 16, vec![0u8; 255]).is_none());
    assert!(GrayImage::from_raw(16, 16, Vec::new()).is_none());
    assert!(GrayImage::from_raw(0, 0, Vec::new()).is_some());
    assert!(GrayImage::from_raw(u32::MAX, u32::MAX, vec![0u8; 16]).is_none());

    // what lies beyond width * height is no part of the image
    let mut long = vec![3u8; 256];
    long.extend_from_slice(&[250u8; 40]);
    let img = GrayImage::from_raw(16, 16, long).expect("more than enough");
    let hash = quadrant_hash::hash::Hash::from_grayimage(img);
    assert_eq!(hash.grayimage256(), [3u8; 256]);
    assert_eq!(hash.subarea_medians(), [[3, 3], [3, 3]]);
}

#[test]
fn image_crate_buffer_carries_over() {
    let mut source = image::GrayImage::new(16, 16);
    source.put_pixel(15, 0, image::Luma([255]));
    source.put_pixel(0, 15, image::Luma([77]));
    let (width, height) = source.dimensions();
    let img = GrayImage::from_raw(width, height, source.into_raw()).expect("own buffer fits");
    let hash = quadrant_hash::hash::Hash::from_grayimage(img);
    let gray = hash.grayimage256();
    assert_eq!(gray[15], 255);
    assert_eq!(gray[16 * 15], 77);
    assert_eq!(gray.iter().filter(|p| **p != 0).count(), 2);
}
