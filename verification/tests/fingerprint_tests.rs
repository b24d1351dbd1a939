use framehash::error::PipelineError;
use framehash::fingerprint::fingerprint;

/// A 9x8 grid whose rows strictly increase from left to right.
fn increasing_grid() -> Vec<u8> {
    let mut g = Vec::new();
    for _y in 0..8 {
        for x in 0..9u32 {
            g.push((x * 20) as u8);
        }
    }
    g
}

/// A 9x8 grid whose rows strictly decrease from left to right.
fn decreasing_grid() -> Vec<u8> {
    let mut g = Vec::new();
    for _y in 0..8 {
        for x in 0..9u32 {
            g.push((200 - x * 20) as u8);
        }
    }
    g
}

/// A 9x8 grid whose rows alternate 0, 1, 0, 1, ...: the comparison at even
/// columns is "less", at odd columns "not less".
fn alternating_grid() -> Vec<u8> {
    let mut g = Vec::new();
    for _y in 0..8 {
        for x in 0..9 {
            g.push(if x % 2 == 0 { 0 } else { 1 });
        }
    }
    g
}

#[test]
fn increasing_rows_give_all_ones() {
    assert_eq!(fingerprint(&increasing_grid()), Ok(u64::MAX));
}

#[test]
fn decreasing_rows_give_zero() {
    assert_eq!(fingerprint(&decreasing_grid()), Ok(0));
}

#[test]
fn uniform_grid_gives_zero() {
    let g = vec![128u8; 72];
    assert_eq!(fingerprint(&g), Ok(0));
}

#[test]
fn alternating_grid_gives_expected_bits() {
    // Even columns set bit (8 * y + x), odd columns clear it: each row byte
    // is 0b01010101, and the rows assemble little-endian.
    assert_eq!(fingerprint(&alternating_grid()), Ok(0x5555_5555_5555_5555));
}

#[test]
fn fingerprint_is_deterministic() {
    let g = alternating_grid();
    assert_eq!(fingerprint(&g), fingerprint(&g));
}

#[test]
fn wrong_grid_size_is_rejected() {
    assert_eq!(
        fingerprint(&vec![0u8; 71]),
        Err(PipelineError::InvalidGridSize)
    );
    assert_eq!(
        fingerprint(&vec![0u8; 73]),
        Err(PipelineError::InvalidGridSize)
    );
    assert_eq!(fingerprint(&Vec::new()), Err(PipelineError::InvalidGridSize));
}

#[test]
fn matches_gradient_hash_library() {
    // The hand-rolled gradient hash must agree with the image_hasher
    // crate's Gradient algorithm on the same 9x8 grid (a same-size resize
    // leaves the grid untouched).
    for grid in [increasing_grid(), decreasing_grid(), alternating_grid()] {
        let ours = fingerprint(&grid).unwrap();
        let img = image::GrayImage::from_raw(9, 8, grid).unwrap();
        let hasher = image_hasher::HasherConfig::with_bytes_type::<[u8; 8]>()
            .hash_alg(image_hasher::HashAlg::Gradient)
            .to_hasher();
        let theirs = u64::from_le_bytes(hasher.hash_image(&img).into_inner());
        assert_eq!(ours, theirs);
    }
}
