use missingno::color::ColorMode;
use missingno::texture::{NoiseError, NoiseTexture};

#[test]
fn dimension_per_mode() {
    assert_eq!(ColorMode::Gray.dimension(), 1);
    assert_eq!(ColorMode::Rg.dimension(), 2);
    assert_eq!(ColorMode::Rgb.dimension(), 3);
}

#[test]
fn new_texture_is_zeroed_rgb_buffer() {
    let t = NoiseTexture::new(8).unwrap();
    let (side, buf) = t.snapshot();
    assert_eq!(side, 8);
    assert_eq!(buf.len(), 3 * 8 * 8);
    assert!(buf.iter().all(|&b| b == 0));
}

#[test]
fn new_rejects_degenerate_sides() {
    assert_eq!(NoiseTexture::new(0).unwrap_err(), NoiseError::InvalidSize);
    assert_eq!(NoiseTexture::new(1).unwrap_err(), NoiseError::InvalidSize);
    assert!(NoiseTexture::new(2).is_ok());
}

#[test]
fn resize_yields_exact_buffer_length() {
    let mut t = NoiseTexture::new(8).unwrap();
    for m in [2usize, 4, 16, 100] {
        assert!(t.resize(m).is_ok());
        let (side, buf) = t.snapshot();
        assert_eq!(side, m);
        assert_eq!(buf.len(), 3 * m * m);
    }
}

#[test]
fn resize_below_two_fails_and_leaves_texture_unchanged() {
    let mut t = NoiseTexture::new(8).unwrap();
    t.scramble(&ColorMode::Rgb);
    let (side_before, buf_before) = t.snapshot();
    assert_eq!(t.resize(1).unwrap_err(), NoiseError::InvalidSize);
    assert_eq!(t.resize(0).unwrap_err(), NoiseError::InvalidSize);
    let (side_after, buf_after) = t.snapshot();
    assert_eq!(side_before, side_after);
    assert_eq!(buf_before, buf_after);
}

#[test]
fn resize_zero_fills_growth_and_truncates_shrinkage() {
    let mut t = NoiseTexture::new(4).unwrap();
    t.scramble(&ColorMode::Rgb);
    let (_, before) = t.snapshot();
    assert!(t.resize(6).is_ok());
    let (_, grown) = t.snapshot();
    assert_eq!(&grown[..before.len()], &before[..]);
    assert!(grown[before.len()..].iter().all(|&b| b == 0));
    assert!(t.resize(2).is_ok());
    let (_, shrunk) = t.snapshot();
    assert_eq!(&shrunk[..], &before[..shrunk.len()]);
}

#[test]
fn scramble_gray_replicates_one_byte_into_all_channels() {
    let mut t = NoiseTexture::new(8).unwrap();
    t.scramble(&ColorMode::Gray);
    let (_, buf) = t.snapshot();
    for p in 0..64 {
        assert_eq!(buf[3 * p], buf[3 * p + 1]);
        assert_eq!(buf[3 * p], buf[3 * p + 2]);
    }
}

#[test]
fn scramble_rg_forces_third_channel_to_zero() {
    let mut t = NoiseTexture::new(8).unwrap();
    t.scramble(&ColorMode::Rg);
    let (_, buf) = t.snapshot();
    for p in 0..64 {
        assert_eq!(buf[3 * p + 2], 0);
    }
}

#[test]
fn scramble_rgb_populates_every_channel() {
    // No channel is structurally forced: across 64 pixels each channel
    // position holds some nonzero byte (all-zero has probability 256^-64
    // per channel under the uniform draw).
    let mut t = NoiseTexture::new(8).unwrap();
    t.scramble(&ColorMode::Rgb);
    let (_, buf) = t.snapshot();
    for c in 0..3 {
        assert!((0..64).any(|p| buf[3 * p + c] != 0));
    }
}

#[test]
fn scramble_keeps_size_and_length() {
    let mut t = NoiseTexture::new(16).unwrap();
    t.scramble(&ColorMode::Rgb);
    let (side, buf) = t.snapshot();
    assert_eq!(side, 16);
    assert_eq!(buf.len(), 3 * 16 * 16);
}

#[test]
fn forced_swap_exchanges_exactly_one_pixel_pair() {
    // For size 8, mode Gray: after a scramble, one swap of pixels 0 and 1
    // exchanges their channel bytes exactly and touches no other pixel.
    let mut t = NoiseTexture::new(8).unwrap();
    t.scramble(&ColorMode::Gray);
    let (_, before) = t.snapshot();
    t.swap(0, 1);
    let (_, after) = t.snapshot();
    assert_eq!(after[0], before[3]);
    assert_eq!(after[3], before[0]);
    for c in 0..3 {
        assert_eq!(after[c], before[3 + c]);
        assert_eq!(after[3 + c], before[c]);
    }
    for i in 6..before.len() {
        assert_eq!(after[i], before[i]);
    }
}

#[test]
fn swap_back_restores_the_buffer() {
    let mut t = NoiseTexture::new(8).unwrap();
    t.scramble(&ColorMode::Rgb);
    let (_, before) = t.snapshot();
    t.swap(5, 42);
    t.swap(5, 42);
    let (_, after) = t.snapshot();
    assert_eq!(before, after);
}

#[test]
fn swap_with_itself_changes_nothing() {
    let mut t = NoiseTexture::new(4).unwrap();
    t.scramble(&ColorMode::Rgb);
    let (_, before) = t.snapshot();
    t.swap(7, 7);
    let (_, after) = t.snapshot();
    assert_eq!(before, after);
}

#[test]
fn swap_preserves_the_multiset_of_pixel_triplets() {
    let mut t = NoiseTexture::new(4).unwrap();
    t.scramble(&ColorMode::Rgb);
    let (_, before) = t.snapshot();
    t.swap(0, 15);
    t.swap(3, 7);
    t.swap(7, 0);
    let (_, after) = t.snapshot();
    let mut triplets_before: Vec<[u8; 3]> =
        before.chunks(3).map(|c| [c[0], c[1], c[2]]).collect();
    let mut triplets_after: Vec<[u8; 3]> =
        after.chunks(3).map(|c| [c[0], c[1], c[2]]).collect();
    triplets_before.sort();
    triplets_after.sort();
    assert_eq!(triplets_before, triplets_after);
}

#[test]
fn duplicate_matches_its_source_texture() {
    let mut t = NoiseTexture::new(8).unwrap();
    t.scramble(&ColorMode::Rgb);
    let d = t.duplicate();
    assert_eq!(t.snapshot(), d.snapshot());
}

#[test]
fn channel_reads_the_flat_buffer() {
    let mut t = NoiseTexture::new(8).unwrap();
    t.scramble(&ColorMode::Rgb);
    let (_, buf) = t.snapshot();
    for p in [0usize, 1, 31, 63] {
        for c in 0..3 {
            assert_eq!(t.channel(p, c), buf[3 * p + c]);
        }
    }
}
