use missingno::color::ColorMode;
use missingno::engine::{propose_pair, trials_for_size, RunState, RunStep};
use missingno::shared::SharedTexture;
use missingno::texture::NoiseError;

#[test]
fn shared_snapshot_is_always_consistent() {
    let s = SharedTexture::new(8).unwrap();
    let (side, buf) = s.snapshot();
    assert_eq!(side, 8);
    assert_eq!(buf.len(), 3 * side * side);
    s.scramble(&ColorMode::Rgb);
    let (side, buf) = s.snapshot();
    assert_eq!(buf.len(), 3 * side * side);
}

#[test]
fn shared_new_rejects_degenerate_sides() {
    match SharedTexture::new(1) {
        Err(e) => assert_eq!(e, NoiseError::InvalidSize),
        Ok(_) => panic!("a degenerate side must be rejected"),
    }
    assert!(SharedTexture::new(2).is_ok());
}

#[test]
fn shared_resize_keeps_side_and_buffer_in_step() {
    let s = SharedTexture::new(8).unwrap();
    assert!(s.resize(5).is_ok());
    let (side, buf) = s.snapshot();
    assert_eq!(side, 5);
    assert_eq!(buf.len(), 75);
    assert_eq!(s.resize(0).unwrap_err(), NoiseError::InvalidSize);
    let (side, buf) = s.snapshot();
    assert_eq!(side, 5);
    assert_eq!(buf.len(), 75);
}

#[test]
fn commit_swap_applies_in_grid_pairs_and_skips_stale_ones() {
    let s = SharedTexture::new(8).unwrap();
    s.scramble(&ColorMode::Gray);
    let (_, before) = s.snapshot();
    assert!(s.commit_swap(0, 1));
    let (_, after) = s.snapshot();
    for c in 0..3 {
        assert_eq!(after[c], before[3 + c]);
        assert_eq!(after[3 + c], before[c]);
    }
    // A pair outside the current grid — as a run holds after a resize
    // under it — is skipped, not applied.
    assert!(!s.commit_swap(64, 0));
    assert!(s.resize(4).is_ok());
    assert!(!s.commit_swap(50, 0));
    assert!(s.commit_swap(0, 15));
}

#[test]
fn forced_accept_run_leaves_a_permutation_of_the_pixels() {
    // Drive a whole schedule against the store, committing every trial's
    // swap: whatever pairs the trials picked, the buffer that remains is
    // a relocation of the same pixel colors — never corrupted, never
    // truncated.
    let s = SharedTexture::new(8).unwrap();
    s.scramble(&ColorMode::Rgb);
    let (_, before) = s.snapshot();
    let mut state = RunState::new(trials_for_size(8), 3);
    loop {
        match state.next(false) {
            RunStep::Trial => {
                let (first, second) = propose_pair(8, 5);
                assert!(s.commit_swap(first, second));
            },
            RunStep::Cool => {},
            RunStep::Completed => break,
            RunStep::Cancelled => panic!("no cancellation was requested"),
        }
    }
    let (side, after) = s.snapshot();
    assert_eq!(side, 8);
    let mut triplets_before: Vec<[u8; 3]> =
        before.chunks(3).map(|c| [c[0], c[1], c[2]]).collect();
    let mut triplets_after: Vec<[u8; 3]> =
        after.chunks(3).map(|c| [c[0], c[1], c[2]]).collect();
    triplets_before.sort();
    triplets_after.sort();
    assert_eq!(triplets_before, triplets_after);
}

#[test]
fn working_copy_matches_the_shared_state() {
    let s = SharedTexture::new(8).unwrap();
    s.scramble(&ColorMode::Rgb);
    let copy = s.working_copy();
    let (side, buf) = s.snapshot();
    assert_eq!(copy.snapshot(), (side, buf));
}
