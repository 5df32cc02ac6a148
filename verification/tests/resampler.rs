use tt_spotify_bot::audio::resampler::{Resampler, CHUNK_SIZE};

#[test]
fn a_chunk_is_split_by_channel() {
    let mut r = Resampler::new(2);
    let samples: Vec<i16> = (0..2 * CHUNK_SIZE as i16 + 4).collect();
    r.push(&samples);
    let chunk = r.next_chunk().unwrap();
    assert_eq!(chunk.len(), 2);
    assert_eq!(chunk[0].len(), CHUNK_SIZE);
    assert_eq!(&chunk[0][..3], &[0, 2, 4]);
    assert_eq!(&chunk[1][..3], &[1, 3, 5]);
    // Two frames are left: not a whole chunk.
    assert!(r.next_chunk().is_none());
}

#[test]
fn what_does_not_fill_a_frame_is_dropped() {
    let mut r = Resampler::new(2);
    for i in 0..CHUNK_SIZE as i16 {
        r.push(&[i, -i, 99]);
    }
    let chunk = r.next_chunk().unwrap();
    assert_eq!(chunk[0], (0..CHUNK_SIZE as i16).collect::<Vec<i16>>());
    assert_eq!(chunk[1][7], -7);
    assert!(r.next_chunk().is_none());
}

#[test]
fn splitting_and_joining_gives_the_samples_back() {
    let mut r = Resampler::new(3);
    let samples: Vec<i16> = (0..3 * CHUNK_SIZE as i16).map(|i| i ^ 0x55).collect();
    r.push(&samples);
    let chunk = r.next_chunk().unwrap();
    r.resampled(&chunk);
    assert_eq!(r.available(), samples.len());
    assert_eq!(r.drain(4), &samples[..4]);
    assert_eq!(r.drain(usize::MAX), &samples[4..]);
    assert_eq!(r.available(), 0);
}

#[test]
fn clearing_forgets_both_sides() {
    let mut r = Resampler::new(1);
    r.push(&[1; CHUNK_SIZE - 1]);
    r.resampled(&vec![vec![5, 6]]);
    r.clear();
    assert_eq!(r.drain(10), Vec::<i16>::new());
    r.push(&[2]);
    assert!(r.next_chunk().is_none());
}
