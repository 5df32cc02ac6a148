use tt_spotify_bot::audio::pipeline::{
    Flags, Framer, Pipeline, Retry, Round, StreamIds, FRAME_SIZE,
};

#[test]
fn framer_yields_full_frames_in_order() {
    let mut framer = Framer::new(16);
    framer.push(&[1, 2, 3, 4, 5]);
    framer.push(&[6, 7, 8]);
    assert_eq!(framer.len(), 8);

    let mut frame = [0i16; 4];
    assert!(framer.pop_frame(&mut frame));
    assert_eq!(frame, [1, 2, 3, 4]);
    assert_eq!(framer.len(), 4);

    assert!(framer.pop_frame(&mut frame));
    assert_eq!(frame, [5, 6, 7, 8]);
    assert_eq!(framer.len(), 0);
}

#[test]
fn framer_pop_fails_when_underfull_and_leaves_data() {
    let mut framer = Framer::new(16);
    framer.push(&[1, 2, 3]);
    let mut frame = [9i16; 4];
    assert!(!framer.pop_frame(&mut frame));
    // Output untouched, samples still buffered.
    assert_eq!(frame, [9, 9, 9, 9]);
    assert_eq!(framer.len(), 3);
}

#[test]
fn framer_clear_empties() {
    let mut framer = Framer::new(16);
    framer.push(&[1, 2, 3, 4, 5]);
    framer.clear();
    assert_eq!(framer.len(), 0);
    let mut frame = [0i16; 2];
    assert!(!framer.pop_frame(&mut frame));
}

#[test]
fn stream_ids_are_positive_and_distinct() {
    let mut ids = StreamIds::new();
    let a = ids.new_stream_id();
    let b = ids.new_stream_id();
    assert!(a > 0 && b > 0);
    assert_ne!(a, b);
}

fn flags() -> Flags {
    Flags { shutdown: false, reset: false, timing_reset: false, paused: false }
}

#[test]
fn a_new_track_starts_with_nothing_of_the_last_one() {
    let mut ids = StreamIds::new();
    let mut p = Pipeline::new(&mut ids);
    let first = p.stream_id;
    p.receive(&vec![1i16; FRAME_SIZE + 5]);
    assert_eq!(p.frame_done(), 20);
    assert_eq!(p.begin_round(flags(), &mut ids), Round::Receive { flush: false });
    assert_eq!(p.framer.len(), FRAME_SIZE + 5);
    let r = p.begin_round(Flags { reset: true, ..flags() }, &mut ids);
    assert_eq!(r, Round::Receive { flush: true });
    assert_eq!(p.framer.len(), 0);
    assert_eq!(p.sample_index, 0);
    assert_ne!(p.stream_id, first);
    p.receive(&[1, 2]);
    let r = p.begin_round(Flags { paused: true, ..flags() }, &mut ids);
    assert_eq!(r, Round::Drain { flush: false });
    assert_eq!(p.framer.len(), 0);
    assert_eq!(p.begin_round(Flags { shutdown: true, ..flags() }, &mut ids), Round::Exit);
}

#[test]
fn frames_are_handed_out_whole_and_in_order() {
    let mut ids = StreamIds::new();
    let mut p = Pipeline::new(&mut ids);
    let samples: Vec<i16> = (0..FRAME_SIZE as i16 + 3).collect();
    p.receive(&samples);
    let mut frame = vec![0i16; FRAME_SIZE];
    assert!(!p.next_frame(&mut frame, true, false));
    assert!(!p.next_frame(&mut frame, false, true));
    assert!(p.next_frame(&mut frame, false, false));
    assert_eq!(frame, samples[..FRAME_SIZE]);
    assert!(!p.next_frame(&mut frame, false, false));
    assert_eq!(p.framer.len(), 3);
}

#[test]
fn blocks_are_paced_and_a_long_delay_starts_anew() {
    let mut ids = StreamIds::new();
    let mut p = Pipeline::new(&mut ids);
    assert_eq!(p.wait_for_next_block(1_000_000_000), 0);
    assert_eq!(p.due, Some(1_020_000_000));
    assert_eq!(p.wait_for_next_block(1_005_000_000), 15_000_000);
    assert_eq!(p.due, Some(1_040_000_000));
    // Late, but within the drift that is allowed.
    assert_eq!(p.wait_for_next_block(1_240_000_000), 0);
    assert_eq!(p.due, Some(1_060_000_000));
    assert_eq!(p.wait_for_next_block(2_000_000_000), 0);
    assert_eq!(p.due, Some(2_020_000_000));
}

#[test]
fn a_frame_is_tried_again_for_a_while() {
    assert_eq!(Pipeline::after_refusal(1, false), Retry::Again { warn: true });
    assert_eq!(Pipeline::after_refusal(20, false), Retry::Again { warn: false });
    assert_eq!(Pipeline::after_refusal(21, false), Retry::Drop);
    assert_eq!(Pipeline::after_refusal(1, true), Retry::Stop);
}

#[test]
fn the_position_counts_the_samples_that_went_out() {
    let mut ids = StreamIds::new();
    let mut p = Pipeline::new(&mut ids);
    for _ in 0..49 {
        p.frame_done();
    }
    assert_eq!(p.frame_done(), 1000);
    p.sample_index = u32::MAX - 881;
    assert_eq!(p.frame_done(), 0, "the count starts again past its end");
}

#[test]
fn every_reset_takes_one_stream_id() {
    let mut ids = StreamIds::new();
    let mut p = Pipeline::new(&mut ids);
    let first = p.stream_id;
    for i in 1..4 {
        p.begin_round(Flags { reset: true, ..flags() }, &mut ids);
        assert_eq!(p.stream_id, first + i);
        p.begin_round(flags(), &mut ids);
        assert_eq!(p.stream_id, first + i);
    }
    assert_eq!(ids.new_stream_id(), first + 4);
}
