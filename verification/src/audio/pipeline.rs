//! Cutting the decoded audio into frames and handing them out in time.
//!
//! The clock, the channel the samples come through and the client they go to
//! are the caller's; which frame goes when, and what is thrown away, is decided
//! here. Times are nanoseconds on a clock that never goes back.
use std::collections::VecDeque;
use vstd::prelude::*;

verus! {

/// librespot's native sample rate: no resampling needed.
pub const SAMPLE_RATE: i32 = 44_100;

pub const CHANNELS: i32 = 2;

/// Samples per channel in a frame of 20 ms.
pub const FRAME_SAMPLES: usize = 882;

/// Values in a frame.
pub const FRAME_SIZE: usize = 1764;

/// How long a frame plays.
pub const BLOCK_DURATION_NS: u64 = 20_000_000;

/// Beyond this much delay the timing starts anew.
pub const MAX_DRIFT_NS: u64 = 200_000_000;

/// How often a frame is tried again before it is dropped.
pub const MAX_INJECT_RETRIES: u32 = 20;

/// A frame holds exactly the samples that play in its time.
pub proof fn a_frame_lasts_twenty_milliseconds()
    ensures
        FRAME_SIZE == FRAME_SAMPLES * CHANNELS,
        FRAME_SAMPLES * 1_000_000_000 == BLOCK_DURATION_NS * SAMPLE_RATE,
{
}

// ---- framing ----

/// Whether a frame was taken from what is buffered: the first samples, as many
/// as it holds.
pub open spec fn popped(
    old: Seq<i16>,
    new: Seq<i16>,
    frame: Seq<i16>,
    filled: Seq<i16>,
    r: bool,
) -> bool {
    &&& r == (old.len() >= frame.len())
    &&& r ==> filled == old.take(frame.len() as int) && new == old.skip(frame.len() as int)
    &&& !r ==> filled == frame && new == old
}

/// Accumulates incoming PCM and hands out fixed-size frames.
#[derive(Debug)]
pub struct Framer {
    buf: VecDeque<i16>,
}

impl View for Framer {
    type V = Seq<i16>;

    /// The samples that were pushed and not handed out yet.
    closed spec fn view(&self) -> Seq<i16> {
        self.buf@
    }
}

impl Framer {
    pub fn new(capacity: usize) -> (r: Self)
        ensures
            r@ == Seq::<i16>::empty(),
    {
        Framer { buf: VecDeque::with_capacity(capacity) }
    }

    pub fn push(&mut self, samples: &[i16])
        ensures
            final(self)@ == old(self)@ + samples@,
    {
        let ghost before = self@;
        let mut i: usize = 0;
        while i < samples.len()
            invariant
                i <= samples@.len(),
                samples.len() == samples@.len(),
                self@ =~= before + samples@.take(i as int),
            decreases samples@.len() - i,
        {
            self.buf.push_back(samples[i]);
            i += 1;
        }
        assert(samples@.take(i as int) =~= samples@);
    }

    pub fn len(&self) -> (r: usize)
        ensures
            r == self@.len(),
    {
        self.buf.len()
    }

    pub fn clear(&mut self)
        ensures
            final(self)@ == Seq::<i16>::empty(),
    {
        self.buf.clear();
    }

    /// Pop exactly `out.len()` samples into `out`. Returns false (leaving `out`
    /// untouched) if fewer than that are buffered.
    pub fn pop_frame(&mut self, out: &mut [i16]) -> (r: bool)
        ensures
            popped(old(self)@, final(self)@, old(out)@, final(out)@, r),
    {
        let n: usize = out.len();
        if self.buf.len() < n {
            return false;
        }
        let ghost all = self@;
        let mut i: usize = 0;
        while i < n
            invariant
                i <= n,
                n == out@.len(),
                n <= all.len(),
                self@ == all.skip(i as int),
                forall|k: int| 0 <= k < i ==> #[trigger] out@[k] == all[k],
            decreases n - i,
        {
            assert(all.skip(i as int)[0] == all[i as int]);
            assert(all.skip(i as int).subrange(1, all.len() - i) =~= all.skip(i + 1));
            match self.buf.pop_front() {
                Some(sample) => {
                    out[i] = sample;
                },
                None => {},
            }
            i += 1;
        }
        assert(out@ =~= all.take(n as int));
        true
    }
}

// ---- stream ids ----

/// Hands out stream ids: always positive, and never the same twice in a row.
#[derive(Debug, Clone, Copy)]
pub struct StreamIds {
    next: i32,
}

/// The stream id that follows another. Past the largest number the sequence
/// starts again at 1.
pub open spec fn id_after(id: int) -> int {
    if id < i32::MAX {
        id + 1
    } else {
        1
    }
}

impl StreamIds {
    /// The id that comes next.
    pub closed spec fn coming(self) -> int {
        if self.next > 0 {
            self.next as int
        } else {
            1
        }
    }

    pub fn new() -> (r: Self)
        ensures
            r.coming() == 1,
    {
        StreamIds { next: 1 }
    }

    /// A stream id. Past the largest number the sequence starts again at 1.
    pub fn new_stream_id(&mut self) -> (r: i32)
        ensures
            r == old(self).coming(),
            r > 0,
            final(self).coming() == id_after(r as int),
            final(self).coming() != r,
    {
        let id: i32 = if self.next > 0 {
            self.next
        } else {
            1
        };
        self.next = if id < i32::MAX {
            id + 1
        } else {
            1
        };
        id
    }
}

impl Default for StreamIds {
    fn default() -> (r: Self)
        ensures
            r.coming() == 1,
    {
        StreamIds::new()
    }
}

// ---- the pipeline ----

/// What the rest of the bot asks of the pipeline.
#[derive(Debug, Clone, Copy)]
pub struct Flags {
    pub shutdown: bool,
    /// A new track was loaded.
    pub reset: bool,
    /// Playback was resumed.
    pub timing_reset: bool,
    pub paused: bool,
}

/// What one round of the pipeline begins with.
#[derive(Debug, Clone, Copy, PartialEq, Eq, Structural)]
pub enum Round {
    /// Leave.
    Exit,
    /// Throw away what the channel holds and wait a little. `flush` tells
    /// whether a new track begins, so that the client's audio goes too.
    Drain { flush: bool },
    /// Take samples in. `flush` as above, before that.
    Receive { flush: bool },
}

/// What to do about a frame that could not be injected.
#[derive(Debug, Clone, Copy, PartialEq, Eq, Structural)]
pub enum Retry {
    /// Try again after a short while; `warn` the first time.
    Again { warn: bool },
    /// The bot shuts down: never mind the frame.
    Stop,
    /// Drop the frame.
    Drop,
}

/// The position in milliseconds after some samples.
pub open spec fn position_of(sample_index: u32) -> nat {
    (sample_index as nat * 1000) / (SAMPLE_RATE as nat)
}

/// When a block goes out: how long to wait first, and when the next one is
/// due. Where the last one is more than the allowed drift ago, the timing
/// starts anew.
pub open spec fn block_timing(due: Option<u64>, now: u64) -> (nat, nat) {
    let planned = match due {
        Some(t) => t as nat,
        None => now as nat,
    };
    let wait = if planned > now {
        (planned - now) as nat
    } else {
        0
    };
    let start = if now > planned + MAX_DRIFT_NS {
        now as nat
    } else {
        planned
    };
    (wait, start + BLOCK_DURATION_NS as nat)
}

/// The audio on its way into the channel.
#[derive(Debug)]
pub struct Pipeline {
    pub framer: Framer,
    pub stream_id: i32,
    pub sample_index: u32,
    /// When the next block is due.
    pub due: Option<u64>,
}

/// What a round begins with, and what it makes of the pipeline.
pub open spec fn round_begun(
    old: Pipeline,
    new: Pipeline,
    ids: StreamIds,
    after: StreamIds,
    flags: Flags,
    r: Round,
) -> bool {
    &&& r == (if flags.shutdown {
        Round::Exit
    } else if flags.paused {
        Round::Drain { flush: flags.reset }
    } else {
        Round::Receive { flush: flags.reset }
    })
    &&& flags.shutdown ==> new == old && after == ids
    &&& !flags.shutdown ==> {
        &&& new.stream_id == if flags.reset {
            ids.coming()
        } else {
            old.stream_id as int
        }
        &&& flags.reset ==> after.coming() == id_after(new.stream_id as int)
            && after.coming() != new.stream_id
        &&& !flags.reset ==> after == ids
        &&& new.sample_index == if flags.reset {
            0
        } else {
            old.sample_index
        }
        &&& new.framer@ == if flags.reset || flags.paused {
            Seq::<i16>::empty()
        } else {
            old.framer@
        }
        &&& new.due == if flags.reset || flags.timing_reset || flags.paused {
            None
        } else {
            old.due
        }
    }
}

/// What to do about a frame that was refused so often.
pub open spec fn retry_of(retries: u32, shutdown: bool) -> Retry {
    if shutdown {
        Retry::Stop
    } else if retries > MAX_INJECT_RETRIES {
        Retry::Drop
    } else {
        Retry::Again { warn: retries == 1 }
    }
}

impl Pipeline {
    pub fn new(ids: &mut StreamIds) -> (r: Self)
        ensures
            r.framer@.len() == 0,
            r.stream_id == old(ids).coming(),
            r.sample_index == 0,
            r.due is None,
            final(ids).coming() == id_after(r.stream_id as int),
            final(ids).coming() != r.stream_id,
    {
        Pipeline {
            framer: Framer::new(FRAME_SIZE * 4),
            stream_id: ids.new_stream_id(),
            sample_index: 0,
            due: None,
        }
    }

    /// Begin a round. A new track gets a stream id of its own and starts at the
    /// beginning; a pause throws away what is buffered.
    pub fn begin_round(&mut self, flags: Flags, ids: &mut StreamIds) -> (r: Round)
        ensures
            round_begun(*old(self), *final(self), *old(ids), *final(ids), flags, r),
    {
        if flags.shutdown {
            return Round::Exit;
        }
        if flags.reset {
            self.stream_id = ids.new_stream_id();
            self.framer.clear();
            self.due = None;
            self.sample_index = 0;
        }
        if flags.timing_reset {
            self.due = None;
        }
        if flags.paused {
            self.framer.clear();
            self.due = None;
            return Round::Drain { flush: flags.reset };
        }
        Round::Receive { flush: flags.reset }
    }

    /// Samples arrived.
    pub fn receive(&mut self, samples: &[i16])
        ensures
            final(self).framer@ == old(self).framer@ + samples@,
            final(self).stream_id == old(self).stream_id,
            final(self).sample_index == old(self).sample_index,
            final(self).due == old(self).due,
    {
        self.framer.push(samples);
    }

    /// The next frame, where there is one and nobody asked to stop.
    pub fn next_frame(&mut self, frame: &mut [i16], reset: bool, paused: bool) -> (r: bool)
        requires
            old(frame)@.len() == FRAME_SIZE,
        ensures
            r == (!reset && !paused && old(self).framer@.len() >= FRAME_SIZE),
            r ==> final(frame)@ == old(self).framer@.take(FRAME_SIZE as int) && final(self).framer@
                == old(self).framer@.skip(FRAME_SIZE as int),
            !r ==> final(frame)@ == old(frame)@ && final(self).framer@ == old(self).framer@,
            final(self).stream_id == old(self).stream_id,
            final(self).sample_index == old(self).sample_index,
            final(self).due == old(self).due,
    {
        if reset || paused {
            return false;
        }
        self.framer.pop_frame(frame)
    }

    /// How long to wait before the next block goes out.
    pub fn wait_for_next_block(&mut self, now: u64) -> (r: u64)
        requires
            block_timing(old(self).due, now).1 <= u64::MAX,
        ensures
            r == block_timing(old(self).due, now).0,
            final(self).due == Some(block_timing(old(self).due, now).1 as u64),
            final(self).framer == old(self).framer,
            final(self).stream_id == old(self).stream_id,
            final(self).sample_index == old(self).sample_index,
    {
        let planned: u64 = match self.due {
            Some(t) => t,
            None => now,
        };
        let wait: u64 = if planned > now {
            planned - now
        } else {
            0
        };
        let start: u64 = if now > planned && now - planned > MAX_DRIFT_NS {
            now
        } else {
            planned
        };
        self.due = Some(start + BLOCK_DURATION_NS);
        wait
    }

    /// What to do about a frame that was refused `retries` times.
    pub fn after_refusal(retries: u32, shutdown: bool) -> (r: Retry)
        ensures
            r == retry_of(retries, shutdown),
    {
        if shutdown {
            Retry::Stop
        } else if retries > MAX_INJECT_RETRIES {
            Retry::Drop
        } else {
            Retry::Again { warn: retries == 1 }
        }
    }

    /// A frame went out (or was dropped): the position in milliseconds since
    /// the track began.
    pub fn frame_done(&mut self) -> (r: u32)
        ensures
            final(self).sample_index as int == (old(self).sample_index + FRAME_SAMPLES)
                % 0x1_0000_0000,
            r == position_of(final(self).sample_index),
            final(self).framer == old(self).framer,
            final(self).stream_id == old(self).stream_id,
            final(self).due == old(self).due,
    {
        self.sample_index = self.sample_index.wrapping_add(FRAME_SAMPLES as u32);
        (self.sample_index as u64 * 1000 / SAMPLE_RATE as u64) as u32
    }
}

/// Where playback keeps up, blocks are due one frame apart.
pub proof fn blocks_are_one_frame_apart(due: u64, now: u64)
    requires
        now <= due + MAX_DRIFT_NS,
    ensures
        block_timing(Some(due), now).1 == due + BLOCK_DURATION_NS,
{
}

/// A block that is early waits until exactly when it is due, and one that is
/// late goes out at once.
pub proof fn a_block_waits_until_it_is_due(due: u64, now: u64)
    ensures
        now <= due ==> now + block_timing(Some(due), now).0 == due,
        now >= due ==> block_timing(Some(due), now).0 == 0,
{
}

/// The first block of a stream, and one that comes after too long a delay, go
/// out at once, and the timing counts from there: nothing is caught up on.
pub proof fn timing_starts_anew_after_a_delay(due: u64, now: u64)
    ensures
        block_timing(None, now) == (0nat, (now + BLOCK_DURATION_NS) as nat),
        now > due + MAX_DRIFT_NS ==> block_timing(Some(due), now) == (
            0nat,
            (now + BLOCK_DURATION_NS) as nat,
        ),
{
}

/// Every frame moves the position on by exactly its own length.
pub proof fn the_position_counts_the_frames(frames: nat)
    requires
        frames * FRAME_SAMPLES <= u32::MAX,
    ensures
        position_of((frames * FRAME_SAMPLES) as u32) * 1_000_000 == frames * BLOCK_DURATION_NS,
{
    let n = frames * 882;
    assert(n == frames * FRAME_SAMPLES);
    assert(n * 1000 == 44_100 * (20 * frames)) by (nonlinear_arith)
        requires
            n == frames * 882,
    ;
    vstd::arithmetic::div_mod::lemma_div_multiples_vanish(20 * frames as int, 44_100);
    assert(position_of(n as u32) == 20 * frames);
}

/// Ids go up by one, are never zero or less, and the next differs.
pub proof fn stream_ids_follow_each_other(id: int)
    requires
        0 < id <= i32::MAX,
    ensures
        0 < id_after(id) <= i32::MAX,
        id_after(id) != id,
        id < i32::MAX ==> id_after(id) == id + 1,
{
}

/// A new track starts afresh: nothing of the last one is left, the position
/// starts at nothing, and the stream has an id of its own.
pub proof fn a_new_track_starts_afresh(
    old: Pipeline,
    new: Pipeline,
    ids: StreamIds,
    after: StreamIds,
    flags: Flags,
    r: Round,
)
    requires
        round_begun(old, new, ids, after, flags, r),
        !flags.shutdown,
        flags.reset,
    ensures
        new.framer@.len() == 0,
        position_of(new.sample_index) == 0,
        new.stream_id == ids.coming(),
        after.coming() != new.stream_id,
        new.due is None,
        r == (Round::Drain { flush: true }) || r == (Round::Receive { flush: true }),
{
}

/// While nothing is asked for, nothing is lost: what is buffered stays, and the
/// stream goes on where it was. A pause throws away what is buffered and takes
/// nothing in, and a shutdown ends it.
pub proof fn nothing_is_lost_while_it_plays(
    old: Pipeline,
    new: Pipeline,
    ids: StreamIds,
    after: StreamIds,
    flags: Flags,
    r: Round,
)
    requires
        round_begun(old, new, ids, after, flags, r),
    ensures
        !flags.shutdown && !flags.reset && !flags.paused ==> {
            &&& new.framer@ == old.framer@
            &&& new.sample_index == old.sample_index
            &&& new.stream_id == old.stream_id
            &&& !flags.timing_reset ==> new.due == old.due
            &&& r == (Round::Receive { flush: false })
        },
        !flags.shutdown && flags.paused ==> r is Drain && new.framer@.len() == 0,
        flags.shutdown <==> r is Exit,
{
}

/// A frame that is refused is tried again only so often, with one warning, and
/// not at all once the bot shuts down.
pub proof fn a_refused_frame_is_tried_again(retries: u32, later: u32)
    ensures
        retries > MAX_INJECT_RETRIES ==> retry_of(retries, false) == Retry::Drop,
        retries <= MAX_INJECT_RETRIES ==> retry_of(retries, false) is Again,
        retry_of(retries, true) == Retry::Stop,
        retry_of(retries, false) == (Retry::Again { warn: true }) && retry_of(later, false) == (
        Retry::Again { warn: true }) ==> retries == later,
        retry_of(1, false) == (Retry::Again { warn: true }),
{
}

/// Samples come out in the order in which they went in, and none is lost: a
/// frame and what is left are what was buffered.
pub proof fn samples_come_out_in_order(
    old: Seq<i16>,
    new: Seq<i16>,
    frame: Seq<i16>,
    filled: Seq<i16>,
    r: bool,
)
    requires
        popped(old, new, frame, filled, r),
    ensures
        r ==> filled + new == old && filled.len() == frame.len(),
        !r ==> new == old && old.len() < frame.len(),
{
    if r {
        assert(filled + new =~= old);
    }
}

} // verus!
