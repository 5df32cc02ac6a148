//! The buffers around a sample rate conversion.
//!
//! The conversion itself works on fractions, in chunks of a fixed size and one
//! channel at a time; it is the caller's. Which samples make up a chunk, and in
//! which order converted ones come out, is decided here.
use vstd::prelude::*;

verus! {

/// Frames that are converted at a time.
pub const CHUNK_SIZE: usize = 480;

/// The samples of each of `n` channels in the first `frames` frames of `s`,
/// which holds a sample of every channel in turn.
pub open spec fn split(s: Seq<i16>, n: nat, frames: nat) -> Seq<Seq<i16>> {
    Seq::new(n, |c: int| Seq::new(frames, |f: int| s[f * n + c]))
}

/// The first `frames` samples of every channel in turn.
pub open spec fn interleaved(channels: Seq<Seq<i16>>, frames: nat) -> Seq<i16> {
    Seq::new(
        frames * channels.len(),
        |i: int| channels[i % channels.len() as int][i / channels.len() as int],
    )
}

/// The part of `s` that is made of whole frames of `n` samples.
pub open spec fn whole_frames(s: Seq<i16>, n: nat) -> Seq<i16> {
    s.take(n * (s.len() / n) as int)
}

/// The channels as sequences.
pub open spec fn channel_views(channels: Seq<Vec<i16>>) -> Seq<Seq<i16>> {
    Seq::new(channels.len(), |c: int| channels[c]@)
}

/// The next chunk by channel, where there is a whole one, taken from what
/// waits.
pub open spec fn chunk_taken(
    old: Seq<i16>,
    new: Seq<i16>,
    channels: nat,
    chunk: Option<Seq<Seq<i16>>>,
) -> bool {
    match chunk {
        Some(parts) => {
            &&& old.len() >= CHUNK_SIZE * channels
            &&& parts == split(old, channels, CHUNK_SIZE as nat)
            &&& new == old.skip(CHUNK_SIZE * channels)
        },
        None => {
            &&& old.len() < CHUNK_SIZE * channels
            &&& new == old
        },
    }
}

/// Up to so many samples, taken from what was converted.
pub open spec fn drained(old: Seq<i16>, new: Seq<i16>, max_samples: int, out: Seq<i16>) -> bool {
    let taken = if max_samples < old.len() {
        max_samples
    } else {
        old.len() as int
    };
    &&& out == old.take(taken)
    &&& new == old.skip(taken)
}

/// Splitting whole frames by channel and putting them together again gives
/// what was there.
pub proof fn interleaving_undoes_splitting(s: Seq<i16>, n: nat, frames: nat)
    requires
        n > 0,
        s.len() == frames * n,
    ensures
        interleaved(split(s, n, frames), frames) == s,
{
    let back = interleaved(split(s, n, frames), frames);
    assert forall|i: int| 0 <= i < s.len() implies back[i] == s[i] by {
        let f = i / n as int;
        let c = i % n as int;
        vstd::arithmetic::div_mod::lemma_fundamental_div_mod(i, n as int);
        vstd::arithmetic::div_mod::lemma_mod_bound(i, n as int);
        assert(0 <= f < frames) by (nonlinear_arith)
            requires
                i == n * f + c,
                0 <= c < n,
                0 <= i < frames * n,
        ;
        assert(f * n + c == i) by (nonlinear_arith)
            requires
                i == n * f + c,
        ;
        assert(split(s, n, frames)[c][f] == s[f * n + c]);
    }
    assert(back =~= s);
}

/// A place within a whole number of frames lies before their end.
proof fn lemma_place(f: int, c: int, n: int, frames: int)
    requires
        0 <= f < frames,
        0 <= c < n,
    ensures
        0 <= f * n + c < frames * n,
{
    assert(0 <= f * n + c < frames * n) by (nonlinear_arith)
        requires
            0 <= f < frames,
            0 <= c < n,
    ;
}

/// Buffers samples on their way into a conversion, and out of it again.
#[derive(Debug)]
pub struct Resampler {
    channels: usize,
    /// Whole frames that wait to be converted.
    input: Vec<i16>,
    /// Converted samples that wait to be taken.
    output: Vec<i16>,
}

impl Resampler {
    pub closed spec fn channels(&self) -> nat {
        self.channels as nat
    }

    /// The whole frames that wait to be converted.
    pub closed spec fn waiting(&self) -> Seq<i16> {
        self.input@
    }

    /// The converted samples that wait to be taken.
    pub closed spec fn converted(&self) -> Seq<i16> {
        self.output@
    }

    pub open spec fn wf(&self) -> bool {
        &&& self.channels() > 0
        &&& self.channels() <= usize::MAX
        &&& self.waiting().len() % self.channels() == 0
    }

    pub fn new(channels: usize) -> (r: Self)
        requires
            channels > 0,
        ensures
            r.wf(),
            r.channels() == channels,
            r.waiting().len() == 0,
            r.converted().len() == 0,
    {
        proof {
            vstd::arithmetic::div_mod::lemma_fundamental_div_mod_converse(0, channels as int, 0, 0);
        }
        Resampler { channels, input: Vec::new(), output: Vec::new() }
    }

    /// Feed interleaved samples in. What does not fill a frame is dropped.
    pub fn push(&mut self, samples: &[i16])
        requires
            old(self).wf(),
        ensures
            final(self).wf(),
            final(self).channels() == old(self).channels(),
            final(self).waiting() == old(self).waiting() + whole_frames(
                samples@,
                old(self).channels(),
            ),
            final(self).converted() == old(self).converted(),
    {
        let ghost n = self.channels as int;
        let ghost before = self.input@;
        proof {
            vstd::arithmetic::div_mod::lemma_fundamental_div_mod(samples@.len() as int, n);
            vstd::arithmetic::div_mod::lemma_mod_bound(samples@.len() as int, n);
            assert(0 <= n * (samples@.len() as int / n) <= samples@.len()) by (nonlinear_arith)
                requires
                    samples@.len() as int == n * (samples@.len() as int / n) + samples@.len() as int
                        % n,
                    0 <= samples@.len() as int % n,
                    n > 0,
                    samples@.len() >= 0,
            ;
        }
        let rest: usize = samples.len() % self.channels;
        let end: usize = samples.len() - rest;
        let mut i: usize = 0;
        while i < end
            invariant
                i <= end <= samples@.len(),
                samples.len() == samples@.len(),
                self.channels == n,
                self.output@ == old(self).output@,
                self.input@ =~= before + samples@.take(i as int),
            decreases end - i,
        {
            self.input.push(samples[i]);
            i += 1;
        }
        proof {
            assert(end == n * (samples@.len() as int / n));
            let a = before.len() as int;
            vstd::arithmetic::div_mod::lemma_fundamental_div_mod(a, n);
            let q = a / n + samples@.len() as int / n;
            assert(a + end == q * n + 0) by (nonlinear_arith)
                requires
                    a == n * (a / n),
                    end == n * (samples@.len() as int / n),
                    q == a / n + samples@.len() as int / n,
            ;
            vstd::arithmetic::div_mod::lemma_fundamental_div_mod_converse(a + end, n, q, 0);
        }
    }

    /// The next chunk to convert, by channel, where there is a whole one.
    pub fn next_chunk(&mut self) -> (r: Option<Vec<Vec<i16>>>)
        requires
            old(self).wf(),
        ensures
            final(self).wf(),
            final(self).channels() == old(self).channels(),
            final(self).converted() == old(self).converted(),
            match r {
                Some(chunk) => chunk_taken(
                    old(self).waiting(),
                    final(self).waiting(),
                    old(self).channels(),
                    Some(channel_views(chunk@)),
                ),
                None => chunk_taken(
                    old(self).waiting(),
                    final(self).waiting(),
                    old(self).channels(),
                    None,
                ),
            },
    {
        let n: usize = self.channels;
        let ghost len = self.input@.len() as int;
        proof {
            vstd::arithmetic::div_mod::lemma_fundamental_div_mod(len, n as int);
        }
        if self.input.len() / n < CHUNK_SIZE {
            proof {
                assert(len < CHUNK_SIZE * n) by (nonlinear_arith)
                    requires
                        len == n * (len / n as int),
                        len / (n as int) < CHUNK_SIZE,
                        n > 0,
                ;
            }
            return None;
        }
        proof {
            assert(len >= CHUNK_SIZE * n) by (nonlinear_arith)
                requires
                    len == n * (len / n as int),
                    len / (n as int) >= CHUNK_SIZE,
                    n > 0,
            ;
        }
        let mut chunk: Vec<Vec<i16>> = Vec::new();
        let mut c: usize = 0;
        while c < n
            invariant
                c <= n,
                n == self.channels,
                n > 0,
                self.input@ == old(self).input@,
                self.output@ == old(self).output@,
                len == self.input@.len(),
                len >= CHUNK_SIZE * n,
                chunk@.len() == c,
                forall|k: int|
                    0 <= k < c ==> (#[trigger] chunk@[k])@ == split(
                        self.input@,
                        n as nat,
                        CHUNK_SIZE as nat,
                    )[k],
            decreases n - c,
        {
            let one = self.channel(c);
            chunk.push(one);
            c += 1;
        }
        assert(channel_views(chunk@) =~= split(self.input@, n as nat, CHUNK_SIZE as nat));
        let end: usize = CHUNK_SIZE * n;
        let kept = self.input.split_off(end);
        self.input = kept;
        proof {
            let q = len / n as int - CHUNK_SIZE;
            assert(len - end == q * n + 0) by (nonlinear_arith)
                requires
                    len == n * (len / n as int),
                    end == CHUNK_SIZE * n,
                    q == len / n as int - CHUNK_SIZE,
            ;
            vstd::arithmetic::div_mod::lemma_fundamental_div_mod_converse(len - end, n as int, q, 0);
        }
        Some(chunk)
    }

    /// One channel of the next chunk.
    fn channel(&self, c: usize) -> (r: Vec<i16>)
        requires
            c < self.channels,
            self.input@.len() >= CHUNK_SIZE * self.channels,
        ensures
            r@ == split(self.input@, self.channels as nat, CHUNK_SIZE as nat)[c as int],
    {
        let n: usize = self.channels;
        let total: usize = self.input.len();
        let mut one: Vec<i16> = Vec::new();
        let mut f: usize = 0;
        while f < CHUNK_SIZE
            invariant
                f <= CHUNK_SIZE,
                n == self.channels,
                c < n,
                total == self.input@.len(),
                total >= CHUNK_SIZE * n,
                one@.len() == f,
                forall|k: int| 0 <= k < f ==> #[trigger] one@[k] == self.input@[k * n + c],
            decreases CHUNK_SIZE - f,
        {
            proof {
                lemma_place(f as int, c as int, n as int, CHUNK_SIZE as int);
                assert(f * n <= CHUNK_SIZE * n) by (nonlinear_arith)
                    requires
                        f <= CHUNK_SIZE,
                ;
            }
            one.push(self.input[f * n + c]);
            f += 1;
        }
        assert(one@ =~= split(self.input@, n as nat, CHUNK_SIZE as nat)[c as int]);
        one
    }

    /// Take a converted chunk in, given by channel.
    pub fn resampled(&mut self, chunk: &Vec<Vec<i16>>)
        requires
            old(self).wf(),
            chunk@.len() == old(self).channels(),
            forall|c: int| 0 <= c < chunk@.len() ==> (#[trigger] chunk@[c])@.len() == chunk@[0]@.len(),
        ensures
            final(self).wf(),
            final(self).channels() == old(self).channels(),
            final(self).waiting() == old(self).waiting(),
            final(self).converted() == old(self).converted() + interleaved(
                channel_views(chunk@),
                chunk@[0]@.len(),
            ),
    {
        let ghost n = self.channels as int;
        let ghost before = self.output@;
        let ghost all = interleaved(channel_views(chunk@), chunk@[0]@.len());
        let frames: usize = chunk[0].len();
        let mut f: usize = 0;
        assert(all.take(0) =~= Seq::<i16>::empty());
        while f < frames
            invariant
                f <= frames,
                n == self.channels,
                n > 0,
                chunk@.len() == n,
                frames == chunk@[0]@.len(),
                forall|c: int| 0 <= c < n ==> (#[trigger] chunk@[c])@.len() == frames,
                all == interleaved(channel_views(chunk@), frames as nat),
                self.input@ == old(self).input@,
                0 <= f * n <= all.len(),
                self.output@ =~= before + all.take(f * n),
            decreases frames - f,
        {
            let mut c: usize = 0;
            while c < self.channels
                invariant
                    f < frames,
                    c <= self.channels,
                    n == self.channels,
                    n > 0,
                    chunk@.len() == n,
                    forall|c: int| 0 <= c < n ==> (#[trigger] chunk@[c])@.len() == frames,
                    all == interleaved(channel_views(chunk@), frames as nat),
                    self.input@ == old(self).input@,
                    0 <= f * n + c <= all.len(),
                    self.output@ =~= before + all.take(f * n + c),
                decreases self.channels - c,
            {
                proof {
                    lemma_place(f as int, c as int, n, frames as int);
                    assert(all.len() == frames * n);
                    vstd::arithmetic::div_mod::lemma_fundamental_div_mod_converse(f * n + c, n, f as int, c as int);
                    assert(all[f * n + c] == chunk@[c as int]@[f as int]);
                    assert(all.take(f * n + c + 1) =~= all.take(f * n + c).push(all[f * n + c]));
                }
                self.output.push(chunk[c][f]);
                c += 1;
            }
            proof {
                assert(f * n + n == (f + 1) * n) by (nonlinear_arith);
            }
            f += 1;
        }
        assert(all.len() == frames * n);
        assert(all.take(frames * n) =~= all);
    }

    /// Take up to `max_samples` converted samples, those that wait longest.
    pub fn drain(&mut self, max_samples: usize) -> (r: Vec<i16>)
        ensures
            drained(old(self).converted(), final(self).converted(), max_samples as int, r@),
            final(self).channels() == old(self).channels(),
            final(self).waiting() == old(self).waiting(),
    {
        let take: usize = if max_samples < self.output.len() {
            max_samples
        } else {
            self.output.len()
        };
        let mut taken: Vec<i16> = Vec::new();
        let mut i: usize = 0;
        while i < take
            invariant
                i <= take <= self.output@.len(),
                *self == *old(self),
                taken@ =~= self.output@.take(i as int),
            decreases take - i,
        {
            taken.push(self.output[i]);
            i += 1;
        }
        let kept = self.output.split_off(take);
        self.output = kept;
        taken
    }

    /// How many converted samples wait to be taken.
    pub fn available(&self) -> (r: usize)
        ensures
            r == self.converted().len(),
    {
        self.output.len()
    }

    pub fn clear(&mut self)
        requires
            old(self).wf(),
        ensures
            final(self).wf(),
            final(self).channels() == old(self).channels(),
            final(self).waiting().len() == 0,
            final(self).converted().len() == 0,
    {
        proof {
            vstd::arithmetic::div_mod::lemma_fundamental_div_mod_converse(0, self.channels as int, 0, 0);
        }
        self.input.clear();
        self.output.clear();
    }
}

/// Only what does not fill a frame is dropped: less than one frame, at the end.
pub proof fn only_part_of_a_frame_is_dropped(s: Seq<i16>, n: nat)
    requires
        n > 0,
    ensures
        whole_frames(s, n).is_prefix_of(s),
        whole_frames(s, n).len() % n == 0,
        s.len() - whole_frames(s, n).len() < n,
{
    let k = s.len() as int / n as int;
    vstd::arithmetic::div_mod::lemma_fundamental_div_mod(s.len() as int, n as int);
    vstd::arithmetic::div_mod::lemma_mod_bound(s.len() as int, n as int);
    assert(0 <= n * k <= s.len()) by (nonlinear_arith)
        requires
            s.len() as int == n * k + s.len() as int % n as int,
            0 <= s.len() as int % n as int,
            n > 0,
            k == s.len() as int / n as int,
    ;
    assert(k * n == n * k) by (nonlinear_arith);
    vstd::arithmetic::div_mod::lemma_fundamental_div_mod_converse(n * k, n as int, k, 0);
}

/// A converted sample comes out at the frame and in the channel that it was
/// given for.
pub proof fn samples_keep_their_channel(channels: Seq<Seq<i16>>, frames: nat, f: int, c: int)
    requires
        0 <= f < frames,
        0 <= c < channels.len(),
    ensures
        f * channels.len() + c < interleaved(channels, frames).len(),
        interleaved(channels, frames)[f * channels.len() + c] == channels[c][f],
{
    let n = channels.len() as int;
    lemma_place(f, c, n, frames as int);
    vstd::arithmetic::div_mod::lemma_fundamental_div_mod_converse(f * n + c, n, f, c);
}

/// Nothing is lost on the way into a conversion: a chunk, put together again,
/// is the beginning of what waited, and the rest still waits.
pub proof fn a_chunk_is_the_beginning_of_what_waits(
    old: Seq<i16>,
    new: Seq<i16>,
    channels: nat,
    parts: Seq<Seq<i16>>,
)
    requires
        channels > 0,
        chunk_taken(old, new, channels, Some(parts)),
    ensures
        interleaved(parts, CHUNK_SIZE as nat) + new == old,
{
    let n = channels as int;
    let size = CHUNK_SIZE * n;
    let head = old.take(size);
    assert(split(old, channels, CHUNK_SIZE as nat) =~= split(head, channels, CHUNK_SIZE as nat))
        by {
        assert forall|c: int| 0 <= c < n implies #[trigger] split(
            old,
            channels,
            CHUNK_SIZE as nat,
        )[c] == split(head, channels, CHUNK_SIZE as nat)[c] by {
            let a = split(old, channels, CHUNK_SIZE as nat)[c];
            let b = split(head, channels, CHUNK_SIZE as nat)[c];
            assert forall|f: int| 0 <= f < CHUNK_SIZE implies a[f] == b[f] by {
                lemma_place(f, c, n, CHUNK_SIZE as int);
                assert(head[f * n + c] == old[f * n + c]);
            }
            assert(a =~= b);
        }
    }
    interleaving_undoes_splitting(head, channels, CHUNK_SIZE as nat);
    assert(head + new =~= old);
}

/// What was converted comes out in its order: what is taken and what is left
/// are what there was, and no more is taken than was asked for.
pub proof fn converted_samples_come_out_in_order(
    old: Seq<i16>,
    new: Seq<i16>,
    max_samples: int,
    out: Seq<i16>,
)
    requires
        0 <= max_samples,
        drained(old, new, max_samples, out),
    ensures
        out + new == old,
        out.len() <= max_samples,
        new.len() > 0 ==> out.len() == max_samples,
{
    assert(out + new =~= old);
}

} // verus!
