//! Planar multi-channel sample buffers and the processing nodes that read
//! one buffer and write another.
use vstd::prelude::*;

verus! {

/// Samples of several channels, one after the other: channel `i` holds
/// `data[i * frames .. (i + 1) * frames]`.
#[derive(Debug)]
pub struct AudioBuffer {
    pub data: Vec<i32>,
    pub num_channels: usize,
}

impl AudioBuffer {
    /// Frames per channel.
    pub open spec fn frames(&self) -> int {
        self.data@.len() as int / self.num_channels as int
    }

    /// Where channel `i` starts in `data`.
    pub open spec fn channel_start(&self, i: int) -> int {
        i * self.frames()
    }

    pub fn num_channels(&self) -> (r: usize)
        ensures
            r == self.num_channels,
    {
        self.num_channels
    }

    pub fn num_frames(&self) -> (r: usize)
        requires
            self.num_channels > 0,
        ensures
            r == self.frames(),
    {
        self.data.len() / self.num_channels
    }

    fn channel_bounds(&self, channel_index: usize) -> (r: (usize, usize))
        requires
            self.num_channels > 0,
            channel_index < self.num_channels,
        ensures
            r.0 == self.channel_start(channel_index as int),
            r.1 == r.0 + self.frames(),
            r.1 <= self.data@.len(),
    {
        let frames = self.num_frames();
        let len = self.data.len();
        proof {
            let f = frames as int;
            let c = self.num_channels as int;
            let i = channel_index as int;
            vstd::arithmetic::div_mod::lemma_fundamental_div_mod(self.data@.len() as int, c);
            vstd::arithmetic::div_mod::lemma_mod_bound(self.data@.len() as int, c);
            vstd::arithmetic::div_mod::lemma_div_pos_is_pos(self.data@.len() as int, c);
            assert((i + 1) * f <= c * f) by (nonlinear_arith)
                requires
                    i + 1 <= c,
                    f >= 0,
            ;
            assert(i * f + f == (i + 1) * f) by (nonlinear_arith);
            assert(c * f <= self.data@.len());
            assert(i * f <= (i + 1) * f) by (nonlinear_arith)
                requires
                    f >= 0,
            ;
            assert(i * f + f <= self.data@.len());
        }
        let start = channel_index * frames;
        (start, start + frames)
    }

    /// The samples of one channel.
    pub fn channel(&self, channel_index: usize) -> (r: &[i32])
        requires
            self.num_channels > 0,
            channel_index < self.num_channels,
        ensures
            r@ == self.data@.subrange(
                self.channel_start(channel_index as int),
                self.channel_start(channel_index as int) + self.frames(),
            ),
    {
        let (start, end) = self.channel_bounds(channel_index);
        vstd::slice::slice_subrange(self.data.as_slice(), start, end)
    }

    /// The samples of one channel, to write in place.
    pub fn channel_mut(&mut self, channel_index: usize) -> (r: &mut [i32])
        requires
            old(self).num_channels > 0,
            channel_index < old(self).num_channels,
        ensures
            r@ == old(self).data@.subrange(
                old(self).channel_start(channel_index as int),
                old(self).channel_start(channel_index as int) + old(self).frames(),
            ),
            final(self).num_channels == old(self).num_channels,
            final(self).data@ == old(self).data@.subrange(
                0,
                old(self).channel_start(channel_index as int),
            ) + final(r)@ + old(self).data@.subrange(
                old(self).channel_start(channel_index as int) + old(self).frames(),
                old(self).data@.len() as int,
            ),
    {
        let (start, end) = self.channel_bounds(channel_index);
        let all = self.data.as_mut_slice();
        let (_, tail) = all.split_at_mut(start);
        let (mid, _) = tail.split_at_mut(end - start);
        mid
    }
}

/// A processing step from an input buffer to an output buffer of the same
/// shape: as many channels and as many frames.
pub trait AudioNode {
    /// The node can run.
    spec fn ready(&self) -> bool;

    /// What the node writes for an input: `after` is the output buffer's data
    /// once the node ran, `before` what it held until then.
    spec fn produces(&self, input: AudioBuffer, before: Seq<i32>, after: Seq<i32>) -> bool;

    fn process(&mut self, input: &AudioBuffer, output: &mut AudioBuffer)
        requires
            old(self).ready(),
            input.num_channels > 0,
            input.num_channels == old(output).num_channels,
            input.frames() == old(output).frames(),
        ensures
            final(self).ready(),
            final(output).num_channels == old(output).num_channels,
            final(output).data@.len() == old(output).data@.len(),
            old(self).produces(*input, old(output).data@, final(output).data@),
    ;
}

/// Shapes each sample through a transfer function.
pub struct WaveShaperNode<F: Fn(i32) -> i32> {
    pub transfer_fn: F,
}

impl<F: Fn(i32) -> i32> WaveShaperNode<F> {
    /// The transfer function takes every sample value.
    pub open spec fn total(&self) -> bool {
        forall|x: i32| #[trigger] self.transfer_fn.requires((x,))
    }

    /// Each sample of a channel frame is the transfer function of the input
    /// sample at the same place; data past the last full frame is left as it was.
    pub open spec fn shaped(&self, input: AudioBuffer, before: Seq<i32>, after: Seq<i32>) -> bool {
        let n = input.num_channels * input.frames();
        &&& after.len() == before.len()
        &&& forall|j: int|
            0 <= j < n ==> self.transfer_fn.ensures((input.data@[j],), #[trigger] after[j])
        &&& forall|j: int| n <= j < after.len() ==> #[trigger] after[j] == before[j]
    }

    /// Writes the shaped input into the output, channel by channel.
    pub fn shape(&self, input: &AudioBuffer, output: &mut AudioBuffer)
        requires
            self.total(),
            input.num_channels > 0,
            input.num_channels == old(output).num_channels,
            input.frames() == old(output).frames(),
        ensures
            final(output).num_channels == old(output).num_channels,
            self.shaped(*input, old(output).data@, final(output).data@),
    {
        let num_channels = input.num_channels();
        let frames = input.num_frames();
        let total = output.data.len();
        proof {
            vstd::arithmetic::div_mod::lemma_fundamental_div_mod(total as int, num_channels as int);
            vstd::arithmetic::div_mod::lemma_mod_bound(total as int, num_channels as int);
            vstd::arithmetic::div_mod::lemma_fundamental_div_mod(
                input.data@.len() as int,
                num_channels as int,
            );
            vstd::arithmetic::div_mod::lemma_mod_bound(input.data@.len() as int, num_channels as int);
        }
        let mut c: usize = 0;
        let mut j: usize = 0;
        while c < num_channels
            invariant
                self.total(),
                num_channels == input.num_channels,
                num_channels > 0,
                frames == input.frames(),
                frames == old(output).frames(),
                num_channels * frames <= total,
                num_channels * frames <= input.data@.len(),
                total == old(output).data@.len(),
                output.data@.len() == total,
                output.num_channels == old(output).num_channels,
                c <= num_channels,
                j == c * frames,
                forall|x: int|
                    0 <= x < j ==> self.transfer_fn.ensures((input.data@[x],), #[trigger] output.data@[x]),
                forall|x: int| j <= x < total ==> #[trigger] output.data@[x] == old(output).data@[x],
            decreases num_channels - c,
        {
            let samples = input.channel(c);
            proof {
                assert((c + 1) * frames == c * frames + frames) by (nonlinear_arith);
                assert((c + 1) * frames <= num_channels * frames) by (nonlinear_arith)
                    requires
                        c + 1 <= num_channels,
                ;
            }
            let mut k: usize = 0;
            while k < frames
                invariant
                    self.total(),
                    samples@ == input.data@.subrange(j as int, j + frames),
                    j + frames <= total,
                    j + frames <= input.data@.len(),
                    output.data@.len() == total,
                    output.num_channels == old(output).num_channels,
                    k <= frames,
                    forall|x: int|
                        0 <= x < j + k ==> self.transfer_fn.ensures((input.data@[x],), #[trigger] output.data@[x]),
                    forall|x: int| j + k <= x < total ==> #[trigger] output.data@[x] == old(output).data@[x],
                decreases frames - k,
            {
                let v = (self.transfer_fn)(samples[k]);
                output.data.set(j + k, v);
                k = k + 1;
            }
            j = j + frames;
            c = c + 1;
        }
    }
}

impl<F: Fn(i32) -> i32> AudioNode for WaveShaperNode<F> {
    open spec fn ready(&self) -> bool {
        self.total()
    }

    open spec fn produces(&self, input: AudioBuffer, before: Seq<i32>, after: Seq<i32>) -> bool {
        self.shaped(input, before, after)
    }

    fn process(&mut self, input: &AudioBuffer, output: &mut AudioBuffer) {
        self.shape(input, output);
    }
}

} // verus!
