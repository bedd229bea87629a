//! Digital (GPIO) frames, and where each render thread's share of an
//! interleaved buffer lies.
//!
//! Within a digital frame word, bits 0 to 15 hold pin directions
//! (1 = input) and bits 16 to 31 hold pin values.

use vstd::prelude::*;

verus! {

/// Direction of a digital (GPIO) pin. All pins begin as inputs.
#[derive(Debug, Clone, Copy, PartialEq, Eq, Structural)]
pub enum PinMode {
    /// The pin reads external logic levels (the default).
    Input,
    /// The pin drives the value set with the `digital_write` family.
    Output,
}

/// Where a pin's value bit sits above its direction bit.
pub const DIGITAL_VALUE_SHIFT: u32 = 16;

/// How many digital channels a frame word has room for.
pub const MAX_DIGITAL_CHANNELS: usize = 16;

/// The bit holding the value of `channel`.
pub open spec fn spec_value_mask(channel: u32) -> u32 {
    1u32 << ((channel + 16) as u32)
}

/// The bit holding the direction of `channel`.
pub open spec fn spec_direction_mask(channel: u32) -> u32 {
    1u32 << channel
}

/// `word` with the bits of `mask` set or cleared.
pub open spec fn spec_set_bits(word: u32, mask: u32, on: bool) -> u32 {
    if on {
        word | mask
    } else {
        word & !mask
    }
}

/// The value of `channel` in `word`.
pub open spec fn spec_value(word: u32, channel: u32) -> bool {
    word & spec_value_mask(channel) != 0
}

/// Whether `channel` is an input in `word`.
pub open spec fn spec_is_input(word: u32, channel: u32) -> bool {
    word & spec_direction_mask(channel) != 0
}

/// Sets or clears the bits of `mask` in `word`.
pub fn set_bits(word: &mut u32, mask: u32, on: bool)
    ensures
        *final(word) == spec_set_bits(*old(word), mask, on),
{
    if on {
        *word = *word | mask;
    } else {
        *word = *word & !mask;
    }
}

/// The value bit of digital `channel`, of `channels`.
pub fn digital_value_mask(channels: usize, channel: usize) -> (mask: u32)
    requires
        channel < channels,
        channel < MAX_DIGITAL_CHANNELS,
    ensures
        mask == spec_value_mask(channel as u32),
{
    let c = channel as u32;
    1u32 << (c + DIGITAL_VALUE_SHIFT)
}

/// The direction bit of digital `channel`, of `channels`.
pub fn digital_direction_mask(channels: usize, channel: usize) -> (mask: u32)
    requires
        channel < channels,
        channel < MAX_DIGITAL_CHANNELS,
    ensures
        mask == spec_direction_mask(channel as u32),
{
    let c = channel as u32;
    1u32 << c
}

/// Writing a value touches that channel's value and nothing else: the
/// channel reads back what was written, and every other value and every
/// direction reads as before.
pub proof fn lemma_a_value_write_reads_back(word: u32, channel: u32, other: u32, value: bool)
    requires
        channel < 16,
        other < 16,
    ensures
        spec_value(spec_set_bits(word, spec_value_mask(channel), value), channel) == value,
        other != channel ==> spec_value(spec_set_bits(word, spec_value_mask(channel), value), other)
            == spec_value(word, other),
        spec_is_input(spec_set_bits(word, spec_value_mask(channel), value), other)
            == spec_is_input(word, other),
{
    let set = word | (1u32 << ((channel + 16) as u32));
    let clear = word & !(1u32 << ((channel + 16) as u32));
    assert(set & (1u32 << ((channel + 16) as u32)) != 0) by (bit_vector)
        requires
            channel < 16,
            set == word | (1u32 << ((channel + 16) as u32)),
    ;
    assert(clear & (1u32 << ((channel + 16) as u32)) == 0) by (bit_vector)
        requires
            channel < 16,
            clear == word & !(1u32 << ((channel + 16) as u32)),
    ;
    assert(other != channel ==> (set & (1u32 << ((other + 16) as u32)) != 0) == (word & (1u32 << ((
    other + 16) as u32)) != 0)) by (bit_vector)
        requires
            channel < 16,
            other < 16,
            set == word | (1u32 << ((channel + 16) as u32)),
    ;
    assert(other != channel ==> (clear & (1u32 << ((other + 16) as u32)) != 0) == (word & (1u32 << ((
    other + 16) as u32)) != 0)) by (bit_vector)
        requires
            channel < 16,
            other < 16,
            clear == word & !(1u32 << ((channel + 16) as u32)),
    ;
    assert((set & (1u32 << other) != 0) == (word & (1u32 << other) != 0)) by (bit_vector)
        requires
            channel < 16,
            other < 16,
            set == word | (1u32 << ((channel + 16) as u32)),
    ;
    assert((clear & (1u32 << other) != 0) == (word & (1u32 << other) != 0)) by (bit_vector)
        requires
            channel < 16,
            other < 16,
            clear == word & !(1u32 << ((channel + 16) as u32)),
    ;
}

/// Setting a direction touches that channel's direction and nothing
/// else: every value, and every other direction, reads as before.
pub proof fn lemma_a_direction_write_reads_back(word: u32, channel: u32, other: u32, input: bool)
    requires
        channel < 16,
        other < 16,
    ensures
        spec_is_input(spec_set_bits(word, spec_direction_mask(channel), input), channel) == input,
        other != channel ==> spec_is_input(
            spec_set_bits(word, spec_direction_mask(channel), input),
            other,
        ) == spec_is_input(word, other),
        spec_value(spec_set_bits(word, spec_direction_mask(channel), input), other) == spec_value(
            word,
            other,
        ),
{
    let set = word | (1u32 << channel);
    let clear = word & !(1u32 << channel);
    assert(set & (1u32 << channel) != 0) by (bit_vector)
        requires
            channel < 16,
            set == word | (1u32 << channel),
    ;
    assert(clear & (1u32 << channel) == 0) by (bit_vector)
        requires
            channel < 16,
            clear == word & !(1u32 << channel),
    ;
    assert(other != channel ==> (set & (1u32 << other) != 0) == (word & (1u32 << other) != 0))
        by (bit_vector)
        requires
            channel < 16,
            other < 16,
            set == word | (1u32 << channel),
    ;
    assert(other != channel ==> (clear & (1u32 << other) != 0) == (word & (1u32 << other) != 0))
        by (bit_vector)
        requires
            channel < 16,
            other < 16,
            clear == word & !(1u32 << channel),
    ;
    assert((set & (1u32 << ((other + 16) as u32)) != 0) == (word & (1u32 << ((other + 16) as u32))
        != 0)) by (bit_vector)
        requires
            channel < 16,
            other < 16,
            set == word | (1u32 << channel),
    ;
    assert((clear & (1u32 << ((other + 16) as u32)) != 0) == (word & (1u32 << ((other + 16) as u32))
        != 0)) by (bit_vector)
        requires
            channel < 16,
            other < 16,
            clear == word & !(1u32 << channel),
    ;
}

/// The digital frames of a block: one word per frame, for `channels`
/// channels.
pub struct DigitalFrames {
    words: Vec<u32>,
    channels: usize,
}

/// The frames after the bits of `mask` were set or cleared from `frame`
/// to the end.
pub open spec fn spec_set_from(words: Seq<u32>, frame: int, mask: u32, on: bool) -> Seq<u32> {
    Seq::new(
        words.len(),
        |i: int| if i >= frame { spec_set_bits(words[i], mask, on) } else { words[i] },
    )
}

impl View for DigitalFrames {
    type V = Seq<u32>;

    closed spec fn view(&self) -> Seq<u32> {
        self.words@
    }
}

impl DigitalFrames {
    /// How many digital channels the frames carry.
    pub closed spec fn spec_channels(&self) -> usize {
        self.channels
    }

    /// Frames holding `words`, for `channels` channels.
    pub fn new(words: Vec<u32>, channels: usize) -> (frames: Self)
        ensures
            frames@ == words@,
            frames.spec_channels() == channels,
    {
        Self { words, channels }
    }

    /// The frame words.
    pub fn words(&self) -> (words: &Vec<u32>)
        ensures
            words@ == self@,
    {
        &self.words
    }

    /// How many digital channels the frames carry.
    pub fn channels(&self) -> (channels: usize)
        ensures
            channels == self.spec_channels(),
    {
        self.channels
    }

    /// Value of the digital `channel` at `frame` (`digitalRead`).
    pub fn digital_read(&self, frame: usize, channel: usize) -> (value: bool)
        requires
            frame < self@.len(),
            channel < self.spec_channels(),
            channel < MAX_DIGITAL_CHANNELS,
        ensures
            value == spec_value(self@[frame as int], channel as u32),
    {
        let mask = digital_value_mask(self.channels, channel);
        self.words[frame] & mask != 0
    }

    /// Sets or clears `mask` from `frame` to the end of the block.
    fn set_from(&mut self, frame: usize, mask: u32, on: bool)
        ensures
            final(self)@ == spec_set_from(old(self)@, frame as int, mask, on),
            final(self).spec_channels() == old(self).spec_channels(),
    {
        let mut i = frame;
        let n = self.words.len();
        while i < n
            invariant
                frame <= i,
                n == self.words@.len(),
                n == old(self)@.len(),
                self.channels == old(self).channels,
                forall|j: int|
                    0 <= j < n ==> #[trigger] self.words@[j] == (if j >= frame && j < i {
                        spec_set_bits(old(self)@[j], mask, on)
                    } else {
                        old(self)@[j]
                    }),
            decreases n - i,
        {
            assert(self.words@[i as int] == old(self)@[i as int]);
            let mut word = self.words[i];
            set_bits(&mut word, mask, on);
            let ghost before = self.words@;
            self.words.set(i, word);
            assert forall|j: int| 0 <= j < n implies #[trigger] self.words@[j] == (if j >= frame && j
                < i + 1 {
                spec_set_bits(old(self)@[j], mask, on)
            } else {
                old(self)@[j]
            }) by {
                if j != i {
                    assert(self.words@[j] == before[j]);
                    assert(before[j] == (if j >= frame && j < i {
                        spec_set_bits(old(self)@[j], mask, on)
                    } else {
                        old(self)@[j]
                    }));
                } else {
                    assert(frame <= i);
                    assert(self.words@[j] == word);
                }
            }
            i = i + 1;
        }
        assert(self.words@ =~= spec_set_from(old(self)@, frame as int, mask, on));
    }

    /// Sets the digital output `channel` from `frame` to the end of the
    /// block (`digitalWrite`).
    pub fn digital_write(&mut self, frame: usize, channel: usize, value: bool)
        requires
            channel < old(self).spec_channels(),
            channel < MAX_DIGITAL_CHANNELS,
        ensures
            final(self)@ == spec_set_from(old(self)@, frame as int, spec_value_mask(channel as u32), value),
            final(self).spec_channels() == old(self).spec_channels(),
    {
        let mask = digital_value_mask(self.channels, channel);
        self.set_from(frame, mask, value);
    }

    /// Sets the digital output `channel` at `frame` only
    /// (`digitalWriteOnce`).
    pub fn digital_write_once(&mut self, frame: usize, channel: usize, value: bool)
        requires
            frame < old(self)@.len(),
            channel < old(self).spec_channels(),
            channel < MAX_DIGITAL_CHANNELS,
        ensures
            final(self)@ == old(self)@.update(
                frame as int,
                spec_set_bits(old(self)@[frame as int], spec_value_mask(channel as u32), value),
            ),
            final(self).spec_channels() == old(self).spec_channels(),
    {
        let mask = digital_value_mask(self.channels, channel);
        let mut word = self.words[frame];
        set_bits(&mut word, mask, value);
        self.words.set(frame, word);
    }

    /// Sets the direction of digital `channel` from `frame` to the end of
    /// the block (`pinMode`).
    pub fn pin_mode(&mut self, frame: usize, channel: usize, mode: PinMode)
        requires
            channel < old(self).spec_channels(),
            channel < MAX_DIGITAL_CHANNELS,
        ensures
            final(self)@ == spec_set_from(
                old(self)@,
                frame as int,
                spec_direction_mask(channel as u32),
                mode == PinMode::Input,
            ),
            final(self).spec_channels() == old(self).spec_channels(),
    {
        let mask = digital_direction_mask(self.channels, channel);
        let input = match mode {
            PinMode::Input => true,
            PinMode::Output => false,
        };
        self.set_from(frame, mask, input);
    }

    /// Sets the direction of digital `channel` at `frame` only
    /// (`pinModeOnce`).
    pub fn pin_mode_once(&mut self, frame: usize, channel: usize, mode: PinMode)
        requires
            frame < old(self)@.len(),
            channel < old(self).spec_channels(),
            channel < MAX_DIGITAL_CHANNELS,
        ensures
            final(self)@ == old(self)@.update(
                frame as int,
                spec_set_bits(
                    old(self)@[frame as int],
                    spec_direction_mask(channel as u32),
                    mode == PinMode::Input,
                ),
            ),
            final(self).spec_channels() == old(self).spec_channels(),
    {
        let mask = digital_direction_mask(self.channels, channel);
        let input = match mode {
            PinMode::Input => true,
            PinMode::Output => false,
        };
        let mut word = self.words[frame];
        set_bits(&mut word, mask, input);
        self.words.set(frame, word);
    }
}

/// Where in an interleaved buffer of `frames` frames and `channels`
/// channels the samples of frames `start..end` are, clamped to the
/// buffer: the offset of the first sample and how many there are.
pub open spec fn spec_samples(frames: nat, channels: nat, start: nat, end: nat) -> (nat, nat) {
    let e = if end < frames { end } else { frames };
    let s = if start < e { start } else { e };
    ((s * channels) as nat, ((e - s) * channels) as nat)
}

/// Where in an interleaved buffer the samples of frames `start..end`
/// are, clamped to the buffer.
pub fn samples(frames: usize, channels: usize, start: usize, end: usize) -> (span: (usize, usize))
    requires
        frames * channels <= usize::MAX,
    ensures
        span.0 == spec_samples(frames as nat, channels as nat, start as nat, end as nat).0,
        span.1 == spec_samples(frames as nat, channels as nat, start as nat, end as nat).1,
        span.0 + span.1 <= frames * channels,
{
    let e = if end < frames { end } else { frames };
    let s = if start < e { start } else { e };
    proof {
        assert(s * channels <= frames * channels) by (nonlinear_arith)
            requires
                s <= frames,
        ;
        assert((e - s) * channels + s * channels == e * channels) by (nonlinear_arith);
        assert(e * channels <= frames * channels) by (nonlinear_arith)
            requires
                e <= frames,
        ;
    }
    (s * channels, (e - s) * channels)
}

/// Where block frame `frame` sits within a share that covers the frames
/// of `range`: how far into the share it is.
pub fn frame_offset(range: &core::ops::Range<usize>, frame: usize) -> (offset: usize)
    requires
        range.start <= frame < range.end,
    ensures
        offset == frame - range.start,
        offset < range.end - range.start,
{
    frame - range.start
}

/// The index, within the share of the frames of `range` of an
/// interleaved buffer of `channels` channels, of the sample of `channel`
/// at block frame `frame`: how a render thread reaches one sample once
/// its reference covers its own frames alone.
pub fn share_index(range: &core::ops::Range<usize>, frame: usize, channels: usize, channel: usize) -> (index: usize)
    requires
        range.start <= frame < range.end,
        channel < channels,
        range.end * channels <= usize::MAX,
    ensures
        index == (frame - range.start) * channels + channel,
        index < (range.end - range.start) * channels,
        range.start * channels + index == frame * channels + channel,
{
    let offset = frame_offset(range, frame);
    proof {
        assert(offset * channels + channel < (range.end - range.start) * channels) by (nonlinear_arith)
            requires
                offset < range.end - range.start,
                channel < channels,
        ;
        assert((range.end - range.start) * channels <= range.end * channels) by (nonlinear_arith)
            requires
                range.start <= range.end,
        ;
        assert(range.start * channels + offset * channels == frame * channels) by (nonlinear_arith)
            requires
                offset == frame - range.start,
        ;
    }
    offset * channels + channel
}

/// A sample written through a thread's share lands inside that share:
/// the sample of any channel at any frame of the share's range is at
/// block index `frame * channels + channel`, between the share's first
/// sample and its last, so a thread writes only its own frames.
pub proof fn lemma_a_share_holds_only_its_own_frames(
    frames: nat,
    channels: nat,
    start: nat,
    end: nat,
    frame: nat,
    channel: nat,
)
    requires
        start <= frame < end <= frames,
        channel < channels,
    ensures
        ({
            let share = spec_samples(frames, channels, start, end);
            &&& share.0 <= frame * channels + channel < share.0 + share.1
            &&& share.0 + ((frame - start) * channels + channel) == frame * channels + channel
        }),
{
    assert(start * channels + (frame - start) * channels == frame * channels) by (nonlinear_arith)
        requires
            start <= frame,
    ;
    assert((frame - start) * channels + channel < (end - start) * channels) by (nonlinear_arith)
        requires
            frame < end,
            start <= frame,
            channel < channels,
    ;
}

/// Shares of an interleaved buffer taken for ranges of frames that do
/// not overlap do not overlap either: what one render thread writes
/// through its share, no other thread's share reaches.
pub proof fn lemma_shares_of_disjoint_ranges_are_disjoint(
    frames: nat,
    channels: nat,
    a_start: nat,
    a_end: nat,
    b_start: nat,
    b_end: nat,
)
    requires
        a_start <= a_end <= b_start <= b_end,
    ensures
        ({
            let a = spec_samples(frames, channels, a_start, a_end);
            let b = spec_samples(frames, channels, b_start, b_end);
            a.0 + a.1 <= b.0
        }),
{
    let ae = if a_end < frames { a_end } else { frames };
    let as_ = if a_start < ae { a_start } else { ae };
    let be = if b_end < frames { b_end } else { frames };
    let bs = if b_start < be { b_start } else { be };
    assert(ae <= bs);
    assert((ae - as_) * channels + as_ * channels == ae * channels) by (nonlinear_arith);
    assert(ae * channels <= bs * channels) by (nonlinear_arith)
        requires
            ae <= bs,
    ;
}

} // verus!
