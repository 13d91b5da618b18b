//! Planar sample buffers: one vector of samples for each channel.
//!
//! The player copies samples and never computes with them, so the sample
//! type is a parameter.

use vstd::prelude::*;

verus! {

/// The channels of a planar buffer as sequences of samples.
pub open spec fn planar_view<S>(buffer: Vec<Vec<S>>) -> Seq<Seq<S>> {
    Seq::new(buffer@.len(), |channel: int| buffer@[channel]@)
}

/// Every channel of `channels` holds exactly `frames` samples.
pub open spec fn has_frames<S>(channels: Seq<Seq<S>>, frames: nat) -> bool {
    forall|channel: int| 0 <= channel < channels.len() ==> (#[trigger] channels[channel]).len() == frames
}

/// Every channel of `channels` holds at least `frames` samples.
pub open spec fn covers_frames<S>(channels: Seq<Seq<S>>, frames: nat) -> bool {
    forall|channel: int| 0 <= channel < channels.len() ==> (#[trigger] channels[channel]).len() >= frames
}

/// The frames `from .. to` of every channel.
pub open spec fn frames_between<S>(channels: Seq<Seq<S>>, from: int, to: int) -> Seq<Seq<S>> {
    Seq::new(channels.len(), |channel: int| channels[channel].subrange(from, to))
}

/// Channel by channel, the samples of `first` followed by those of `second`.
pub open spec fn joined<S>(first: Seq<Seq<S>>, second: Seq<Seq<S>>) -> Seq<Seq<S>> {
    Seq::new(first.len(), |channel: int| first[channel] + second[channel])
}

/// `channels` empty channels.
pub open spec fn no_frames<S>(channels: nat) -> Seq<Seq<S>> {
    Seq::new(channels, |channel: int| Seq::<S>::empty())
}

/// `frames` samples of `value`.
pub open spec fn constant_frames<S>(value: S, frames: nat) -> Seq<S> {
    Seq::new(frames, |frame: int| value)
}

/// Every channel extended with `value` to `frames` samples.
pub open spec fn padded<S>(channels: Seq<Seq<S>>, value: S, frames: nat) -> Seq<Seq<S>> {
    Seq::new(
        channels.len(),
        |channel: int|
            channels[channel] + constant_frames(
                value,
                (frames - channels[channel].len()) as nat,
            ),
    )
}

/// Appends the samples `from .. to` of `source` to `target`.
pub fn append_frames<S: Copy>(target: &mut Vec<S>, source: &Vec<S>, from: usize, to: usize)
    requires
        from <= to <= source@.len(),
    ensures
        final(target)@ == old(target)@ + source@.subrange(from as int, to as int),
{
    let mut i: usize = from;
    while i < to
        invariant
            from <= i <= to <= source@.len(),
            target@ == old(target)@ + source@.subrange(from as int, i as int),
        decreases to - i,
    {
        let sample = source[i];
        target.push(sample);
        i += 1;
        assert(target@ =~= old(target)@ + source@.subrange(from as int, i as int));
    }
    assert(target@ =~= old(target)@ + source@.subrange(from as int, to as int));
}

/// Appends `value` to `target` until it holds `frames` samples.
pub fn pad_frames<S: Copy>(target: &mut Vec<S>, value: S, frames: usize)
    requires
        old(target)@.len() <= frames,
    ensures
        final(target)@ == old(target)@ + constant_frames(
            value,
            (frames - old(target)@.len()) as nat,
        ),
{
    let ghost before = target@;
    while target.len() < frames
        invariant
            before.len() <= target@.len() <= frames,
            target@ == before + constant_frames(value, (target@.len() - before.len()) as nat),
        decreases frames - target@.len(),
    {
        target.push(value);
        assert(target@ =~= before + constant_frames(
            value,
            (target@.len() - before.len()) as nat,
        ));
    }
}

/// A planar buffer of `channels` channels that hold `frames` samples of
/// `value` each.
pub fn constant_buffer<S: Copy>(channels: usize, frames: usize, value: S) -> (buffer: Vec<Vec<S>>)
    ensures
        planar_view(buffer) == Seq::new(channels as nat, |channel: int| constant_frames(value, frames as nat)),
{
    let mut buffer: Vec<Vec<S>> = Vec::with_capacity(channels);
    while buffer.len() < channels
        invariant
            buffer@.len() <= channels,
            forall|channel: int|
                0 <= channel < buffer@.len() ==> (#[trigger] buffer@[channel])@ == constant_frames(
                    value,
                    frames as nat,
                ),
        decreases channels - buffer@.len(),
    {
        let mut samples: Vec<S> = Vec::with_capacity(frames);
        pad_frames(&mut samples, value, frames);
        assert(samples@ =~= constant_frames(value, frames as nat));
        buffer.push(samples);
    }
    assert(planar_view(buffer) =~= Seq::new(
        channels as nat,
        |channel: int| constant_frames(value, frames as nat),
    ));
    buffer
}

/// The number of frames of a planar buffer: `Some(frames)` where the buffer
/// has a channel and all its channels hold `frames` samples, `None`
/// otherwise.
pub fn frames_of<S>(buffer: &Vec<Vec<S>>) -> (frames: Option<usize>)
    ensures
        frames is Some <==> buffer@.len() > 0 && has_frames(
            planar_view(*buffer),
            planar_view(*buffer)[0].len(),
        ),
        frames matches Some(n) ==> n == planar_view(*buffer)[0].len(),
{
    if buffer.len() == 0 {
        return None;
    }
    let n = buffer[0].len();
    let mut channel: usize = 1;
    while channel < buffer.len()
        invariant
            1 <= channel <= buffer@.len(),
            n == buffer@[0]@.len(),
            forall|c: int| 0 <= c < channel ==> (#[trigger] planar_view(*buffer)[c]).len() == n,
        decreases buffer@.len() - channel,
    {
        if buffer[channel].len() != n {
            assert(planar_view(*buffer)[channel as int].len() != n);
            return None;
        }
        channel += 1;
    }
    Some(n)
}

/// Whether every channel of `buffer` holds at least `frames` samples.
pub fn covers<S>(buffer: &Vec<Vec<S>>, frames: usize) -> (enough: bool)
    ensures
        enough == covers_frames(planar_view(*buffer), frames as nat),
{
    let mut channel: usize = 0;
    while channel < buffer.len()
        invariant
            channel <= buffer@.len(),
            forall|c: int| 0 <= c < channel ==> (#[trigger] planar_view(*buffer)[c]).len() >= frames,
        decreases buffer@.len() - channel,
    {
        if buffer[channel].len() < frames {
            assert(planar_view(*buffer)[channel as int].len() < frames);
            return false;
        }
        channel += 1;
    }
    true
}

/// Appends the frames `from .. to` of every channel of `source` to the same
/// channel of `target`.
pub fn append_planar<S: Copy>(
    target: &mut Vec<Vec<S>>,
    source: &Vec<Vec<S>>,
    from: usize,
    to: usize,
)
    requires
        old(target)@.len() == source@.len(),
        from <= to,
        covers_frames(planar_view(*source), to as nat),
    ensures
        final(target)@.len() == old(target)@.len(),
        planar_view(*final(target)) == joined(
            planar_view(*old(target)),
            frames_between(planar_view(*source), from as int, to as int),
        ),
{
    let channels = target.len();
    let mut channel: usize = 0;
    while channel < channels
        invariant
            channel <= channels,
            channels == source@.len(),
            target@.len() == channels,
            from <= to,
            covers_frames(planar_view(*source), to as nat),
            forall|c: int|
                0 <= c < channel ==> (#[trigger] target@[c])@ == old(target)@[c]@ + source@[c]@.subrange(
                    from as int,
                    to as int,
                ),
            forall|c: int| channel <= c < channels ==> (#[trigger] target@[c]) == old(target)@[c],
        decreases channels - channel,
    {
        assert(planar_view(*source)[channel as int].len() >= to);
        append_frames(&mut target[channel], &source[channel], from, to);
        channel += 1;
    }
    assert(planar_view(*target) =~= joined(
        planar_view(*old(target)),
        frames_between(planar_view(*source), from as int, to as int),
    ));
}

/// Extends every channel of `target` with `value` to `frames` samples.
pub fn pad_planar<S: Copy>(target: &mut Vec<Vec<S>>, value: S, frames: usize)
    requires
        forall|c: int| 0 <= c < old(target)@.len() ==> (#[trigger] old(target)@[c])@.len() <= frames,
    ensures
        final(target)@.len() == old(target)@.len(),
        planar_view(*final(target)) == padded(planar_view(*old(target)), value, frames as nat),
{
    let channels = target.len();
    let mut channel: usize = 0;
    while channel < channels
        invariant
            channel <= channels,
            target@.len() == channels,
            channels == old(target)@.len(),
            forall|c: int| 0 <= c < old(target)@.len() ==> (#[trigger] old(target)@[c])@.len() <= frames,
            forall|c: int|
                0 <= c < channel ==> (#[trigger] target@[c])@ == old(target)@[c]@ + constant_frames(
                    value,
                    (frames - old(target)@[c]@.len()) as nat,
                ),
            forall|c: int| channel <= c < channels ==> (#[trigger] target@[c]) == old(target)@[c],
        decreases channels - channel,
    {
        pad_frames(&mut target[channel], value, frames);
        channel += 1;
    }
    assert(planar_view(*target) =~= padded(planar_view(*old(target)), value, frames as nat));
}

/// Takes the channels out of `target` and leaves as many empty channels, each
/// with room for `capacity` samples.
pub fn take_planar<S>(target: &mut Vec<Vec<S>>, capacity: usize) -> (taken: Vec<Vec<S>>)
    ensures
        taken == *old(target),
        final(target)@.len() == old(target)@.len(),
        planar_view(*final(target)) == no_frames::<S>(old(target)@.len()),
{
    let channels = target.len();
    let mut fresh: Vec<Vec<S>> = Vec::with_capacity(channels);
    while fresh.len() < channels
        invariant
            fresh@.len() <= channels,
            forall|c: int| 0 <= c < fresh@.len() ==> (#[trigger] fresh@[c])@ == Seq::<S>::empty(),
        decreases channels - fresh@.len(),
    {
        fresh.push(Vec::with_capacity(capacity));
    }
    assert(planar_view(fresh) =~= no_frames::<S>(channels as nat));
    core::mem::swap(target, &mut fresh);
    fresh
}

} // verus!
