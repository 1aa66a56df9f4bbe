//! PCM blocks in planar layout: one sequence of samples per channel.
//!
//! The functions are generic over the sample type, so that the same proofs
//! cover whatever sample format a codec hands out.
use vstd::arithmetic::div_mod::{
    lemma_fundamental_div_mod, lemma_fundamental_div_mod_converse_div,
    lemma_fundamental_div_mod_converse_mod,
};
use vstd::prelude::*;

verus! {

/// The channels of a block as sequences of samples.
pub open spec fn planes_of<T>(block: Seq<Vec<T>>) -> Seq<Seq<T>> {
    Seq::new(block.len(), |c: int| block[c]@)
}

/// How many of `n` interleaved samples belong to channel `c` of `channels`.
pub open spec fn plane_len(n: nat, channels: nat, c: nat) -> nat {
    n / channels + if c < n % channels {
        1nat
    } else {
        0nat
    }
}

/// Interleaved samples split into planes: sample `k` of channel `c` is sample
/// `k * channels + c` of `data`. A trailing partial frame goes to the first
/// channels only.
pub open spec fn deinterleaved<T>(data: Seq<T>, channels: nat) -> Seq<Seq<T>> {
    Seq::new(
        channels,
        |c: int| Seq::new(plane_len(data.len(), channels, c as nat), |k: int| data[k * channels + c]),
    )
}

/// Planes woven frame by frame into one sequence, over the frames of the
/// first channel.
pub open spec fn interleaved<T>(planes: Seq<Seq<T>>) -> Seq<T> {
    Seq::new(
        planes.len() * planes[0].len(),
        |i: int| planes[i % (planes.len() as int)][i / (planes.len() as int)],
    )
}

/// A single channel duplicated into two; any other channel count is kept.
pub open spec fn upmixed<T>(planes: Seq<Seq<T>>) -> Seq<Seq<T>> {
    if planes.len() == 1 {
        planes.push(planes[0])
    } else {
        planes
    }
}

/// Frames of a block, as given by its first channel.
pub open spec fn block_frames<T>(planes: Seq<Seq<T>>) -> nat {
    if planes.len() > 0 {
        planes[0].len()
    } else {
        0
    }
}

/// A block reshaped to exactly `target` channels: the first
/// `min(planes.len(), target)` channels are kept, and each missing channel is
/// a plane of `silence` as long as the block.
pub open spec fn shaped<T>(planes: Seq<Seq<T>>, target: nat, silence: T) -> Seq<Seq<T>> {
    Seq::new(
        target,
        |c: int|
            if c < planes.len() {
                planes[c]
            } else {
                Seq::new(block_frames(planes), |k: int| silence)
            },
    )
}

proof fn lemma_plane_index_in_bounds(n: nat, channels: nat, c: nat, k: nat)
    requires
        channels > 0,
        c < channels,
        k < plane_len(n, channels, c),
    ensures
        k * channels + c < n,
{
    let f = n / channels;
    let r = n % channels;
    lemma_fundamental_div_mod(n as int, channels as int);
    assert(n == channels * f + r);
    if c < r {
        assert(k <= f);
        assert(k * channels + c < n) by (nonlinear_arith)
            requires
                k <= f,
                c < r,
                n == channels * f + r,
        ;
    } else {
        assert(k < f);
        assert(k * channels + c < n) by (nonlinear_arith)
            requires
                k + 1 <= f,
                c < channels,
                r >= 0,
                n == channels * f + r,
        ;
    }
}

/// A copy of one plane.
pub fn copy_plane<T: Copy>(plane: &Vec<T>) -> (r: Vec<T>)
    ensures
        r@ == plane@,
{
    let mut out: Vec<T> = Vec::with_capacity(plane.len());
    let mut k: usize = 0;
    while k < plane.len()
        invariant
            k <= plane@.len(),
            out@ == plane@.subrange(0, k as int),
        decreases plane@.len() - k,
    {
        out.push(plane[k]);
        k = k + 1;
    }
    assert(out@ =~= plane@);
    out
}

/// Splits interleaved samples into one plane per channel.
pub fn deinterleave<T: Copy>(data: &[T], channels: usize) -> (r: Vec<Vec<T>>)
    requires
        channels >= 1,
    ensures
        planes_of(r@) == deinterleaved(data@, channels as nat),
{
    let n = data.len();
    let frames = n / channels;
    let rest = n % channels;
    let mut planes: Vec<Vec<T>> = Vec::with_capacity(channels);
    let mut c: usize = 0;
    while c < channels
        invariant
            n == data@.len(),
            frames == n / channels,
            rest == n % channels,
            channels >= 1,
            c <= channels,
            planes@.len() == c,
            forall|j: int|
                0 <= j < c ==> #[trigger] planes@[j]@ == deinterleaved(data@, channels as nat)[j],
        decreases channels - c,
    {
        let len: usize = if c < rest {
            proof {
                lemma_fundamental_div_mod(n as int, channels as int);
                assert(frames + 1 <= n) by (nonlinear_arith)
                    requires
                        n == channels * frames + rest,
                        c < rest,
                        rest < channels,
                ;
            }
            frames + 1
        } else {
            frames
        };
        assert(len == plane_len(n as nat, channels as nat, c as nat));
        let mut plane: Vec<T> = Vec::with_capacity(len);
        let mut k: usize = 0;
        while k < len
            invariant
                n == data@.len(),
                channels >= 1,
                c < channels,
                k <= len,
                len == plane_len(n as nat, channels as nat, c as nat),
                plane@ == Seq::new(k as nat, |i: int| data@[i * channels + c]),
            decreases len - k,
        {
            proof {
                lemma_plane_index_in_bounds(n as nat, channels as nat, c as nat, k as nat);
            }
            plane.push(data[k * channels + c]);
            k = k + 1;
            assert(plane@ =~= Seq::new(k as nat, |i: int| data@[i * channels + c]));
        }
        assert(plane@ =~= deinterleaved(data@, channels as nat)[c as int]);
        planes.push(plane);
        c = c + 1;
    }
    assert(planes_of(planes@) =~= deinterleaved(data@, channels as nat));
    planes
}

/// Weaves planes frame by frame into one interleaved sequence; the frame count
/// is that of the first channel.
pub fn interleave<T: Copy>(planes: &Vec<Vec<T>>) -> (r: Vec<T>)
    requires
        planes@.len() >= 1,
        forall|c: int| 0 <= c < planes@.len() ==> #[trigger] planes@[c]@.len() >= planes@[0]@.len(),
        planes@.len() * planes@[0]@.len() <= usize::MAX,
    ensures
        r@ == interleaved(planes_of(planes@)),
{
    let channels = planes.len();
    let frames = planes[0].len();
    let ghost view = planes_of(planes@);
    let mut out: Vec<T> = Vec::new();
    let mut f: usize = 0;
    while f < frames
        invariant
            channels == planes@.len(),
            channels >= 1,
            frames == planes@[0]@.len(),
            channels * frames <= usize::MAX,
            view == planes_of(planes@),
            forall|c: int| 0 <= c < channels ==> #[trigger] planes@[c]@.len() >= frames,
            f <= frames,
            f * channels <= channels * frames,
            out@ == interleaved(view).subrange(0, (f * channels) as int),
        decreases frames - f,
    {
        let mut c: usize = 0;
        while c < channels
            invariant
                channels == planes@.len(),
                channels >= 1,
                frames == planes@[0]@.len(),
                channels * frames <= usize::MAX,
                view == planes_of(planes@),
                forall|c: int| 0 <= c < channels ==> #[trigger] planes@[c]@.len() >= frames,
                f < frames,
                c <= channels,
                out@ == interleaved(view).subrange(0, (f * channels + c) as int),
            decreases channels - c,
        {
            proof {
                assert(f * channels + c < channels * frames) by (nonlinear_arith)
                    requires
                        f < frames,
                        c < channels,
                ;
                let i = (f * channels + c) as int;
                lemma_fundamental_div_mod_converse_mod(i, channels as int, f as int, c as int);
                lemma_fundamental_div_mod_converse_div(i, channels as int, f as int, c as int);
            }
            out.push(planes[c][f]);
            c = c + 1;
            assert(out@ =~= interleaved(view).subrange(0, (f * channels + c) as int));
        }
        assert((f + 1) * channels == f * channels + channels) by (nonlinear_arith);
        assert((f + 1) * channels <= channels * frames) by (nonlinear_arith)
            requires
                f < frames,
        ;
        f = f + 1;
    }
    assert(f * channels == channels * frames) by (nonlinear_arith)
        requires
            f == frames,
    ;
    assert(out@ =~= interleaved(view));
    out
}

/// Duplicates a single channel into two, so that a mono source reaches the
/// encoders as stereo; a block with another channel count is returned as is.
pub fn upmix_mono<T: Copy>(planes: Vec<Vec<T>>) -> (r: Vec<Vec<T>>)
    ensures
        planes_of(r@) == upmixed(planes_of(planes@)),
{
    let ghost before = planes_of(planes@);
    let mut planes = planes;
    if planes.len() == 1 {
        let copy = copy_plane(&planes[0]);
        planes.push(copy);
        assert(planes_of(planes@) =~= upmixed(before));
    }
    planes
}

/// Reshapes a block to exactly `target` channels: surplus channels are
/// dropped and missing ones are filled with `silence`.
pub fn shape_channels<T: Copy>(block: &Vec<Vec<T>>, target: usize, silence: T) -> (r: Vec<Vec<T>>)
    ensures
        planes_of(r@) == shaped(planes_of(block@), target as nat, silence),
{
    let frames: usize = if block.len() > 0 {
        block[0].len()
    } else {
        0
    };
    let ghost want = shaped(planes_of(block@), target as nat, silence);
    let mut out: Vec<Vec<T>> = Vec::with_capacity(target);
    let mut c: usize = 0;
    while c < target
        invariant
            c <= target,
            frames == block_frames(planes_of(block@)),
            want == shaped(planes_of(block@), target as nat, silence),
            out@.len() == c,
            forall|j: int| 0 <= j < c ==> #[trigger] out@[j]@ == want[j],
        decreases target - c,
    {
        if c < block.len() {
            out.push(copy_plane(&block[c]));
        } else {
            let mut plane: Vec<T> = Vec::with_capacity(frames);
            let mut k: usize = 0;
            while k < frames
                invariant
                    k <= frames,
                    plane@ == Seq::new(k as nat, |i: int| silence),
                decreases frames - k,
            {
                plane.push(silence);
                k = k + 1;
                assert(plane@ =~= Seq::new(k as nat, |i: int| silence));
            }
            assert(plane@ =~= want[c as int]);
            out.push(plane);
        }
        c = c + 1;
    }
    assert(planes_of(out@) =~= want);
    out
}

/// A mono source meets a stereo target as two identical channels: a mono
/// block, upmixed as the live source does and shaped to two channels as the
/// encoder worker does, has exactly two channels, each equal to the source.
pub proof fn lemma_mono_reaches_stereo_as_identical_channels<T>(mono: Seq<T>, silence: T)
    ensures
        shaped(upmixed(deinterleaved(mono, 1)), 2, silence).len() == 2,
        shaped(upmixed(deinterleaved(mono, 1)), 2, silence)[0] == mono,
        shaped(upmixed(deinterleaved(mono, 1)), 2, silence)[1] == mono,
{
    let n = mono.len();
    assert(n / 1 == n);
    assert(n % 1 == 0);
    let planes = deinterleaved(mono, 1);
    assert(planes[0] =~= mono);
    let up = upmixed(planes);
    assert(up.len() == 2);
    assert(shaped(up, 2, silence)[0] == up[0]);
    assert(shaped(up, 2, silence)[1] == up[1]);
}

} // verus!
