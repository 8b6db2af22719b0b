use vstd::prelude::*;

use vstd::arithmetic::div_mod::{
    lemma_fundamental_div_mod, lemma_fundamental_div_mod_converse_div,
    lemma_fundamental_div_mod_converse_mod, lemma_mod_division_less_than_divisor,
};

use crate::gain::{scaled_sample, Gain};

verus! {

/// The fixed chunk capacity of all streaming I/O, in frames. A read that
/// yields fewer frames than this is the sole end-of-stream signal.
pub const CHUNK_FRAMES: usize = 8192;

/// The four-channel stream a synchronized pair of stereo streams merges
/// into, sample by interleaved sample: frame `k` of the output carries the
/// scaled MS frame `k` in its first two channels and the scaled XY frame `k`
/// in its last two. Both inputs are interleaved stereo of the same length.
pub open spec fn merged_spec(ms: Seq<i32>, xy: Seq<i32>, g: Gain) -> Seq<i32> {
    Seq::new(
        (ms.len() / 2) * 4,
        |j: int|
            {
                let k = j / 4;
                let c = j % 4;
                if c < 2 {
                    scaled_sample(g, ms[2 * k + c])
                } else {
                    scaled_sample(g, xy[2 * k + (c - 2)])
                }
            },
    )
}

/// The stream a single source copies through as: every sample scaled, order
/// and length kept.
pub open spec fn scaled_stream(s: Seq<i32>, g: Gain) -> Seq<i32> {
    Seq::new(s.len(), |j: int| scaled_sample(g, s[j]))
}

/// Frame `k` of a merged buffer carries the scaled MS frame `k` in its
/// first two channels and the scaled XY frame `k` in its last two.
pub open spec fn merged_frame_ok(r: Seq<i32>, ms: Seq<i32>, xy: Seq<i32>, g: Gain, k: int) -> bool {
    &&& r[4 * k] == scaled_sample(g, ms[2 * k])
    &&& r[4 * k + 1] == scaled_sample(g, ms[2 * k + 1])
    &&& r[4 * k + 2] == scaled_sample(g, xy[2 * k])
    &&& r[4 * k + 3] == scaled_sample(g, xy[2 * k + 1])
}

/// Merge one chunk: `frames` stereo frames from each input buffer become
/// `frames` four-channel frames, every sample scaled by the gain. The layout
/// per output frame is {MS left, MS right, XY left, XY right}.
pub fn merge_chunk(ms: &Vec<i32>, xy: &Vec<i32>, frames: usize, g: &Gain) -> (r: Vec<i32>)
    requires
        frames <= CHUNK_FRAMES,
        2 * frames <= ms.len(),
        2 * frames <= xy.len(),
        g.wf(),
    ensures
        r@.len() == 4 * frames,
        forall|k: int| 0 <= k < frames ==> #[trigger] merged_frame_ok(r@, ms@, xy@, *g, k),
        r@ == merged_spec(ms@.take(2 * frames as int), xy@.take(2 * frames as int), *g),
{
    let mut r: Vec<i32> = Vec::new();
    let mut k: usize = 0;
    while k < frames
        invariant
            k <= frames <= CHUNK_FRAMES,
            2 * frames <= ms.len(),
            2 * frames <= xy.len(),
            g.wf(),
            r@.len() == 4 * k,
            forall|k2: int| 0 <= k2 < k ==> #[trigger] merged_frame_ok(r@, ms@, xy@, *g, k2),
        decreases frames - k,
    {
        let ghost r0 = r@;
        r.push(crate::gain::apply_gain(g, ms[2 * k]));
        r.push(crate::gain::apply_gain(g, ms[2 * k + 1]));
        r.push(crate::gain::apply_gain(g, xy[2 * k]));
        r.push(crate::gain::apply_gain(g, xy[2 * k + 1]));
        proof {
            assert forall|k2: int| 0 <= k2 < k + 1 implies merged_frame_ok(
                r@,
                ms@,
                xy@,
                *g,
                k2,
            ) by {
                if k2 < k {
                    assert(merged_frame_ok(r0, ms@, xy@, *g, k2));
                    assert(4 * k2 + 3 < r0.len());
                } else {
                    assert(r@[4 * k2] == scaled_sample(*g, ms@[2 * k2]));
                    assert(r@[4 * k2 + 1] == scaled_sample(*g, ms@[2 * k2 + 1]));
                    assert(r@[4 * k2 + 2] == scaled_sample(*g, xy@[2 * k2]));
                    assert(r@[4 * k2 + 3] == scaled_sample(*g, xy@[2 * k2 + 1]));
                }
            }
        }
        k = k + 1;
    }
    proof {
        let m = merged_spec(ms@.take(2 * frames as int), xy@.take(2 * frames as int), *g);
        assert forall|j: int| 0 <= j < 4 * frames implies r@[j] == m[j] by {
            lemma_fundamental_div_mod(j, 4);
            lemma_mod_division_less_than_divisor(j, 4);
            let k2 = j / 4;
            let c = j % 4;
            assert(j == 4 * k2 + c);
            assert(0 <= k2 < frames) by (nonlinear_arith)
                requires
                    j == 4 * k2 + c,
                    0 <= c < 4,
                    0 <= j < 4 * frames,
            ;
            assert(merged_frame_ok(r@, ms@, xy@, *g, k2));
            assert(ms@.take(2 * frames as int)[2 * k2] == ms@[2 * k2]);
            assert(ms@.take(2 * frames as int)[2 * k2 + 1] == ms@[2 * k2 + 1]);
            assert(xy@.take(2 * frames as int)[2 * k2] == xy@[2 * k2]);
            assert(xy@.take(2 * frames as int)[2 * k2 + 1] == xy@[2 * k2 + 1]);
        }
        assert(r@ =~= m);
    }
    r
}

/// Scale one chunk: the first `count` samples of the buffer, each scaled by
/// the gain, order and count kept. This is the per-chunk step of the
/// single-stream passthrough.
pub fn scale_chunk(buf: &Vec<i32>, count: usize, g: &Gain) -> (r: Vec<i32>)
    requires
        count <= buf.len(),
        g.wf(),
    ensures
        r@.len() == count,
        forall|j: int| 0 <= j < count ==> r@[j] == scaled_sample(*g, buf@[j]),
        r@ == scaled_stream(buf@.take(count as int), *g),
{
    let mut r: Vec<i32> = Vec::new();
    let mut i: usize = 0;
    while i < count
        invariant
            i <= count <= buf.len(),
            g.wf(),
            r@.len() == i,
            forall|j: int| 0 <= j < i ==> r@[j] == scaled_sample(*g, buf@[j]),
        decreases count - i,
    {
        r.push(crate::gain::apply_gain(g, buf[i]));
        i = i + 1;
    }
    proof {
        assert(r@ =~= scaled_stream(buf@.take(count as int), *g));
    }
    r
}

/// One chunk's worth of samples out of an in-memory stream, exactly what a
/// sequential reader would hand over next.
pub fn read_chunk(src: &Vec<i32>, start: usize, count: usize) -> (r: Vec<i32>)
    requires
        start + count <= src.len(),
    ensures
        r@ == src@.subrange(start as int, start + count),
{
    let mut r: Vec<i32> = Vec::new();
    let mut i: usize = 0;
    while i < count
        invariant
            i <= count,
            start + count <= src.len(),
            r@.len() == i,
            forall|j: int| 0 <= j < i ==> r@[j] == src@[start + j],
        decreases count - i,
    {
        r.push(src[start + i]);
        i = i + 1;
    }
    proof {
        assert(r@ =~= src@.subrange(start as int, start + count));
    }
    r
}

/// Merge two equal-length in-memory stereo streams into the four-channel
/// stream, walking them in chunks of `CHUNK_FRAMES` frames exactly as the
/// streaming engine does. Chunking is transparent: the result is the same
/// merged stream whatever the chunk boundaries cut through.
pub fn merge_streams(ms: &Vec<i32>, xy: &Vec<i32>, g: &Gain) -> (r: Vec<i32>)
    requires
        ms@.len() == xy@.len(),
        ms@.len() % 2 == 0,
        g.wf(),
    ensures
        r@ == merged_spec(ms@, xy@, *g),
        r@.len() == 2 * ms@.len(),
{
    let ghost m = merged_spec(ms@, xy@, *g);
    let n_samples: usize = ms.len();
    let frames_total: usize = n_samples / 2;
    proof {
        lemma_fundamental_div_mod(n_samples as int, 2);
    }
    let mut out: Vec<i32> = Vec::new();
    let mut pos: usize = 0;
    while pos < frames_total
        invariant
            pos <= frames_total,
            n_samples == ms@.len(),
            frames_total == ms@.len() / 2,
            2 * frames_total == n_samples,
            ms@.len() == xy@.len(),
            g.wf(),
            m == merged_spec(ms@, xy@, *g),
            out@.len() == 4 * pos,
            forall|j: int| 0 <= j < out@.len() ==> out@[j] == m[j],
        decreases frames_total - pos,
    {
        let frames_now: usize = if frames_total - pos < CHUNK_FRAMES {
            frames_total - pos
        } else {
            CHUNK_FRAMES
        };
        let chunk_ms = read_chunk(ms, 2 * pos, 2 * frames_now);
        let chunk_xy = read_chunk(xy, 2 * pos, 2 * frames_now);
        let mut chunk_out = merge_chunk(&chunk_ms, &chunk_xy, frames_now, g);
        proof {
            assert forall|i: int| 0 <= i < 4 * frames_now implies chunk_out@[i] == m[4 * pos + i]
                by {
                lemma_fundamental_div_mod(i, 4);
                lemma_mod_division_less_than_divisor(i, 4);
                let k = i / 4;
                let c = i % 4;
                assert(0 <= k < frames_now) by (nonlinear_arith)
                    requires
                        i == 4 * k + c,
                        0 <= c < 4,
                        0 <= i < 4 * frames_now,
                ;
                lemma_fundamental_div_mod_converse_div(4 * pos + i, 4, pos + k, c);
                lemma_fundamental_div_mod_converse_mod(4 * pos + i, 4, pos + k, c);
                assert((4 * pos + i) / 4 == pos + k);
                assert((4 * pos + i) % 4 == c);
                assert(chunk_ms@[2 * k] == ms@[2 * pos + 2 * k]);
                assert(chunk_ms@[2 * k + 1] == ms@[2 * pos + 2 * k + 1]);
                assert(chunk_xy@[2 * k] == xy@[2 * pos + 2 * k]);
                assert(chunk_xy@[2 * k + 1] == xy@[2 * pos + 2 * k + 1]);
                assert(2 * (pos + k) == 2 * pos + 2 * k);
            }
        }
        out.append(&mut chunk_out);
        pos = pos + frames_now;
    }
    proof {
        assert(out@ =~= m);
    }
    out
}

/// Copy one in-memory stream through the passthrough path, scaled, walking
/// it in chunks of `CHUNK_FRAMES` stereo frames exactly as the streaming
/// engine does. Chunking is transparent: the result equals the whole stream
/// scaled in one piece, with its length kept.
pub fn copy_stream(src: &Vec<i32>, g: &Gain) -> (r: Vec<i32>)
    requires
        g.wf(),
    ensures
        r@ == scaled_stream(src@, *g),
        r@.len() == src@.len(),
{
    let ghost m = scaled_stream(src@, *g);
    let mut out: Vec<i32> = Vec::new();
    let mut pos: usize = 0;
    let step: usize = CHUNK_FRAMES * 2;
    while pos < src.len()
        invariant
            pos <= src@.len(),
            step == CHUNK_FRAMES * 2,
            g.wf(),
            m == scaled_stream(src@, *g),
            out@.len() == pos,
            forall|j: int| 0 <= j < out@.len() ==> out@[j] == m[j],
        decreases src@.len() - pos,
    {
        let count: usize = if src.len() - pos < step {
            src.len() - pos
        } else {
            step
        };
        let chunk = read_chunk(src, pos, count);
        let mut chunk_out = scale_chunk(&chunk, count, g);
        proof {
            assert forall|i: int| 0 <= i < count implies chunk_out@[i] == m[pos + i] by {
                assert(chunk@[i] == src@[pos + i]);
            }
        }
        out.append(&mut chunk_out);
        pos = pos + count;
    }
    proof {
        assert(out@ =~= m);
    }
    out
}

} // verus!
