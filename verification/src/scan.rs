use vstd::prelude::*;

use crate::gain::{mag, MAX_MAGNITUDE};
use crate::merge::CHUNK_FRAMES;
use crate::pairing::Recording;

verus! {

/// The peak of a stream: the largest magnitude among its samples, over every
/// channel, and zero for an empty stream.
pub open spec fn peak_spec(s: Seq<i32>) -> int
    decreases s.len(),
{
    if s.len() == 0 {
        0
    } else {
        let rest = peak_spec(s.drop_last());
        let m = mag(s.last());
        if m > rest {
            m
        } else {
            rest
        }
    }
}

/// The peak is a magnitude some 32-bit sample can have.
pub proof fn lemma_peak_in_range(s: Seq<i32>)
    ensures
        0 <= peak_spec(s) <= MAX_MAGNITUDE,
    decreases s.len(),
{
    if s.len() > 0 {
        lemma_peak_in_range(s.drop_last());
    }
}

/// No sample of a stream is louder than the stream's peak.
pub proof fn lemma_peak_is_bound(s: Seq<i32>, i: int)
    requires
        0 <= i < s.len(),
    ensures
        mag(s[i]) <= peak_spec(s),
    decreases s.len(),
{
    if i < s.len() - 1 {
        lemma_peak_is_bound(s.drop_last(), i);
    }
}

/// A non-empty stream has a sample exactly at its peak.
pub proof fn lemma_peak_is_reached(s: Seq<i32>)
    requires
        s.len() > 0,
    ensures
        exists|i: int| 0 <= i < s.len() && #[trigger] mag(s[i]) == peak_spec(s),
    decreases s.len(),
{
    if s.len() == 1 {
        assert(s.drop_last().len() == 0);
        assert(peak_spec(s.drop_last()) == 0);
        assert(s.last() == s[0]);
        assert(mag(s[0]) == peak_spec(s));
    } else if mag(s.last()) > peak_spec(s.drop_last()) {
        assert(mag(s[s.len() - 1]) == peak_spec(s));
    } else {
        lemma_peak_is_reached(s.drop_last());
        let i = choose|i: int|
            0 <= i < s.drop_last().len() && #[trigger] mag(s.drop_last()[i]) == peak_spec(
                s.drop_last(),
            );
        assert(mag(s[i]) == peak_spec(s));
    }
}

/// A bound on every sample's magnitude bounds the peak.
pub proof fn lemma_peak_le_bound(s: Seq<i32>, b: int)
    requires
        forall|i: int| 0 <= i < s.len() ==> #[trigger] mag(s[i]) <= b,
        b >= 0,
    ensures
        peak_spec(s) <= b,
    decreases s.len(),
{
    if s.len() > 0 {
        assert(forall|i: int|
            0 <= i < s.drop_last().len() ==> #[trigger] mag(s.drop_last()[i]) <= b);
        lemma_peak_le_bound(s.drop_last(), b);
        assert(mag(s.last()) == mag(s[s.len() - 1]));
    }
}

/// The peak of a concatenation is the larger of the two peaks.
pub proof fn lemma_peak_concat(a: Seq<i32>, b: Seq<i32>)
    ensures
        peak_spec(a + b) == if peak_spec(a) >= peak_spec(b) {
            peak_spec(a)
        } else {
            peak_spec(b)
        },
    decreases b.len(),
{
    if b.len() == 0 {
        assert(a + b =~= a);
    } else {
        lemma_peak_concat(a, b.drop_last());
        assert((a + b).drop_last() =~= a + b.drop_last());
        assert((a + b).last() == b.last());
    }
}

/// Fold one stretch of a buffer into a running peak: the result is the
/// larger of the accumulator and the peak of `buf[from..to]`.
pub fn peak_update(acc: u32, buf: &Vec<i32>, from: usize, to: usize) -> (r: u32)
    requires
        from <= to <= buf.len(),
        acc <= MAX_MAGNITUDE,
    ensures
        r == if acc >= peak_spec(buf@.subrange(from as int, to as int)) {
            acc as int
        } else {
            peak_spec(buf@.subrange(from as int, to as int))
        },
        r <= MAX_MAGNITUDE,
{
    let mut r = acc;
    let mut i = from;
    proof {
        assert(buf@.subrange(from as int, from as int) =~= Seq::<i32>::empty());
    }
    while i < to
        invariant
            from <= i <= to <= buf.len(),
            acc <= MAX_MAGNITUDE,
            r == if acc >= peak_spec(buf@.subrange(from as int, i as int)) {
                acc as int
            } else {
                peak_spec(buf@.subrange(from as int, i as int))
            },
            r <= MAX_MAGNITUDE,
        decreases to - i,
    {
        let s = buf[i];
        let m: u32 = if s >= 0 {
            s as u32
        } else {
            ((-(s as i64)) as u64) as u32
        };
        assert(m == mag(s));
        proof {
            let pre = buf@.subrange(from as int, i as int);
            let post = buf@.subrange(from as int, i as int + 1);
            assert(post.drop_last() =~= pre);
            assert(post.last() == buf@[i as int]);
            lemma_peak_in_range(pre);
        }
        if m > r {
            r = m;
        }
        i = i + 1;
    }
    r
}

impl Recording {
    /// The peak scan over a whole stream held in memory, walked in chunks of
    /// `CHUNK_FRAMES` stereo frames just as a streaming reader would hand
    /// them over. Returns exactly the stream's peak.
    pub fn maxval(samples: &Vec<i32>) -> (r: u32)
        ensures
            r == peak_spec(samples@),
            r <= MAX_MAGNITUDE,
    {
        let mut r: u32 = 0;
        let mut pos: usize = 0;
        let step: usize = CHUNK_FRAMES * 2;
        proof {
            assert(samples@.subrange(0, 0) =~= Seq::<i32>::empty());
        }
        while pos < samples.len()
            invariant
                pos <= samples.len(),
                step == CHUNK_FRAMES * 2,
                r == peak_spec(samples@.subrange(0, pos as int)),
                r <= MAX_MAGNITUDE,
            decreases samples.len() - pos,
        {
            let next = if samples.len() - pos < step {
                samples.len()
            } else {
                pos + step
            };
            proof {
                lemma_peak_in_range(samples@.subrange(0, pos as int));
            }
            let r2 = peak_update(r, samples, pos, next);
            proof {
                let a = samples@.subrange(0, pos as int);
                let b = samples@.subrange(pos as int, next as int);
                lemma_peak_concat(a, b);
                assert(a + b =~= samples@.subrange(0, next as int));
            }
            r = r2;
            pos = next;
        }
        proof {
            assert(samples@.subrange(0, samples@.len() as int) =~= samples@);
        }
        r
    }
}

} // verus!
