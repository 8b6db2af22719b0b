use vstd::prelude::*;

use crate::error::ConvertError;
use crate::route::OutputFormat;

verus! {

/// The channel-pair token of the X-Y member, `"XY.WAV"`.
pub open spec fn tok_xy() -> Seq<u8> {
    seq![88u8, 89u8, 46u8, 87u8, 65u8, 86u8]
}

/// The channel-pair token of the mid-side member, `"MS.WAV"`.
pub open spec fn tok_ms() -> Seq<u8> {
    seq![77u8, 83u8, 46u8, 87u8, 65u8, 86u8]
}

/// The output name's extension for a format: `".flac"` for the lossless
/// container, `".ogg"` for the lossy one.
pub open spec fn out_ext(format: OutputFormat) -> Seq<u8> {
    match format {
        OutputFormat::Flac => seq![46u8, 102u8, 108u8, 97u8, 99u8],
        OutputFormat::Ogg => seq![46u8, 111u8, 103u8, 103u8],
    }
}

/// Replacement of every leftmost, non-overlapping occurrence of `pat` in `s`
/// by `rep`, scanning left to right.
pub open spec fn replace_all(s: Seq<u8>, pat: Seq<u8>, rep: Seq<u8>) -> Seq<u8>
    decreases s.len(),
{
    if pat.len() == 0 || s.len() < pat.len() {
        s
    } else if s.take(pat.len() as int) == pat {
        rep + replace_all(s.skip(pat.len() as int), pat, rep)
    } else {
        seq![s[0]] + replace_all(s.skip(1), pat, rep)
    }
}

/// The mid-side member's name derived from either member's name.
pub open spec fn ms_name_of(s: Seq<u8>) -> Seq<u8> {
    replace_all(s, tok_xy(), tok_ms())
}

/// The X-Y member's name derived from either member's name.
pub open spec fn xy_name_of(s: Seq<u8>) -> Seq<u8> {
    replace_all(s, tok_ms(), tok_xy())
}

/// The output name: always derived from the mid-side variant of the name,
/// whichever member the derivation started from, with the token replaced by
/// the format's extension.
pub open spec fn out_name_of(s: Seq<u8>, format: OutputFormat) -> Seq<u8> {
    replace_all(ms_name_of(s), tok_ms(), out_ext(format))
}

/// A name holds a channel-pair token exactly when its two derived sibling
/// names differ.
pub open spec fn has_pair_token(s: Seq<u8>) -> bool {
    ms_name_of(s) != xy_name_of(s)
}

/// Whether `pat` occurs in `s` starting at position `i`.
fn match_at(s: &Vec<u8>, pat: &Vec<u8>, i: usize) -> (r: bool)
    requires
        i + pat@.len() <= s@.len(),
    ensures
        r <==> s@.subrange(i as int, i + pat@.len()) == pat@,
{
    let n: usize = s.len();
    let p: usize = pat.len();
    let mut j: usize = 0;
    while j < p
        invariant
            j <= p,
            n == s@.len(),
            p == pat@.len(),
            i + p <= n,
            forall|j2: int| 0 <= j2 < j ==> s@[i + j2] == pat@[j2],
        decreases p - j,
    {
        if s[i + j] != pat[j] {
            proof {
                assert(s@.subrange(i as int, i + pat@.len())[j as int] != pat@[j as int]);
            }
            return false;
        }
        j = j + 1;
    }
    proof {
        assert(s@.subrange(i as int, i + pat@.len()) =~= pat@);
    }
    true
}

/// Replace every leftmost occurrence of `pat` in `s` by `rep`, exactly as
/// `replace_all` describes.
pub fn replace_bytes(s: &Vec<u8>, pat: &Vec<u8>, rep: &Vec<u8>) -> (r: Vec<u8>)
    requires
        pat@.len() > 0,
    ensures
        r@ == replace_all(s@, pat@, rep@),
{
    let mut out: Vec<u8> = Vec::new();
    let mut i: usize = 0;
    proof {
        assert(s@.skip(0) =~= s@);
        assert(Seq::<u8>::empty() + replace_all(s@, pat@, rep@) =~= replace_all(s@, pat@, rep@));
    }
    while i < s.len()
        invariant
            i <= s@.len(),
            pat@.len() > 0,
            out@ + replace_all(s@.skip(i as int), pat@, rep@) == replace_all(s@, pat@, rep@),
        decreases s@.len() - i,
    {
        let ghost pre = out@;
        let ghost tail = s@.skip(i as int);
        if pat.len() <= s.len() - i && match_at(s, pat, i) {
            let mut j: usize = 0;
            while j < rep.len()
                invariant
                    j <= rep@.len(),
                    out@ == pre + rep@.take(j as int),
                decreases rep@.len() - j,
            {
                proof {
                    assert(rep@.take(j as int).push(rep@[j as int]) =~= rep@.take(j + 1));
                }
                out.push(rep[j]);
                j = j + 1;
            }
            proof {
                assert(rep@.take(rep@.len() as int) =~= rep@);
                assert(tail.take(pat@.len() as int) =~= s@.subrange(i as int, i + pat@.len()));
                assert(tail.skip(pat@.len() as int) =~= s@.skip(i + pat@.len()));
                assert(replace_all(tail, pat@, rep@) == rep@ + replace_all(
                    s@.skip(i + pat@.len()),
                    pat@,
                    rep@,
                ));
                assert((pre + rep@) + replace_all(s@.skip(i + pat@.len()), pat@, rep@) =~= pre + (
                rep@ + replace_all(s@.skip(i + pat@.len()), pat@, rep@)));
            }
            i = i + pat.len();
        } else {
            out.push(s[i]);
            proof {
                assert(tail[0] == s@[i as int]);
                if tail.len() < pat@.len() {
                    assert(replace_all(tail, pat@, rep@) == tail);
                    assert(s@.skip(i + 1) =~= tail.skip(1));
                    assert(replace_all(tail.skip(1), pat@, rep@) == tail.skip(1));
                    assert(pre.push(s@[i as int]) + tail.skip(1) =~= pre + tail);
                } else {
                    assert(tail.take(pat@.len() as int) =~= s@.subrange(i as int, i + pat@.len()));
                    assert(tail.take(pat@.len() as int) != pat@);
                    assert(replace_all(tail, pat@, rep@) == seq![tail[0]] + replace_all(
                        tail.skip(1),
                        pat@,
                        rep@,
                    ));
                    assert(s@.skip(i + 1) =~= tail.skip(1));
                    assert(pre.push(s@[i as int]) + replace_all(tail.skip(1), pat@, rep@) =~= pre + (
                    seq![tail[0]] + replace_all(tail.skip(1), pat@, rep@)));
                }
            }
            i = i + 1;
        }
    }
    proof {
        assert(s@.skip(s@.len() as int) =~= Seq::<u8>::empty());
        assert(replace_all(Seq::<u8>::empty(), pat@, rep@) == Seq::<u8>::empty());
        assert(out@ + Seq::<u8>::empty() =~= out@);
    }
    out
}

/// The X-Y token as a byte vector.
pub fn tok_xy_vec() -> (r: Vec<u8>)
    ensures
        r@ == tok_xy(),
{
    let mut r: Vec<u8> = Vec::new();
    r.push(88u8);
    r.push(89u8);
    r.push(46u8);
    r.push(87u8);
    r.push(65u8);
    r.push(86u8);
    proof {
        assert(r@ =~= tok_xy());
    }
    r
}

/// The mid-side token as a byte vector.
pub fn tok_ms_vec() -> (r: Vec<u8>)
    ensures
        r@ == tok_ms(),
{
    let mut r: Vec<u8> = Vec::new();
    r.push(77u8);
    r.push(83u8);
    r.push(46u8);
    r.push(87u8);
    r.push(65u8);
    r.push(86u8);
    proof {
        assert(r@ =~= tok_ms());
    }
    r
}

/// The output extension of a format as a byte vector.
pub fn out_ext_vec(format: &OutputFormat) -> (r: Vec<u8>)
    ensures
        r@ == out_ext(*format),
{
    let mut r: Vec<u8> = Vec::new();
    r.push(46u8);
    match format {
        OutputFormat::Flac => {
            r.push(102u8);
            r.push(108u8);
            r.push(97u8);
            r.push(99u8);
            proof {
                assert(r@ =~= out_ext(*format));
            }
        },
        OutputFormat::Ogg => {
            r.push(111u8);
            r.push(103u8);
            r.push(103u8);
            proof {
                assert(r@ =~= out_ext(*format));
            }
        },
    }
    r
}

/// Byte-wise equality of two vectors.
pub fn bytes_eq(a: &Vec<u8>, b: &Vec<u8>) -> (r: bool)
    ensures
        r <==> a@ == b@,
{
    if a.len() != b.len() {
        return false;
    }
    let mut i: usize = 0;
    while i < a.len()
        invariant
            i <= a@.len(),
            a@.len() == b@.len(),
            forall|j: int| 0 <= j < i ==> a@[j] == b@[j],
        decreases a@.len() - i,
    {
        if a[i] != b[i] {
            return false;
        }
        i = i + 1;
    }
    proof {
        assert(a@ =~= b@);
    }
    true
}

/// One recording unit: the two sibling names derived from one input name,
/// the output name, and which of the pair actually exists on disk. At least
/// one member exists, and the siblings' names differ.
pub struct Recording {
    pub name_xy: Vec<u8>,
    pub name_ms: Vec<u8>,
    pub outfilename: Vec<u8>,
    pub xy_exists: bool,
    pub ms_exists: bool,
}

impl Recording {
    /// The invariant every constructed recording carries.
    pub open spec fn wf(self) -> bool {
        &&& (self.xy_exists || self.ms_exists)
        &&& self.name_xy@ != self.name_ms@
    }

    /// The X-Y member's filename.
    pub fn name_xy(&self) -> (r: &Vec<u8>)
        ensures
            r@ == self.name_xy@,
    {
        &self.name_xy
    }

    /// The mid-side member's filename.
    pub fn name_ms(&self) -> (r: &Vec<u8>)
        ensures
            r@ == self.name_ms@,
    {
        &self.name_ms
    }

    /// The output filename.
    pub fn outfilename(&self) -> (r: &Vec<u8>)
        ensures
            r@ == self.outfilename@,
    {
        &self.outfilename
    }

    /// Whether the X-Y member exists on disk.
    pub fn xy_exists(&self) -> (r: &bool)
        ensures
            r == self.xy_exists,
    {
        &self.xy_exists
    }

    /// Whether the mid-side member exists on disk.
    pub fn ms_exists(&self) -> (r: &bool)
        ensures
            r == self.ms_exists,
    {
        &self.ms_exists
    }

    /// Resolve one recording from an input name and the caller's two
    /// existence probes (one per derived sibling name, in the order
    /// `derive_pair_names` hands them out). Fails with `NoPairToken` when
    /// the name holds neither channel-pair token, and with
    /// `NoRecordingFound` when neither probed member exists.
    pub fn new(
        name: &Vec<u8>,
        xy_present: bool,
        ms_present: bool,
        format: &OutputFormat,
    ) -> (r: Result<Recording, ConvertError>)
        ensures
            !has_pair_token(name@) ==> r == Err::<Recording, ConvertError>(
                ConvertError::NoPairToken,
            ),
            has_pair_token(name@) && !xy_present && !ms_present ==> r == Err::<
                Recording,
                ConvertError,
            >(ConvertError::NoRecordingFound),
            has_pair_token(name@) && (xy_present || ms_present) ==> r is Ok && {
                let rec = r->Ok_0;
                &&& rec.wf()
                &&& rec.name_xy@ == xy_name_of(name@)
                &&& rec.name_ms@ == ms_name_of(name@)
                &&& rec.outfilename@ == out_name_of(name@, *format)
                &&& rec.xy_exists == xy_present
                &&& rec.ms_exists == ms_present
            },
    {
        let xy_tok = tok_xy_vec();
        let ms_tok = tok_ms_vec();
        let filename_ms = replace_bytes(name, &xy_tok, &ms_tok);
        let filename_xy = replace_bytes(name, &ms_tok, &xy_tok);
        if bytes_eq(&filename_ms, &filename_xy) {
            return Err(ConvertError::NoPairToken);
        }
        if !xy_present && !ms_present {
            return Err(ConvertError::NoRecordingFound);
        }
        let ext = out_ext_vec(format);
        let outfile = replace_bytes(&filename_ms, &ms_tok, &ext);
        Ok(
            Recording {
                name_xy: filename_xy,
                name_ms: filename_ms,
                outfilename: outfile,
                xy_exists: xy_present,
                ms_exists: ms_present,
            },
        )
    }
}

/// The two sibling names derived from one input name, for the caller to
/// probe on disk before constructing a `Recording`. Fails with
/// `NoPairToken` exactly when the name holds neither token.
pub fn derive_pair_names(name: &Vec<u8>) -> (r: Result<(Vec<u8>, Vec<u8>), ConvertError>)
    ensures
        !has_pair_token(name@) ==> r == Err::<(Vec<u8>, Vec<u8>), ConvertError>(
            ConvertError::NoPairToken,
        ),
        has_pair_token(name@) ==> r is Ok && r->Ok_0.0@ == xy_name_of(name@) && r->Ok_0.1@
            == ms_name_of(name@),
{
    let xy_tok = tok_xy_vec();
    let ms_tok = tok_ms_vec();
    let filename_ms = replace_bytes(name, &xy_tok, &ms_tok);
    let filename_xy = replace_bytes(name, &ms_tok, &xy_tok);
    if bytes_eq(&filename_ms, &filename_xy) {
        return Err(ConvertError::NoPairToken);
    }
    Ok((filename_xy, filename_ms))
}

/// Whether `s` begins with the byte sequence `t`.
pub open spec fn starts_with(s: Seq<u8>, t: Seq<u8>) -> bool {
    s.len() >= t.len() && s.take(t.len() as int) == t
}

/// Whether `s` begins with either channel-pair token.
pub open spec fn starts_with_token(s: Seq<u8>) -> bool {
    starts_with(s, tok_xy()) || starts_with(s, tok_ms())
}

/// The canonical substitution both sibling derivations perform: scanning
/// left to right, every occurrence of either channel-pair token becomes the
/// chosen one. Deriving the MS name is `canon(s, true)`, the XY name
/// `canon(s, false)`; `lemma_replace_eq_canon` ties this to `replace_all`.
pub open spec fn canon(s: Seq<u8>, to_ms: bool) -> Seq<u8>
    decreases s.len(),
{
    if s.len() < 6 {
        s
    } else if starts_with_token(s) {
        (if to_ms {
            tok_ms()
        } else {
            tok_xy()
        }) + canon(s.skip(6), to_ms)
    } else {
        seq![s[0]] + canon(s.skip(1), to_ms)
    }
}

/// The tokens' lengths and bytes, spelled out for the proofs below.
proof fn lemma_token_bytes()
    ensures
        tok_xy().len() == 6,
        tok_ms().len() == 6,
        tok_xy()[0] == 88u8,
        tok_xy()[1] == 89u8,
        tok_xy()[2] == 46u8,
        tok_xy()[3] == 87u8,
        tok_xy()[4] == 65u8,
        tok_xy()[5] == 86u8,
        tok_ms()[0] == 77u8,
        tok_ms()[1] == 83u8,
        tok_ms()[2] == 46u8,
        tok_ms()[3] == 87u8,
        tok_ms()[4] == 65u8,
        tok_ms()[5] == 86u8,
{
}

/// The canonical substitution keeps the length: both tokens are six bytes.
proof fn lemma_canon_len(s: Seq<u8>, to_ms: bool)
    ensures
        canon(s, to_ms).len() == s.len(),
    decreases s.len(),
{
    lemma_token_bytes();
    if s.len() < 6 {
    } else if starts_with_token(s) {
        lemma_canon_len(s.skip(6), to_ms);
    } else {
        lemma_canon_len(s.skip(1), to_ms);
    }
}

/// A stretch of bytes none of which can begin the pattern is copied through
/// `replace_all` unchanged.
proof fn lemma_replace_copies_prefix(u: Seq<u8>, t: Seq<u8>, pat: Seq<u8>, rep: Seq<u8>)
    requires
        pat.len() > 0,
        forall|k: int| 0 <= k < u.len() ==> #[trigger] u[k] != pat[0],
    ensures
        replace_all(u + t, pat, rep) == u + replace_all(t, pat, rep),
    decreases u.len(),
{
    let s = u + t;
    if u.len() == 0 {
        assert(s =~= t);
        assert(u + replace_all(t, pat, rep) =~= replace_all(t, pat, rep));
    } else if s.len() < pat.len() {
        assert(t.len() < pat.len());
        assert(replace_all(s, pat, rep) == s);
        assert(replace_all(t, pat, rep) == t);
    } else {
        assert(s[0] == u[0]);
        if s.take(pat.len() as int) == pat {
            assert(s.take(pat.len() as int)[0] == pat[0]);
            assert(false);
        }
        assert(replace_all(s, pat, rep) == seq![s[0]] + replace_all(s.skip(1), pat, rep));
        assert(s.skip(1) =~= u.skip(1) + t);
        assert forall|k: int| 0 <= k < u.skip(1).len() implies #[trigger] u.skip(1)[k]
            != pat[0] by {
            assert(u.skip(1)[k] == u[k + 1]);
        }
        lemma_replace_copies_prefix(u.skip(1), t, pat, rep);
        assert(seq![u[0]] + (u.skip(1) + replace_all(t, pat, rep)) =~= u + replace_all(
            t,
            pat,
            rep,
        ));
    }
}

/// At a pattern occurrence, `replace_all` emits the replacement and goes on
/// after the occurrence.
proof fn lemma_replace_at_token(s: Seq<u8>, pat: Seq<u8>, rep: Seq<u8>)
    requires
        pat.len() > 0,
        starts_with(s, pat),
    ensures
        replace_all(s, pat, rep) == rep + replace_all(s.skip(pat.len() as int), pat, rep),
{
}

/// Each sibling derivation is the canonical substitution: replacing one
/// token by the other maps every occurrence of either token to the target,
/// because the non-pattern token is already the target and no byte of it can
/// begin the pattern.
proof fn lemma_replace_eq_canon(s: Seq<u8>, to_ms: bool)
    ensures
        to_ms ==> replace_all(s, tok_xy(), tok_ms()) == canon(s, true),
        !to_ms ==> replace_all(s, tok_ms(), tok_xy()) == canon(s, false),
    decreases s.len(),
{
    lemma_token_bytes();
    let pat = if to_ms {
        tok_xy()
    } else {
        tok_ms()
    };
    let rep = if to_ms {
        tok_ms()
    } else {
        tok_xy()
    };
    if s.len() < 6 {
        assert(replace_all(s, pat, rep) == s);
    } else if starts_with(s, pat) {
        lemma_replace_at_token(s, pat, rep);
        lemma_replace_eq_canon(s.skip(6), to_ms);
    } else if starts_with(s, rep) {
        assert(s =~= s.take(6) + s.skip(6));
        assert forall|k: int| 0 <= k < rep.len() implies #[trigger] rep[k] != pat[0] by {
            if k == 0 {
            } else if k == 1 {
            } else if k == 2 {
            } else if k == 3 {
            } else if k == 4 {
            } else {
                assert(k == 5);
            }
        }
        lemma_replace_copies_prefix(rep, s.skip(6), pat, rep);
        lemma_replace_eq_canon(s.skip(6), to_ms);
        assert(canon(s, to_ms) == rep + canon(s.skip(6), to_ms));
    } else {
        assert(!starts_with_token(s));
        assert(s.take(pat.len() as int) != pat);
        assert(replace_all(s, pat, rep) == seq![s[0]] + replace_all(s.skip(1), pat, rep));
        lemma_replace_eq_canon(s.skip(1), to_ms);
    }
}

/// The first byte of a canonical substitution: a token at the front becomes
/// the target token's first byte; anything else is copied through, and the
/// rest of the result is the substitution of the rest.
proof fn lemma_canon_first(t: Seq<u8>, to_ms: bool)
    requires
        t.len() >= 1,
    ensures
        canon(t, to_ms).len() == t.len(),
        starts_with_token(t) ==> (canon(t, to_ms)[0] == 77u8 || canon(t, to_ms)[0] == 88u8),
        !starts_with_token(t) ==> canon(t, to_ms)[0] == t[0] && canon(t, to_ms).skip(1) == canon(
            t.skip(1),
            to_ms,
        ),
{
    lemma_token_bytes();
    lemma_canon_len(t, to_ms);
    if t.len() < 6 {
        assert(!starts_with_token(t));
        assert(canon(t, to_ms) == t);
        assert(canon(t.skip(1), to_ms) == t.skip(1));
    } else if starts_with_token(t) {
        let target = if to_ms {
            tok_ms()
        } else {
            tok_xy()
        };
        assert(canon(t, to_ms) == target + canon(t.skip(6), to_ms));
        assert(canon(t, to_ms)[0] == target[0]);
    } else {
        assert(canon(t, to_ms) == seq![t[0]] + canon(t.skip(1), to_ms));
        assert((seq![t[0]] + canon(t.skip(1), to_ms)).skip(1) =~= canon(t.skip(1), to_ms));
    }
}

/// A token's later bytes never look like a token's first byte.
proof fn lemma_no_token_byte_at(w: Seq<u8>, k: int)
    requires
        starts_with_token(w),
        1 <= k < 6,
    ensures
        w[k] != 77u8 && w[k] != 88u8,
{
    lemma_token_bytes();
    let t = if starts_with(w, tok_xy()) {
        tok_xy()
    } else {
        tok_ms()
    };
    assert(w.take(6) == t);
    assert(w[k] == w.take(6)[k]);
    if k == 1 {
    } else if k == 2 {
    } else if k == 3 {
    } else if k == 4 {
    } else {
        assert(k == 5);
    }
}

/// Copying a byte that begins no token, then substituting the rest, creates
/// no token at the front: a new token would need its first byte inside the
/// substituted rest to be a later byte of itself, which no token has.
proof fn lemma_canon_no_new_token(s: Seq<u8>, to_ms: bool)
    requires
        !starts_with_token(s),
        s.len() >= 1,
    ensures
        !starts_with_token(seq![s[0]] + canon(s.skip(1), to_ms)),
{
    lemma_token_bytes();
    let c1 = canon(s.skip(1), to_ms);
    let w = seq![s[0]] + c1;
    lemma_canon_len(s.skip(1), to_ms);
    assert(w.len() == s.len());
    if s.len() < 6 {
        assert(!starts_with_token(w));
    } else if starts_with_token(w) {
        let t1 = s.skip(1);
        lemma_canon_first(t1, to_ms);
        assert(w[1] == c1[0]);
        if starts_with_token(t1) {
            lemma_no_token_byte_at(w, 1);
        } else {
            assert(w[1] == s[1]);
            let t2 = s.skip(2);
            assert(t1.skip(1) =~= t2);
            let c2 = canon(t2, to_ms);
            assert(c1.skip(1) == c2);
            assert(w[2] == c1[1]);
            assert(c1[1] == c1.skip(1)[0]);
            lemma_canon_first(t2, to_ms);
            if starts_with_token(t2) {
                lemma_no_token_byte_at(w, 2);
            } else {
                assert(w[2] == s[2]);
                let t3 = s.skip(3);
                assert(t2.skip(1) =~= t3);
                let c3 = canon(t3, to_ms);
                assert(c2.skip(1) == c3);
                assert(w[3] == c1[2]);
                assert(c1[2] == c1.skip(1)[1]);
                assert(c2[1] == c2.skip(1)[0]);
                lemma_canon_first(t3, to_ms);
                if starts_with_token(t3) {
                    lemma_no_token_byte_at(w, 3);
                } else {
                    assert(w[3] == s[3]);
                    let t4 = s.skip(4);
                    assert(t3.skip(1) =~= t4);
                    let c4 = canon(t4, to_ms);
                    assert(c3.skip(1) == c4);
                    assert(w[4] == c1[3]);
                    assert(c1[3] == c1.skip(1)[2]);
                    assert(c2[2] == c2.skip(1)[1]);
                    assert(c3[1] == c3.skip(1)[0]);
                    lemma_canon_first(t4, to_ms);
                    if starts_with_token(t4) {
                        lemma_no_token_byte_at(w, 4);
                    } else {
                        assert(w[4] == s[4]);
                        let t5 = s.skip(5);
                        assert(t4.skip(1) =~= t5);
                        let c5 = canon(t5, to_ms);
                        assert(c4.skip(1) == c5);
                        assert(w[5] == c1[4]);
                        assert(c1[4] == c1.skip(1)[3]);
                        assert(c2[3] == c2.skip(1)[2]);
                        assert(c3[2] == c3.skip(1)[1]);
                        assert(c4[1] == c4.skip(1)[0]);
                        lemma_canon_first(t5, to_ms);
                        if starts_with_token(t5) {
                            lemma_no_token_byte_at(w, 5);
                        } else {
                            assert(w[5] == s[5]);
                            assert(w.take(6) =~= s.take(6));
                            assert(starts_with_token(s));
                        }
                    }
                }
            }
        }
    }
}

/// The canonical substitution is idempotent across directions: substituting
/// an already substituted name substitutes the original directly.
proof fn lemma_canon_idempotent(s: Seq<u8>, d1: bool, d2: bool)
    ensures
        canon(canon(s, d1), d2) == canon(s, d2),
    decreases s.len(),
{
    lemma_token_bytes();
    lemma_canon_len(s, d1);
    if s.len() < 6 {
        assert(canon(s, d1) == s);
    } else if starts_with_token(s) {
        let t1 = if d1 {
            tok_ms()
        } else {
            tok_xy()
        };
        let t2 = if d2 {
            tok_ms()
        } else {
            tok_xy()
        };
        let rest = canon(s.skip(6), d1);
        assert(canon(s, d1) == t1 + rest);
        lemma_canon_len(s.skip(6), d1);
        assert((t1 + rest).take(6) =~= t1);
        assert(starts_with_token(t1 + rest));
        assert((t1 + rest).skip(6) =~= rest);
        assert(canon(t1 + rest, d2) == t2 + canon(rest, d2));
        lemma_canon_idempotent(s.skip(6), d1, d2);
        assert(canon(s, d2) == t2 + canon(s.skip(6), d2));
    } else {
        let c = canon(s.skip(1), d1);
        let w = seq![s[0]] + c;
        assert(canon(s, d1) == w);
        lemma_canon_no_new_token(s, d1);
        assert(w.len() == s.len());
        assert(canon(w, d2) == seq![w[0]] + canon(w.skip(1), d2));
        assert(w[0] == s[0]);
        assert(w.skip(1) =~= c);
        lemma_canon_idempotent(s.skip(1), d1, d2);
        assert(canon(s, d2) == seq![s[0]] + canon(s.skip(1), d2));
    }
}

/// Resolving is idempotent across the pair: the sibling names, the presence
/// of a pair token, and the output name derived from either member of a
/// recording agree with those derived from the original input name. In
/// particular, resolving from the XY path and resolving from the MS path of
/// one recording yield identical derived names, so identical existence
/// probes and an identical output path.
pub proof fn lemma_resolution_agrees(s: Seq<u8>, format: OutputFormat)
    ensures
        ms_name_of(ms_name_of(s)) == ms_name_of(s),
        ms_name_of(xy_name_of(s)) == ms_name_of(s),
        xy_name_of(xy_name_of(s)) == xy_name_of(s),
        xy_name_of(ms_name_of(s)) == xy_name_of(s),
        has_pair_token(ms_name_of(s)) == has_pair_token(s),
        has_pair_token(xy_name_of(s)) == has_pair_token(s),
        out_name_of(ms_name_of(s), format) == out_name_of(s, format),
        out_name_of(xy_name_of(s), format) == out_name_of(s, format),
{
    lemma_replace_eq_canon(s, true);
    lemma_replace_eq_canon(s, false);
    lemma_replace_eq_canon(canon(s, true), true);
    lemma_replace_eq_canon(canon(s, true), false);
    lemma_replace_eq_canon(canon(s, false), true);
    lemma_replace_eq_canon(canon(s, false), false);
    lemma_canon_idempotent(s, true, true);
    lemma_canon_idempotent(s, true, false);
    lemma_canon_idempotent(s, false, true);
    lemma_canon_idempotent(s, false, false);
}

} // verus!
