use vstd::prelude::*;

verus! {

/// The normalized level of the loudest bucket.
pub const LEVEL_FULL: u32 = 10000;

/// Absolute value of a sample.
pub open spec fn magnitude(x: i16) -> nat {
    if x < 0 { (-x) as nat } else { x as nat }
}

/// The bucket that sample `i` of `n` falls into when `n >= w` samples are
/// spread over `w` buckets: contiguous spans whose lengths differ by at most one.
pub open spec fn bucket_of(i: int, n: int, w: int) -> int {
    i * w / n
}

/// The sample that bucket `j` of `w` shows when there are fewer samples than buckets.
pub open spec fn source_of(j: int, n: int, w: int) -> int {
    j * n / w
}

/// Peak magnitude of the first `k` samples that fall into bucket `j`.
pub open spec fn peak_in(s: Seq<i16>, w: nat, j: int, k: int) -> nat
    decreases k,
{
    if k <= 0 {
        0
    } else {
        let rest = peak_in(s, w, j, k - 1);
        let here = if bucket_of(k - 1, s.len() as int, w as int) == j {
            magnitude(s[k - 1])
        } else {
            0
        };
        if here > rest { here } else { rest }
    }
}

/// The raw level of bucket `j`: the peak magnitude of its span, or, for a
/// track shorter than the bucket count, the magnitude of the sample it stretches.
pub open spec fn level(s: Seq<i16>, w: nat, j: int) -> nat {
    if s.len() == 0 {
        0
    } else if s.len() >= w {
        peak_in(s, w, j, s.len() as int)
    } else {
        magnitude(s[source_of(j, s.len() as int, w as int)])
    }
}

/// The largest of the first `k` raw levels.
pub open spec fn max_level(s: Seq<i16>, w: nat, k: int) -> nat
    decreases k,
{
    if k <= 0 {
        0
    } else {
        let rest = max_level(s, w, k - 1);
        let here = level(s, w, k - 1);
        if here > rest { here } else { rest }
    }
}

/// Bucket `j` normalized so the loudest bucket maps to `LEVEL_FULL`; all
/// zero for a silent track.
pub open spec fn normalized(s: Seq<i16>, w: nat, j: int) -> nat {
    let m = max_level(s, w, w as int);
    if m == 0 {
        0
    } else {
        level(s, w, j) * (LEVEL_FULL as nat) / m
    }
}

/// The whole-track envelope: a fixed number of normalized amplitude buckets,
/// each in `0..=LEVEL_FULL`, and whether the two-sided view is asked for.
#[derive(Clone, Debug)]
pub struct WaveformData {
    pub samples: Vec<u32>,
    pub enhanced: bool,
}

fn bucket_index(i: usize, n: usize, w: usize) -> (r: usize)
    requires
        i < n,
        w <= n,
    ensures
        r == bucket_of(i as int, n as int, w as int),
        r < w || w == 0,
{
    proof {
        assert((i as int) * (w as int) <= 0xffff_ffff_ffff_ffffint * 0xffff_ffff_ffff_ffffint)
            by (nonlinear_arith)
            requires
                0 <= i <= 0xffff_ffff_ffff_ffffint,
                0 <= w <= 0xffff_ffff_ffff_ffffint,
        ;
    }
    let p: u128 = (i as u128) * (w as u128);
    let q: u128 = p / (n as u128);
    proof {
        assert(p as int == (i as int) * (w as int));
        assert((i as int) * (w as int) / (n as int) <= (i as int)) by (nonlinear_arith)
            requires
                w <= n,
                0 <= i < n,
        ;
        if w > 0 {
            assert((i as int) * (w as int) / (n as int) < (w as int)) by (nonlinear_arith)
                requires
                    0 < w <= n,
                    0 <= i < n,
            ;
        }
    }
    q as usize
}

fn source_index(j: usize, n: usize, w: usize) -> (r: usize)
    requires
        j < w,
        n < w,
    ensures
        r == source_of(j as int, n as int, w as int),
        r < n || n == 0,
{
    proof {
        assert((j as int) * (n as int) <= 0xffff_ffff_ffff_ffffint * 0xffff_ffff_ffff_ffffint)
            by (nonlinear_arith)
            requires
                0 <= j <= 0xffff_ffff_ffff_ffffint,
                0 <= n <= 0xffff_ffff_ffff_ffffint,
        ;
    }
    let p: u128 = (j as u128) * (n as u128);
    let q: u128 = p / (w as u128);
    proof {
        assert(p as int == (j as int) * (n as int));
        assert((j as int) * (n as int) / (w as int) <= (j as int)) by (nonlinear_arith)
            requires
                n < w,
                0 <= j < w,
        ;
        if n > 0 {
            assert((j as int) * (n as int) / (w as int) < (n as int)) by (nonlinear_arith)
                requires
                    0 < n < w,
                    0 <= j < w,
            ;
        }
    }
    q as usize
}

fn magnitude_of(x: i16) -> (r: u32)
    ensures
        r == magnitude(x),
        r <= 32768,
{
    if x < 0 {
        (-(x as i32)) as u32
    } else {
        x as u32
    }
}

/// Raw level of every bucket, in one pass over the samples.
fn raw_levels(s: &[i16], w: usize) -> (r: Vec<u32>)
    ensures
        r@.len() == w,
        forall|j: int| 0 <= j < w ==> #[trigger] r@[j] == level(s@, w as nat, j),
        forall|j: int| 0 <= j < w ==> #[trigger] r@[j] <= 32768,
{
    let n = s.len();
    let mut levels: Vec<u32> = Vec::with_capacity(w);
    let mut j: usize = 0;
    while j < w
        invariant
            j <= w,
            levels@.len() == j,
            forall|k: int| 0 <= k < j ==> #[trigger] levels@[k] == 0,
        decreases w - j,
    {
        levels.push(0);
        j = j + 1;
    }
    if n == 0 || w == 0 {
        return levels;
    }
    if n >= w {
        let mut i: usize = 0;
        while i < n
            invariant
                n == s@.len(),
                0 < w <= n,
                i <= n,
                levels@.len() == w,
                forall|k: int| 0 <= k < w ==> #[trigger] levels@[k] == peak_in(s@, w as nat, k, i as int),
                forall|k: int| 0 <= k < w ==> #[trigger] levels@[k] <= 32768,
            decreases n - i,
        {
            let b = bucket_index(i, n, w);
            let m = magnitude_of(s[i]);
            if m > levels[b] {
                levels.set(b, m);
            }
            i = i + 1;
            assert forall|k: int| 0 <= k < w implies #[trigger] levels@[k] == peak_in(
                s@,
                w as nat,
                k,
                i as int,
            ) by {
                assert(peak_in(s@, w as nat, k, i as int) == {
                    let rest = peak_in(s@, w as nat, k, i - 1);
                    let here = if bucket_of(i - 1, n as int, w as int) == k {
                        magnitude(s@[i - 1])
                    } else {
                        0
                    };
                    if here > rest { here } else { rest }
                });
            }
        }
    } else {
        let mut j: usize = 0;
        while j < w
            invariant
                n == s@.len(),
                0 < n < w,
                j <= w,
                levels@.len() == w,
                forall|k: int| 0 <= k < j ==> #[trigger] levels@[k] == level(s@, w as nat, k),
                forall|k: int| 0 <= k < w ==> #[trigger] levels@[k] <= 32768,
            decreases w - j,
        {
            let src = source_index(j, n, w);
            let m = magnitude_of(s[src]);
            levels.set(j, m);
            j = j + 1;
        }
    }
    levels
}

/// Reduces a whole decoded track to `width` buckets in one pass: each bucket
/// is the peak magnitude of its span of samples, scaled so that the loudest
/// bucket is `LEVEL_FULL`. A silent or empty track gives all-zero buckets.
pub fn precompute(samples: &[i16], width: usize, enhanced: bool) -> (r: WaveformData)
    ensures
        r.samples@.len() == width,
        r.enhanced == enhanced,
        forall|j: int| 0 <= j < width ==> #[trigger] r.samples@[j] == normalized(samples@, width as nat, j),
{
    let levels = raw_levels(samples, width);
    let mut m: u32 = 0;
    let mut j: usize = 0;
    while j < width
        invariant
            j <= width,
            levels@.len() == width,
            forall|k: int| 0 <= k < width ==> #[trigger] levels@[k] == level(samples@, width as nat, k),
            m == max_level(samples@, width as nat, j as int),
        decreases width - j,
    {
        if levels[j] > m {
            m = levels[j];
        }
        j = j + 1;
    }
    let mut out: Vec<u32> = Vec::with_capacity(width);
    let mut j: usize = 0;
    while j < width
        invariant
            j <= width,
            levels@.len() == width,
            forall|k: int| 0 <= k < width ==> #[trigger] levels@[k] == level(samples@, width as nat, k),
            forall|k: int| 0 <= k < width ==> #[trigger] levels@[k] <= 32768,
            m == max_level(samples@, width as nat, width as int),
            out@.len() == j,
            forall|k: int| 0 <= k < j ==> #[trigger] out@[k] == normalized(samples@, width as nat, k),
        decreases width - j,
    {
        let v: u32 = if m == 0 {
            0
        } else {
            proof {
                assert(levels@[j as int] * 10000 <= 32768 * 10000) by (nonlinear_arith)
                    requires
                        levels@[j as int] <= 32768,
                ;
            }
            levels[j] * LEVEL_FULL / m
        };
        out.push(v);
        j = j + 1;
    }
    WaveformData { samples: out, enhanced }
}

proof fn lemma_peak_zero(s: Seq<i16>, w: nat, j: int, k: int)
    requires
        forall|i: int| 0 <= i < s.len() ==> s[i] == 0,
        k <= s.len(),
    ensures
        peak_in(s, w, j, k) == 0,
    decreases k,
{
    if k > 0 {
        lemma_peak_zero(s, w, j, k - 1);
    }
}

proof fn lemma_peak_covers(s: Seq<i16>, w: nat, i: int, k: int)
    requires
        0 <= i < k <= s.len(),
    ensures
        peak_in(s, w, bucket_of(i, s.len() as int, w as int), k) >= magnitude(s[i]),
    decreases k,
{
    if k - 1 > i {
        lemma_peak_covers(s, w, i, k - 1);
    }
}

proof fn lemma_source_in_range(j: int, n: int, w: int)
    requires
        0 <= j < w,
        0 < n < w,
    ensures
        0 <= source_of(j, n, w) < n,
{
    assert(0 <= j * n / w < n) by (nonlinear_arith)
        requires
            0 <= j < w,
            0 < n < w,
    ;
}

proof fn lemma_bucket_in_range(i: int, n: int, w: int)
    requires
        0 <= i < n,
        0 < w <= n,
    ensures
        0 <= bucket_of(i, n, w) < w,
{
    assert(0 <= i * w / n < w) by (nonlinear_arith)
        requires
            0 <= i < n,
            0 < w <= n,
    ;
}

/// Bucket `j` that shows sample `i` when there are fewer samples than buckets.
proof fn lemma_source_covers(i: int, n: int, w: int) -> (j: int)
    requires
        0 <= i < n,
        n < w,
    ensures
        0 <= j < w,
        source_of(j, n, w) == i,
{
    let j = (i * w + n - 1) / n;
    assert(j * n >= i * w && j * n < i * w + n) by (nonlinear_arith)
        requires
            j == (i * w + n - 1) / n,
            0 <= i < n,
            n < w,
    ;
    assert(0 <= j < w) by (nonlinear_arith)
        requires
            j * n < i * w + n,
            0 <= i < n,
            n < w,
            j * n >= 0,
    ;
    assert(j * n / w == i) by (nonlinear_arith)
        requires
            j * n >= i * w,
            j * n < i * w + n,
            0 <= i,
            n < w,
    ;
    j
}

proof fn lemma_max_level_zero(s: Seq<i16>, w: nat, k: int)
    requires
        forall|j: int| 0 <= j < k ==> level(s, w, j) == 0,
    ensures
        max_level(s, w, k) == 0,
    decreases k,
{
    if k > 0 {
        lemma_max_level_zero(s, w, k - 1);
    }
}

proof fn lemma_max_level_bounds(s: Seq<i16>, w: nat, k: int)
    requires
        k > 0,
    ensures
        forall|j: int| 0 <= j < k ==> level(s, w, j) <= max_level(s, w, k),
        exists|j: int| 0 <= j < k && level(s, w, j) == max_level(s, w, k),
    decreases k,
{
    if k > 1 {
        lemma_max_level_bounds(s, w, k - 1);
        let j0 = choose|j: int| 0 <= j < k - 1 && level(s, w, j) == max_level(s, w, k - 1);
        if level(s, w, k - 1) <= max_level(s, w, k - 1) {
            assert(level(s, w, j0) == max_level(s, w, k));
        } else {
            assert(level(s, w, k - 1) == max_level(s, w, k));
        }
    } else {
        assert(max_level(s, w, 0) == 0);
        assert(level(s, w, 0) == max_level(s, w, 1));
    }
}

/// A silent track (every sample zero, including the empty track) gives a
/// zero in every bucket.
pub proof fn lemma_silent_envelope(s: Seq<i16>, w: nat)
    requires
        forall|i: int| 0 <= i < s.len() ==> s[i] == 0,
    ensures
        forall|j: int| 0 <= j < w ==> #[trigger] normalized(s, w, j) == 0,
{
    assert forall|j: int| 0 <= j < w implies level(s, w, j) == 0 by {
        if s.len() >= w && s.len() > 0 {
            lemma_peak_zero(s, w, j, s.len() as int);
        } else if s.len() > 0 {
            lemma_source_in_range(j, s.len() as int, w as int);
        }
    }
    lemma_max_level_zero(s, w, w as int);
}

/// A track with any non-zero sample has its loudest bucket at exactly
/// `LEVEL_FULL`, and no bucket above it.
pub proof fn lemma_loud_envelope(s: Seq<i16>, w: nat, i: int)
    requires
        w > 0,
        0 <= i < s.len(),
        s[i] != 0,
    ensures
        exists|j: int| 0 <= j < w && #[trigger] normalized(s, w, j) == LEVEL_FULL,
        forall|j: int| 0 <= j < w ==> #[trigger] normalized(s, w, j) <= LEVEL_FULL,
{
    let n = s.len() as int;
    let m = max_level(s, w, w as int);
    lemma_max_level_bounds(s, w, w as int);
    let jc = if n >= w {
        lemma_bucket_in_range(i, n, w as int);
        lemma_peak_covers(s, w, i, n);
        bucket_of(i, n, w as int)
    } else {
        lemma_source_covers(i, n, w as int)
    };
    assert(level(s, w, jc) >= magnitude(s[i]));
    assert(m > 0);
    let jm = choose|j: int| 0 <= j < w && level(s, w, j) == m;
    assert(m * (LEVEL_FULL as nat) / m == LEVEL_FULL) by (nonlinear_arith)
        requires
            m > 0,
    ;
    assert(normalized(s, w, jm) == LEVEL_FULL);
    assert forall|j: int| 0 <= j < w implies #[trigger] normalized(s, w, j) <= LEVEL_FULL by {
        let l = level(s, w, j);
        assert(l <= m);
        assert(l * (LEVEL_FULL as nat) / m <= LEVEL_FULL) by (nonlinear_arith)
            requires
                l <= m,
                m > 0,
        ;
    }
}

} // verus!
