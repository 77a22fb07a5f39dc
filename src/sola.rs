//! Window operations of the frame processor, generic over the sample type:
//! sliding a window by one frame, choosing the SOLA offset from per-offset
//! scores, crossfading, and copying sub-ranges.
use vstd::prelude::*;

verus! {

/// Shifts `buf` left by `frame.len()`, dropping its oldest values, and
/// writes `frame` into the freed tail.
pub fn slide_window<T: Copy>(buf: &mut Vec<T>, frame: &[T])
    requires
        frame@.len() <= old(buf)@.len(),
    ensures
        final(buf)@ == old(buf)@.skip(frame@.len() as int) + frame@,
{
    let n = frame.len();
    let len = buf.len();
    let keep = len - n;
    let mut i: usize = 0;
    while i < keep
        invariant
            keep == len - n,
            len == old(buf)@.len(),
            n == frame@.len(),
            0 <= i <= keep,
            buf@.len() == len,
            forall|k: int| 0 <= k < i ==> buf@[k] == old(buf)@[k + n],
            forall|k: int| i <= k < len ==> buf@[k] == old(buf)@[k],
        decreases keep - i,
    {
        let x = buf[i + n];
        buf.set(i, x);
        i = i + 1;
    }
    let mut j: usize = 0;
    while j < n
        invariant
            keep == len - n,
            len == old(buf)@.len(),
            n == frame@.len(),
            0 <= j <= n,
            buf@.len() == len,
            forall|k: int| 0 <= k < keep ==> buf@[k] == old(buf)@[k + n],
            forall|k: int| 0 <= k < j ==> buf@[keep + k] == frame@[k],
        decreases n - j,
    {
        buf.set(keep + j, frame[j]);
        j = j + 1;
    }
    assert(buf@ =~= old(buf)@.skip(n as int) + frame@);
}

/// `chain` is the succession of choices of a scan of `scores` with
/// `greater`: it starts at offset 0, each later choice beat the one before
/// it, and no offset passed over in between did.
pub open spec fn scan_chain<S, G: Fn(S, S) -> bool>(
    greater: G,
    scores: Seq<S>,
    chain: Seq<int>,
) -> bool {
    &&& chain.len() > 0
    &&& chain[0] == 0
    &&& chain.last() < scores.len()
    &&& forall|m: int|
        0 <= m < chain.len() - 1 ==> {
            &&& chain[m] < chain[m + 1]
            &&& call_ensures(greater, (scores[chain[m + 1]], scores[#[trigger] chain[m]]), true)
            &&& forall|j: int|
                chain[m] < j < chain[m + 1] ==> call_ensures(
                    greater,
                    (scores[j], scores[chain[m]]),
                    false,
                )
        }
}

/// `r` is what a scan of `scores` with `greater` chooses: the end of a
/// chain of choices that no later score beat.
pub open spec fn scan_choice<S, G: Fn(S, S) -> bool>(greater: G, scores: Seq<S>, r: int) -> bool {
    &&& 0 <= r < scores.len()
    &&& exists|chain: Seq<int>| #[trigger] scan_chain(greater, scores, chain) && chain.last() == r
    &&& forall|j: int| r < j < scores.len() ==> call_ensures(greater, (scores[j], scores[r]), false)
}

/// Picks the offset of the best score: scanning from offset 0, the current
/// choice moves to a later offset exactly when `greater(later, current)`
/// says so.
pub fn sola_offset<S: Copy, G: Fn(S, S) -> bool>(scores: &[S], greater: &G) -> (r: usize)
    requires
        scores@.len() > 0,
        forall|a: S, b: S| call_requires(*greater, (a, b)),
    ensures
        r < scores@.len(),
        scan_choice(*greater, scores@, r as int),
{
    let mut best: usize = 0;
    let mut j: usize = 1;
    let ghost mut chain: Seq<int> = seq![0int];
    while j < scores.len()
        invariant
            forall|a: S, b: S| call_requires(*greater, (a, b)),
            0 <= best < j <= scores@.len(),
            scan_chain(*greater, scores@, chain),
            chain.last() == best,
            forall|k: int|
                best < k < j ==> call_ensures(*greater, (scores@[k], scores@[best as int]), false),
        decreases scores@.len() - j,
    {
        let better = greater(scores[j], scores[best]);
        if better {
            let ghost old_chain = chain;
            proof {
                chain = chain.push(j as int);
                assert forall|m: int| 0 <= m < chain.len() - 1 implies {
                    &&& chain[m] < chain[m + 1]
                    &&& call_ensures(
                        *greater,
                        (scores@[chain[m + 1]], scores@[#[trigger] chain[m]]),
                        true,
                    )
                    &&& forall|i: int|
                        chain[m] < i < chain[m + 1] ==> call_ensures(
                            *greater,
                            (scores@[i], scores@[chain[m]]),
                            false,
                        )
                } by {
                    if m < old_chain.len() - 1 {
                        assert(chain[m] == old_chain[m]);
                        assert(chain[m + 1] == old_chain[m + 1]);
                    } else {
                        assert(chain[m] == best);
                        assert(chain[m + 1] == j);
                    }
                }
            }
            best = j;
        }
        j = j + 1;
    }
    assert(scan_chain(*greater, scores@, chain) && chain.last() == best);
    best
}

/// Whether `v` may stand at position `k` of `out` counted from `o`, once
/// the first `prev.len()` positions from `o` have been mixed with `prev`.
pub open spec fn blended_at<T, M: Fn(T, T, usize) -> T>(
    mix: M,
    out: Seq<T>,
    prev: Seq<T>,
    o: int,
    k: int,
    v: T,
) -> bool {
    if k < prev.len() {
        call_ensures(mix, (out[o + k], prev[k], k as usize), v)
    } else {
        v == out[o + k]
    }
}

/// Silence in gives silence out: when the output and the previous SOLA
/// buffer hold only `zero`, and mixing `zero` with `zero` at any position
/// gives `zero`, every sample that the blend may produce is `zero`.
pub proof fn lemma_silence_stays_silent<T, M: Fn(T, T, usize) -> T>(
    mix: M,
    out: Seq<T>,
    prev: Seq<T>,
    o: int,
    k: int,
    v: T,
    zero: T,
)
    requires
        forall|i: usize, r: T| #[trigger] call_ensures(mix, (zero, zero, i), r) ==> r == zero,
        forall|i: int| 0 <= i < out.len() ==> out[i] == zero,
        forall|i: int| 0 <= i < prev.len() ==> prev[i] == zero,
        0 <= o,
        0 <= k,
        o + k < out.len(),
        blended_at(mix, out, prev, o, k, v),
    ensures
        v == zero,
{
    if k < prev.len() {
        assert(out[o + k] == zero);
        assert(prev[k] == zero);
        assert(call_ensures(mix, (zero, zero, k as usize), v));
    }
}

/// Mixes `prev` into `out` from position `start` on: position `start + i`
/// becomes `mix(out[start + i], prev[i], i)`; all else stays.
pub fn crossfade<T: Copy, M: Fn(T, T, usize) -> T>(
    out: &mut Vec<T>,
    start: usize,
    prev: &[T],
    mix: &M,
)
    requires
        start + prev@.len() <= old(out)@.len(),
        forall|a: T, b: T, i: usize| call_requires(*mix, (a, b, i)),
    ensures
        final(out)@.len() == old(out)@.len(),
        forall|k: int|
            0 <= k < old(out)@.len() && (k < start || k >= start + prev@.len())
                ==> final(out)@[k] == old(out)@[k],
        forall|k: int|
            0 <= k < final(out)@.len() - start ==> blended_at(
                *mix,
                old(out)@,
                prev@,
                start as int,
                k,
                #[trigger] final(out)@[start + k],
            ),
{
    let total = out.len();
    let mut i: usize = 0;
    while i < prev.len()
        invariant
            total == out@.len(),
            start + prev@.len() <= old(out)@.len(),
            forall|a: T, b: T, i: usize| call_requires(*mix, (a, b, i)),
            0 <= i <= prev@.len(),
            out@.len() == old(out)@.len(),
            forall|k: int|
                0 <= k < old(out)@.len() && (k < start || k >= start + i)
                    ==> out@[k] == old(out)@[k],
            forall|k: int|
                0 <= k < i ==> call_ensures(
                    *mix,
                    (old(out)@[start + k], prev@[k], k as usize),
                    #[trigger] out@[start + k],
                ),
        decreases prev@.len() - i,
    {
        let v = mix(out[start + i], prev[i], i);
        out.set(start + i, v);
        i = i + 1;
    }
    assert forall|k: int| 0 <= k < out@.len() - start implies blended_at(
        *mix,
        old(out)@,
        prev@,
        start as int,
        k,
        #[trigger] out@[start + k],
    ) by {
        if k < prev@.len() {
        } else {
            assert(out@[start + k] == old(out)@[start + k]);
        }
    }
}

/// A copy of `v[start .. start + n]`.
pub fn copy_range<T: Copy>(v: &[T], start: usize, n: usize) -> (r: Vec<T>)
    requires
        start + n <= v@.len(),
    ensures
        r@ == v@.subrange(start as int, start + n),
{
    let total = v.len();
    let mut r: Vec<T> = Vec::new();
    let mut i: usize = 0;
    while i < n
        invariant
            total == v@.len(),
            start + n <= v@.len(),
            0 <= i <= n,
            r@ == v@.subrange(start as int, start + i),
        decreases n - i,
    {
        r.push(v[start + i]);
        i = i + 1;
        assert(r@ =~= v@.subrange(start as int, start + i));
    }
    r
}

} // verus!
