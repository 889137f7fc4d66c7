//! Time-windowed frequency estimator: a fixed-length rolling sequence of
//! count-min sketches, one per time segment, oldest first.  Advancing time
//! discards the oldest segments and appends fresh ones; every insertion goes
//! to the newest segment; a query sums the estimates of all live segments.

use vstd::prelude::*;
use crate::cms::CountMinSketch;
use crate::cms::est;
use crate::cms::lemma_est_empty;
use crate::cms::lemma_est_le_len;
use crate::cms::lemma_est_push_same;

verus! {

/// Rows per segment sketch: enough independent rows that all of them collide
/// only with low probability, matching a confidence of ninety-nine percent.
pub const SEGMENT_DEPTH: usize = 5;

/// Columns per row of a segment sketch: enough columns that the expected
/// overcount stays within one part in a thousand of the total insertions.
pub const SEGMENT_WIDTH: usize = 2719;

/// Strategy mapping an elapsed span of seconds to the whole number of
/// window segments it covers.
pub trait Resolution: Sized {
    spec fn spec_segments(&self, elapsed: i64) -> i64;

    fn segments(&self, elapsed: i64) -> (r: i64)
        ensures
            r == self.spec_segments(elapsed),
    ;
}

/// One segment per second of elapsed time.
pub struct Seconds;

impl Resolution for Seconds {
    open spec fn spec_segments(&self, elapsed: i64) -> i64 {
        elapsed
    }

    fn segments(&self, elapsed: i64) -> (r: i64) {
        elapsed
    }
}

/// One segment per whole minute of elapsed time; a negative span counts as
/// no whole segment at all.
pub struct Minutes;

impl Resolution for Minutes {
    open spec fn spec_segments(&self, elapsed: i64) -> i64 {
        if elapsed >= 0 {
            (elapsed / 60) as i64
        } else {
            (-1) as i64
        }
    }

    fn segments(&self, elapsed: i64) -> (r: i64) {
        if elapsed >= 0 {
            elapsed / 60
        } else {
            -1
        }
    }
}

/// `n` segment histories, all empty.
pub open spec fn empties(n: int) -> Seq<Seq<Seq<u8>>> {
    Seq::new(n as nat, |i: int| Seq::<Seq<u8>>::empty())
}

/// Sum over the segment histories of each segment's estimate for `key`.
pub open spec fn sum_est(hists: Seq<Seq<Seq<u8>>>, key: Seq<u8>) -> nat
    decreases hists.len(),
{
    if hists.len() == 0 {
        0
    } else {
        sum_est(hists.drop_last(), key) + est(
            hists.last(),
            SEGMENT_DEPTH as int,
            SEGMENT_WIDTH as nat,
            key,
        )
    }
}

/// Total number of insertions recorded across the segment histories.
pub open spec fn sum_len(hists: Seq<Seq<Seq<u8>>>) -> nat
    decreases hists.len(),
{
    if hists.len() == 0 {
        0
    } else {
        sum_len(hists.drop_last()) + hists.last().len()
    }
}

/// The segment histories after time has advanced by `k` segments: the `k`
/// oldest are discarded and `k` fresh ones appended, capped at clearing the
/// whole window; a non-positive `k` changes nothing.
pub open spec fn rotated(hists: Seq<Seq<Seq<u8>>>, k: i64) -> Seq<Seq<Seq<u8>>> {
    if k <= 0 {
        hists
    } else if k as int >= hists.len() {
        empties(hists.len() as int)
    } else {
        hists.skip(k as int) + empties(k as int)
    }
}

/// The segment histories after inserting `key` into the newest segment.
pub open spec fn bumped(hists: Seq<Seq<Seq<u8>>>, key: Seq<u8>) -> Seq<Seq<Seq<u8>>> {
    hists.update(hists.len() - 1, hists.last().push(key))
}

proof fn lemma_sum_est_concat(a: Seq<Seq<Seq<u8>>>, b: Seq<Seq<Seq<u8>>>, key: Seq<u8>)
    ensures
        sum_est(a + b, key) == sum_est(a, key) + sum_est(b, key),
    decreases b.len(),
{
    if b.len() == 0 {
        assert(a + b =~= a);
    } else {
        assert((a + b).drop_last() =~= a + b.drop_last());
        assert((a + b).last() == b.last());
        lemma_sum_est_concat(a, b.drop_last(), key);
    }
}

proof fn lemma_sum_len_concat(a: Seq<Seq<Seq<u8>>>, b: Seq<Seq<Seq<u8>>>)
    ensures
        sum_len(a + b) == sum_len(a) + sum_len(b),
    decreases b.len(),
{
    if b.len() == 0 {
        assert(a + b =~= a);
    } else {
        assert((a + b).drop_last() =~= a + b.drop_last());
        assert((a + b).last() == b.last());
        lemma_sum_len_concat(a, b.drop_last());
    }
}

proof fn lemma_sum_est_empties(n: int, key: Seq<u8>)
    requires
        n >= 0,
    ensures
        sum_est(empties(n), key) == 0,
    decreases n,
{
    if n > 0 {
        assert(empties(n).drop_last() =~= empties(n - 1));
        lemma_est_empty(SEGMENT_DEPTH as int, SEGMENT_WIDTH as nat, key);
        lemma_sum_est_empties(n - 1, key);
    } else {
        assert(empties(n) =~= Seq::<Seq<Seq<u8>>>::empty());
    }
}

proof fn lemma_sum_len_empties(n: int)
    requires
        n >= 0,
    ensures
        sum_len(empties(n)) == 0,
    decreases n,
{
    if n > 0 {
        assert(empties(n).drop_last() =~= empties(n - 1));
        lemma_sum_len_empties(n - 1);
    } else {
        assert(empties(n) =~= Seq::<Seq<Seq<u8>>>::empty());
    }
}

proof fn lemma_sum_est_le_sum_len(hists: Seq<Seq<Seq<u8>>>, key: Seq<u8>)
    ensures
        sum_est(hists, key) <= sum_len(hists),
    decreases hists.len(),
{
    if hists.len() > 0 {
        lemma_sum_est_le_sum_len(hists.drop_last(), key);
        lemma_est_le_len(hists.last(), SEGMENT_DEPTH as int, SEGMENT_WIDTH as nat, key);
    }
}

proof fn lemma_sum_est_bump(hists: Seq<Seq<Seq<u8>>>, key: Seq<u8>)
    requires
        hists.len() >= 1,
    ensures
        sum_est(bumped(hists, key), key) == sum_est(hists, key) + 1,
{
    assert(bumped(hists, key).drop_last() =~= hists.drop_last());
    assert(bumped(hists, key).last() == hists.last().push(key));
    lemma_est_push_same(hists.last(), SEGMENT_DEPTH as int, SEGMENT_WIDTH as nat, key);
}

proof fn lemma_sum_len_bump(hists: Seq<Seq<Seq<u8>>>, key: Seq<u8>)
    requires
        hists.len() >= 1,
    ensures
        sum_len(bumped(hists, key)) == sum_len(hists) + 1,
{
    assert(bumped(hists, key).drop_last() =~= hists.drop_last());
    assert(bumped(hists, key).last() == hists.last().push(key));
}

proof fn lemma_sum_len_rotated(hists: Seq<Seq<Seq<u8>>>, k: i64)
    ensures
        sum_len(rotated(hists, k)) <= sum_len(hists),
{
    if k <= 0 {
    } else if k as int >= hists.len() {
        lemma_sum_len_empties(hists.len() as int);
    } else {
        lemma_sum_len_concat(hists.skip(k as int), empties(k as int));
        lemma_sum_len_empties(k as int);
        assert(hists =~= hists.take(k as int) + hists.skip(k as int));
        lemma_sum_len_concat(hists.take(k as int), hists.skip(k as int));
    }
}

/// The rolling window of count-min sketches.  `sketches` is oldest first;
/// `last` is the timestamp, in seconds, of the most recent rotation.
pub struct TimeWindowCMS<R: Resolution> {
    pub resolution: R,
    pub last: i64,
    pub sketches: Vec<CountMinSketch>,
}

impl<R: Resolution> TimeWindowCMS<R> {
    /// The ghost insertion history of each segment, oldest segment first.
    pub open spec fn hists(self) -> Seq<Seq<Seq<u8>>> {
        Seq::new(self.sketches@.len() as nat, |i: int| self.sketches@[i].hist@)
    }

    pub open spec fn wf(self) -> bool {
        &&& self.sketches@.len() >= 1
        &&& (forall|i: int|
            0 <= i < self.sketches@.len() ==> {
                &&& (#[trigger] self.sketches@[i]).wf()
                &&& self.sketches@[i].depth == SEGMENT_DEPTH
                &&& self.sketches@[i].width == SEGMENT_WIDTH
            })
    }

    /// The window's current count for `key`: the sum of every segment's
    /// estimate.
    pub open spec fn window_count(self, key: Seq<u8>) -> nat {
        sum_est(self.hists(), key)
    }

    /// Total insertions currently recorded across all segments.
    pub open spec fn total_items(self) -> nat {
        sum_len(self.hists())
    }

    /// Number of segments that `stamp` advances the window by.
    pub open spec fn spec_k(self, stamp: i64) -> i64 {
        self.resolution.spec_segments((stamp - self.last) as i64)
    }

    /// Creates a window of `resolution(period)` fresh segments, recording
    /// `now` as the last-rotation timestamp.
    pub fn new(now: i64, period: i64, resolution: R) -> (w: Self)
        requires
            1 <= resolution.spec_segments(period),
            resolution.spec_segments(period) <= usize::MAX,
        ensures
            w.wf(),
            w.last == now,
            w.resolution == resolution,
            w.hists() =~= empties(resolution.spec_segments(period) as int),
            w.total_items() == 0,
            w.sketches@.len() == resolution.spec_segments(period),
    {
        let n = resolution.segments(period);
        let n = n as usize;
        let mut sketches: Vec<CountMinSketch> = Vec::new();
        let mut i: usize = 0;
        while i < n
            invariant
                i <= n,
                sketches@.len() == i,
                forall|j: int|
                    0 <= j < i ==> {
                        &&& (#[trigger] sketches@[j]).wf()
                        &&& sketches@[j].depth == SEGMENT_DEPTH
                        &&& sketches@[j].width == SEGMENT_WIDTH
                        &&& sketches@[j].hist@ =~= Seq::<Seq<u8>>::empty()
                    },
            decreases n - i,
        {
            sketches.push(CountMinSketch::new(SEGMENT_DEPTH, SEGMENT_WIDTH));
            i = i + 1;
        }
        let w = TimeWindowCMS { resolution, last: now, sketches };
        proof {
            assert(w.hists() =~= empties(n as int));
            lemma_sum_len_empties(n as int);
        }
        w
    }

    /// Records one occurrence of `key` at time `stamp` and returns the
    /// window's count for `key`.  If `stamp` has moved into a later segment,
    /// the oldest segments are first discarded and replaced by fresh ones
    /// (clearing the whole window if the gap spans it); a stale or
    /// same-segment `stamp` rotates nothing.  The occurrence always lands in
    /// the newest segment.
    pub fn add(&mut self, stamp: i64, key: &[u8]) -> (n: u64)
        requires
            old(self).wf(),
            old(self).total_items() < u64::MAX,
            i64::MIN <= stamp - old(self).last,
            stamp - old(self).last <= i64::MAX,
        ensures
            final(self).wf(),
            final(self).resolution == old(self).resolution,
            final(self).sketches@.len() == old(self).sketches@.len(),
            final(self).hists() =~= bumped(
                rotated(old(self).hists(), old(self).spec_k(stamp)),
                key@,
            ),
            final(self).last == if old(self).spec_k(stamp) > 0 {
                stamp
            } else {
                old(self).last
            },
            n as nat == sum_est(final(self).hists(), key@),
            n as nat == sum_est(rotated(old(self).hists(), old(self).spec_k(stamp)), key@) + 1,
            n >= 1,
            final(self).total_items() <= old(self).total_items() + 1,
            old(self).spec_k(stamp) <= 0 ==> n as nat == old(self).window_count(key@) + 1,
            old(self).spec_k(stamp) as int >= old(self).hists().len() ==> n == 1,
    {
        let ghost old_hists = self.hists();
        let ghost k_spec = old(self).spec_k(stamp);
        let elapsed = stamp - self.last;
        let k = self.resolution.segments(elapsed);
        let len = self.sketches.len();
        if k > 0 {
            if k as u64 >= len as u64 {
                // the gap spans the whole window: every segment is cleared
                let mut i: usize = 0;
                while i < len
                    invariant
                        i <= len,
                        self.sketches@.len() == len,
                        self.resolution == old(self).resolution,
                        self.last == old(self).last,
                        forall|j: int|
                            0 <= j < i ==> {
                                &&& (#[trigger] self.sketches@[j]).wf()
                                &&& self.sketches@[j].depth == SEGMENT_DEPTH
                                &&& self.sketches@[j].width == SEGMENT_WIDTH
                                &&& self.sketches@[j].hist@ =~= Seq::<Seq<u8>>::empty()
                            },
                        forall|j: int|
                            i <= j < len ==> {
                                &&& (#[trigger] self.sketches@[j]).wf()
                                &&& self.sketches@[j].depth == SEGMENT_DEPTH
                                &&& self.sketches@[j].width == SEGMENT_WIDTH
                            },
                    decreases len - i,
                {
                    self.sketches[i] = CountMinSketch::new(SEGMENT_DEPTH, SEGMENT_WIDTH);
                    i = i + 1;
                }
                proof {
                    assert(self.hists() =~= empties(len as int));
                    assert(self.hists() =~= rotated(old_hists, k_spec));
                }
            } else {
                // drop the k oldest segments, append k fresh ones
                let kk = k as usize;
                let tail = self.sketches.split_off(kk);
                self.sketches = tail;
                let mut i: usize = 0;
                while i < kk
                    invariant
                        i <= kk,
                        kk < len,
                        self.resolution == old(self).resolution,
                        self.last == old(self).last,
                        self.sketches@.len() == len - kk + i,
                        forall|j: int|
                            0 <= j < self.sketches@.len() ==> {
                                &&& (#[trigger] self.sketches@[j]).wf()
                                &&& self.sketches@[j].depth == SEGMENT_DEPTH
                                &&& self.sketches@[j].width == SEGMENT_WIDTH
                            },
                        self.hists().take(len - kk) =~= old_hists.skip(kk as int),
                        forall|j: int|
                            len - kk <= j < self.sketches@.len() ==> (#[trigger] self.hists()[j])
                                =~= Seq::<Seq<u8>>::empty(),
                    decreases kk - i,
                {
                    let ghost prev = self.sketches@;
                    let ghost prev_hists = self.hists();
                    let fresh = CountMinSketch::new(SEGMENT_DEPTH, SEGMENT_WIDTH);
                    self.sketches.push(fresh);
                    proof {
                        assert forall|j: int|
                            len - kk <= j < self.sketches@.len() implies (
                        #[trigger] self.hists()[j]) =~= Seq::<Seq<u8>>::empty() by {
                            if j < prev.len() {
                                assert(prev_hists[j] =~= Seq::<Seq<u8>>::empty());
                                assert(self.sketches@[j] == prev[j]);
                                assert(self.hists()[j] == prev[j].hist@);
                            } else {
                                assert(self.sketches@[j] == fresh);
                            }
                        }
                        assert(self.hists().take(len - kk) =~= old_hists.skip(kk as int));
                    }
                    i = i + 1;
                }
                proof {
                    assert(self.hists() =~= old_hists.skip(kk as int) + empties(kk as int));
                    assert(self.hists() =~= rotated(old_hists, k_spec));
                }
            }
            self.last = stamp;
        } else {
            proof {
                assert(self.hists() =~= rotated(old_hists, k_spec));
            }
        }
        let ghost rot_hists = self.hists();
        proof {
            assert(rot_hists =~= rotated(old_hists, k_spec));
            lemma_sum_len_rotated(old_hists, k_spec);
            lemma_sum_est_le_sum_len(rot_hists, key@);
        }
        // insert into the newest segment
        let mut top = self.sketches.pop().unwrap();
        proof {
            assert(rot_hists.drop_last() =~= rot_hists.subrange(0, rot_hists.len() - 1));
            assert(sum_len(rot_hists) == sum_len(rot_hists.drop_last()) + rot_hists.last().len());
        }
        top.insert(key);
        self.sketches.push(top);
        proof {
            assert(self.hists() =~= bumped(rot_hists, key@));
            lemma_sum_est_bump(rot_hists, key@);
            lemma_sum_len_bump(rot_hists, key@);
        }
        let ghost new_hists = self.hists();
        // sum the estimates of every live segment
        let total_len = self.sketches.len();
        let mut n: u64 = 0;
        let mut i: usize = 0;
        proof {
            assert(new_hists.take(0) =~= Seq::<Seq<Seq<u8>>>::empty());
        }
        while i < total_len
            invariant
                i <= total_len,
                self.wf(),
                self.sketches@.len() == total_len,
                new_hists == self.hists(),
                sum_est(new_hists, key@) <= u64::MAX,
                n as nat == sum_est(new_hists.take(i as int), key@),
            decreases total_len - i,
        {
            let e = self.sketches[i].estimate(key);
            proof {
                assert(new_hists.take(i + 1).drop_last() =~= new_hists.take(i as int));
                assert(new_hists.take(i + 1).last() == new_hists[i as int]);
                assert(new_hists =~= new_hists.take(i + 1) + new_hists.skip(i + 1));
                lemma_sum_est_concat(new_hists.take(i + 1), new_hists.skip(i + 1), key@);
            }
            n = n + e;
            i = i + 1;
        }
        proof {
            assert(new_hists.take(total_len as int) =~= new_hists);
            if k_spec <= 0 {
                assert(rot_hists == old_hists);
            }
            if k_spec as int >= old_hists.len() {
                assert(rot_hists =~= empties(old_hists.len() as int));
                lemma_sum_est_empties(old_hists.len() as int, key@);
            }
        }
        n
    }
}

} // verus!