//! Count-min sketch: a frequency estimator with bounded error that never
//! undercounts.  A sketch is a table of `depth` rows and `width` columns;
//! inserting a key increments one counter per row, chosen by a row-salted
//! hash of the key's bytes, and an estimate is the minimum of those counters.

use vstd::prelude::*;

verus! {

/// FNV-1a offset basis.
pub const FNV_OFFSET: u64 = 0xcbf2_9ce4_8422_2325;

/// FNV-1a prime.
pub const FNV_PRIME: u64 = 0x0000_0100_0000_01b3;

/// Multiplier that spreads the row index into a per-row seed, so the rows
/// act as independent hash functions over the same key.
pub const ROW_SALT: u64 = 0x9e37_79b9_7f4a_7c15;

/// Product of two machine words, reduced modulo the word range: the value
/// `wrapping_mul` computes.
pub open spec fn wmul(x: u64, y: u64) -> u64 {
    ((x as nat * y as nat) % 0x1_0000_0000_0000_0000) as u64
}

/// Sum of two machine words, reduced modulo the word range: the value
/// `wrapping_add` computes.
pub open spec fn wadd(x: u64, y: u64) -> u64 {
    ((x as nat + y as nat) % 0x1_0000_0000_0000_0000) as u64
}

/// Initial hash state for a row.
pub open spec fn row_seed(row: u64) -> u64 {
    FNV_OFFSET ^ wmul(ROW_SALT, wadd(row, 1))
}

/// One FNV-1a step: absorb one byte into the hash state.
pub open spec fn hash_step(h: u64, b: u8) -> u64 {
    wmul(h ^ (b as u64), FNV_PRIME)
}

/// Row-salted FNV-1a hash of a byte sequence.
pub open spec fn hash_bytes(row: u64, key: Seq<u8>) -> u64
    decreases key.len(),
{
    if key.len() == 0 {
        row_seed(row)
    } else {
        hash_step(hash_bytes(row, key.drop_last()), key.last())
    }
}

/// Column that `key` selects in `row`, for a table of the given width.
pub open spec fn col_of(row: u64, width: nat, key: Seq<u8>) -> nat {
    hash_bytes(row, key) as nat % width
}

/// Computes the column that `key` selects in `row`.
fn hash_row(row: u64, width: usize, key: &[u8]) -> (c: usize)
    requires
        width >= 1,
    ensures
        c == col_of(row, width as nat, key@),
        c < width,
{
    let mut h: u64 = FNV_OFFSET ^ ROW_SALT.wrapping_mul(row.wrapping_add(1));
    assert(h == row_seed(row));
    assert(key@.take(0) =~= Seq::<u8>::empty());
    let mut i: usize = 0;
    while i < key.len()
        invariant
            i <= key.len(),
            h == hash_bytes(row, key@.take(i as int)),
        decreases key.len() - i,
    {
        h = (h ^ (key[i] as u64)).wrapping_mul(FNV_PRIME);
        proof {
            assert(key@.take(i + 1).drop_last() =~= key@.take(i as int));
            assert(key@.take(i + 1).last() == key@[i as int]);
        }
        i = i + 1;
    }
    assert(key@.take(key@.len() as int) =~= key@);
    let c = (h % (width as u64)) as usize;
    assert(c == col_of(row, width as nat, key@));
    c
}

/// Number of entries of `hist` equal to `key`: the true insertion count.
pub open spec fn key_count(hist: Seq<Seq<u8>>, key: Seq<u8>) -> nat
    decreases hist.len(),
{
    if hist.len() == 0 {
        0
    } else {
        key_count(hist.drop_last(), key) + if hist.last() == key {
            1nat
        } else {
            0nat
        }
    }
}

/// Number of entries of `hist` that `row` hashes into column `col`: the
/// exact value of the counter at that position after inserting `hist`.
pub open spec fn cell_count(hist: Seq<Seq<u8>>, row: u64, width: nat, col: nat) -> nat
    decreases hist.len(),
{
    if hist.len() == 0 {
        0
    } else {
        cell_count(hist.drop_last(), row, width, col) + if col_of(row, width, hist.last())
            == col {
            1nat
        } else {
            0nat
        }
    }
}

/// The counter that `key` selects in `row`.
pub open spec fn cell_at(hist: Seq<Seq<u8>>, row: u64, width: nat, key: Seq<u8>) -> nat {
    cell_count(hist, row, width, col_of(row, width, key))
}

pub open spec fn min_nat(a: nat, b: nat) -> nat {
    if a <= b {
        a
    } else {
        b
    }
}

/// The sketch's estimate for `key`: the minimum, over the first `depth`
/// rows, of the counter that `key` selects in each row.
pub open spec fn est(hist: Seq<Seq<u8>>, depth: int, width: nat, key: Seq<u8>) -> nat
    decreases depth,
{
    if depth <= 0 {
        0
    } else if depth == 1 {
        cell_at(hist, 0, width, key)
    } else {
        min_nat(est(hist, depth - 1, width, key), cell_at(hist, (depth - 1) as u64, width, key))
    }
}

proof fn lemma_cell_count_push(hist: Seq<Seq<u8>>, key: Seq<u8>, row: u64, width: nat, col: nat)
    ensures
        cell_count(hist.push(key), row, width, col) == cell_count(hist, row, width, col)
            + if col_of(row, width, key) == col {
            1nat
        } else {
            0nat
        },
{
    assert(hist.push(key).drop_last() =~= hist);
    assert(hist.push(key).last() == key);
}

proof fn lemma_key_count_push(hist: Seq<Seq<u8>>, last: Seq<u8>, key: Seq<u8>)
    ensures
        key_count(hist.push(last), key) == key_count(hist, key) + if last == key {
            1nat
        } else {
            0nat
        },
{
    assert(hist.push(last).drop_last() =~= hist);
    assert(hist.push(last).last() == last);
}

proof fn lemma_cell_count_le_len(hist: Seq<Seq<u8>>, row: u64, width: nat, col: nat)
    ensures
        cell_count(hist, row, width, col) <= hist.len(),
    decreases hist.len(),
{
    if hist.len() > 0 {
        lemma_cell_count_le_len(hist.drop_last(), row, width, col);
    }
}

proof fn lemma_cell_at_ge_key_count(hist: Seq<Seq<u8>>, row: u64, width: nat, key: Seq<u8>)
    ensures
        cell_at(hist, row, width, key) >= key_count(hist, key),
    decreases hist.len(),
{
    if hist.len() > 0 {
        lemma_cell_at_ge_key_count(hist.drop_last(), row, width, key);
    }
}

/// Law: the estimator never undercounts.  For every sequence `hist` of
/// insertions, the estimate for `key` is at least the number of times `key`
/// was inserted.
pub proof fn lemma_no_undercount(hist: Seq<Seq<u8>>, depth: int, width: nat, key: Seq<u8>)
    requires
        depth >= 1,
        width >= 1,
    ensures
        est(hist, depth, width, key) >= key_count(hist, key),
    decreases depth,
{
    if depth == 1 {
        lemma_cell_at_ge_key_count(hist, 0, width, key);
    } else {
        lemma_no_undercount(hist, depth - 1, width, key);
        lemma_cell_at_ge_key_count(hist, (depth - 1) as u64, width, key);
    }
}

/// The estimate can never exceed the total number of insertions.
pub proof fn lemma_est_le_len(hist: Seq<Seq<u8>>, depth: int, width: nat, key: Seq<u8>)
    requires
        depth >= 1,
        width >= 1,
    ensures
        est(hist, depth, width, key) <= hist.len(),
    decreases depth,
{
    if depth == 1 {
        lemma_cell_count_le_len(hist, 0, width, col_of(0, width, key));
    } else {
        lemma_est_le_len(hist, depth - 1, width, key);
    }
}

/// Inserting a key raises that key's estimate by exactly one.
pub proof fn lemma_est_push_same(hist: Seq<Seq<u8>>, depth: int, width: nat, key: Seq<u8>)
    requires
        depth >= 1,
        width >= 1,
    ensures
        est(hist.push(key), depth, width, key) == est(hist, depth, width, key) + 1,
    decreases depth,
{
    if depth == 1 {
        lemma_cell_count_push(hist, key, 0, width, col_of(0, width, key));
    } else {
        lemma_est_push_same(hist, depth - 1, width, key);
        lemma_cell_count_push(
            hist,
            key,
            (depth - 1) as u64,
            width,
            col_of((depth - 1) as u64, width, key),
        );
    }
}

/// A fresh sketch estimates zero for every key.
pub proof fn lemma_est_empty(depth: int, width: nat, key: Seq<u8>)
    ensures
        est(Seq::<Seq<u8>>::empty(), depth, width, key) == 0,
    decreases depth,
{
    if depth > 1 {
        lemma_est_empty(depth - 1, width, key);
    }
}

/// A count-min sketch.  `rows` is the counter table; `hist` is the ghost
/// record of every key inserted so far, against which the counters are
/// exact: each counter equals the number of past insertions hashing there.
pub struct CountMinSketch {
    pub depth: usize,
    pub width: usize,
    pub rows: Vec<Vec<u64>>,
    pub items: u64,
    pub hist: Ghost<Seq<Seq<u8>>>,
}

impl CountMinSketch {
    pub open spec fn wf(self) -> bool {
        &&& 1 <= self.depth
        &&& 1 <= self.width
        &&& self.rows@.len() == self.depth
        &&& (forall|r: int|
            0 <= r < self.depth ==> (#[trigger] self.rows@[r])@.len() == self.width)
        &&& (forall|r: int, c: int|
            0 <= r < self.depth && 0 <= c < self.width ==> (#[trigger] self.rows@[r]@[c]) as nat
                == cell_count(self.hist@, r as u64, self.width as nat, c as nat))
        &&& self.items as nat == self.hist@.len()
    }

    /// Allocates a zeroed counter table of the given dimensions.
    pub fn new(depth: usize, width: usize) -> (s: Self)
        requires
            1 <= depth,
            1 <= width,
        ensures
            s.wf(),
            s.depth == depth,
            s.width == width,
            s.hist@ =~= Seq::<Seq<u8>>::empty(),
    {
        let mut rows: Vec<Vec<u64>> = Vec::new();
        let mut r: usize = 0;
        while r < depth
            invariant
                r <= depth,
                rows@.len() == r,
                forall|i: int| 0 <= i < r ==> (#[trigger] rows@[i])@.len() == width,
                forall|i: int, c: int|
                    0 <= i < r && 0 <= c < width ==> (#[trigger] rows@[i]@[c]) == 0,
            decreases depth - r,
        {
            let mut row: Vec<u64> = Vec::new();
            let mut c: usize = 0;
            while c < width
                invariant
                    c <= width,
                    row@.len() == c,
                    forall|j: int| 0 <= j < c ==> (#[trigger] row@[j]) == 0,
                decreases width - c,
            {
                row.push(0);
                c = c + 1;
            }
            rows.push(row);
            r = r + 1;
        }
        CountMinSketch { depth, width, rows, items: 0, hist: Ghost(Seq::empty()) }
    }

    /// Inserts one occurrence of `key`: bumps the counter that `key` selects
    /// in every row.  This is the sole mutating operation and is monotonic.
    pub fn insert(&mut self, key: &[u8])
        requires
            old(self).wf(),
            old(self).items < u64::MAX,
        ensures
            final(self).wf(),
            final(self).hist@ == old(self).hist@.push(key@),
            final(self).depth == old(self).depth,
            final(self).width == old(self).width,
            final(self).items == old(self).items + 1,
    {
        let ghost old_hist = self.hist@;
        let ghost new_hist = self.hist@.push(key@);
        let mut r: usize = 0;
        while r < self.depth
            invariant
                r <= self.depth,
                1 <= self.depth,
                1 <= self.width,
                self.depth == old(self).depth,
                self.width == old(self).width,
                self.items == old(self).items,
                self.items < u64::MAX,
                self.hist == old(self).hist,
                self.hist@ == old_hist,
                new_hist == old_hist.push(key@),
                self.items as nat == old_hist.len(),
                self.rows@.len() == self.depth,
                forall|i: int|
                    0 <= i < self.depth ==> (#[trigger] self.rows@[i])@.len() == self.width,
                forall|i: int, c: int|
                    0 <= i < r && 0 <= c < self.width ==> (#[trigger] self.rows@[i]@[c]) as nat
                        == cell_count(new_hist, i as u64, self.width as nat, c as nat),
                forall|i: int, c: int|
                    r <= i < self.depth && 0 <= c < self.width ==> (#[trigger] self.rows@[i]@[c])
                        as nat == cell_count(old_hist, i as u64, self.width as nat, c as nat),
            decreases self.depth - r,
        {
            let c = hash_row(r as u64, self.width, key);
            let ghost prev_rows = self.rows@;
            let mut row = self.rows.remove(r);
            let v = row[c];
            proof {
                lemma_cell_count_le_len(old_hist, r as u64, self.width as nat, c as nat);
            }
            row[c] = v + 1;
            self.rows.insert(r, row);
            proof {
                assert(self.rows@ =~= prev_rows.update(r as int, row));
                assert forall|cc: int| 0 <= cc < self.width implies (#[trigger] row@[cc]) as nat
                    == cell_count(new_hist, r as u64, self.width as nat, cc as nat) by {
                    lemma_cell_count_push(old_hist, key@, r as u64, self.width as nat, cc as nat);
                }
            }
            r = r + 1;
        }
        self.items = self.items + 1;
        self.hist = Ghost(new_hist);
    }

    /// The approximate occurrence count for `key`: the minimum over the rows
    /// of the counter `key` selects.  Never less than the number of times
    /// `key` was inserted, never more than the total number of insertions.
    pub fn estimate(&self, key: &[u8]) -> (n: u64)
        requires
            self.wf(),
        ensures
            n as nat == est(self.hist@, self.depth as int, self.width as nat, key@),
            n as nat >= key_count(self.hist@, key@),
            n as nat <= self.hist@.len(),
    {
        let c0 = hash_row(0, self.width, key);
        let mut n: u64 = self.rows[0][c0];
        let mut r: usize = 1;
        while r < self.depth
            invariant
                1 <= r <= self.depth,
                self.wf(),
                n as nat == est(self.hist@, r as int, self.width as nat, key@),
            decreases self.depth - r,
        {
            let c = hash_row(r as u64, self.width, key);
            let v = self.rows[r][c];
            if v < n {
                n = v;
            }
            r = r + 1;
        }
        proof {
            lemma_no_undercount(self.hist@, self.depth as int, self.width as nat, key@);
            lemma_est_le_len(self.hist@, self.depth as int, self.width as nat, key@);
        }
        n
    }
}

} // verus!
