use vstd::prelude::*;
use vstd::arithmetic::div_mod::lemma_fundamental_div_mod;
use rand::seq::SliceRandom;

use crate::config::Config;

verus! {

/// Whether a read of `c.read_len` bytes at candidate index `i` fits in a file.
pub open spec fn candidate_fits(c: Config, i: int) -> bool {
    i * c.far_stride + c.read_len <= c.file_size
}

/// One past the largest candidate index whose read fits, or 0 when no read fits.
pub open spec fn fit_limit(c: Config) -> int {
    if c.read_len > c.file_size {
        0
    } else {
        (c.file_size - c.read_len) / (c.far_stride as int) + 1
    }
}

/// How many candidate offsets a configuration yields: the indices in
/// `far_first..far_end` whose read fits in the file.
pub open spec fn candidate_count(c: Config) -> nat {
    let hi = if c.far_end < fit_limit(c) { c.far_end as int } else { fit_limit(c) };
    if hi <= c.far_first {
        0
    } else {
        (hi - c.far_first) as nat
    }
}

/// The far-read candidates in increasing order: `i * far_stride` for each
/// index `i` counted by `candidate_count`.
pub open spec fn candidate_offsets(c: Config) -> Seq<u64> {
    Seq::new(candidate_count(c), |j: int| ((c.far_first + j) * c.far_stride) as u64)
}

proof fn lemma_fits_below_limit(c: Config, i: int)
    requires
        c.far_stride > 0,
        i >= 0,
    ensures
        candidate_fits(c, i) <==> i < fit_limit(c),
{
    if c.read_len <= c.file_size {
        let x = c.file_size - c.read_len;
        let s = c.far_stride as int;
        lemma_fundamental_div_mod(x, s);
        let q = x / s;
        if i <= q {
            assert(i * s <= q * s) by (nonlinear_arith)
                requires
                    i <= q,
                    s > 0,
            ;
            assert(q * s == s * q) by (nonlinear_arith);
        } else {
            assert(i * s >= (q + 1) * s) by (nonlinear_arith)
                requires
                    i >= q + 1,
                    s > 0,
            ;
            assert((q + 1) * s == s * q + s) by (nonlinear_arith);
        }
    } else {
        assert(i * c.far_stride >= 0) by (nonlinear_arith)
            requires
                i >= 0,
                c.far_stride > 0,
        ;
    }
}

/// Every candidate offset lies between the first candidate and the last
/// offset at which a whole read fits: `o + read_len <= file_size`.
pub proof fn lemma_candidates_in_bounds(c: Config)
    requires
        c.far_stride > 0,
    ensures
        forall|j: int|
            0 <= j < candidate_offsets(c).len() ==> {
                let o = #[trigger] candidate_offsets(c)[j];
                &&& c.far_first * c.far_stride <= o
                &&& o + c.read_len <= c.file_size
            },
{
    assert forall|j: int| 0 <= j < candidate_offsets(c).len() implies {
        let o = #[trigger] candidate_offsets(c)[j];
        &&& c.far_first * c.far_stride <= o
        &&& o + c.read_len <= c.file_size
    } by {
        let i = c.far_first + j;
        lemma_fits_below_limit(c, i);
        assert(c.far_first * c.far_stride <= i * c.far_stride) by (nonlinear_arith)
            requires
                c.far_first <= i,
        ;
    }
}

/// The candidates strictly increase, so none repeats.
pub proof fn lemma_candidates_increasing(c: Config)
    requires
        c.far_stride > 0,
    ensures
        forall|a: int, b: int|
            0 <= a < b < candidate_offsets(c).len() ==> candidate_offsets(c)[a]
                < candidate_offsets(c)[b],
        candidate_offsets(c).no_duplicates(),
{
    lemma_candidates_in_bounds(c);
    assert forall|a: int, b: int| 0 <= a < b < candidate_offsets(c).len() implies candidate_offsets(
        c,
    )[a] < candidate_offsets(c)[b] by {
        let ia = c.far_first + a;
        let ib = c.far_first + b;
        lemma_fits_below_limit(c, ia);
        lemma_fits_below_limit(c, ib);
        assert(ia * c.far_stride < ib * c.far_stride) by (nonlinear_arith)
            requires
                ia < ib,
                c.far_stride > 0,
        ;
        assert(candidate_offsets(c)[a] + c.read_len <= c.file_size);
        assert(candidate_offsets(c)[b] + c.read_len <= c.file_size);
        assert(ia * c.far_stride >= 0) by (nonlinear_arith)
            requires
                ia >= 0,
        ;
    }
}

/// Builds the far-read candidates of a configuration, in increasing order.
pub fn far_candidates(c: &Config) -> (r: Vec<u64>)
    requires
        c.far_stride > 0,
    ensures
        r@ == candidate_offsets(*c),
{
    let mut r: Vec<u64> = Vec::new();
    let mut i: u64 = c.far_first;
    let ghost hi: int = if c.far_end < fit_limit(*c) { c.far_end as int } else { fit_limit(*c) };
    while i < c.far_end
        invariant
            c.far_first <= i,
            c.far_first <= c.far_end ==> i <= c.far_end,
            c.far_stride > 0,
            hi == (if c.far_end < fit_limit(*c) { c.far_end as int } else { fit_limit(*c) }),
            i <= hi || i == c.far_first,
            r@ =~= Seq::new(
                (i - c.far_first) as nat,
                |j: int| ((c.far_first + j) * c.far_stride) as u64,
            ),
        ensures
            c.far_first <= i,
            i <= hi || i == c.far_first,
            i >= c.far_end || !candidate_fits(*c, i as int),
            r@ =~= Seq::new(
                (i - c.far_first) as nat,
                |j: int| ((c.far_first + j) * c.far_stride) as u64,
            ),
        decreases c.far_end - i,
    {
        proof {
            lemma_fits_below_limit(*c, i as int);
        }
        let off = match i.checked_mul(c.far_stride) {
            Some(o) => o,
            None => {
                break ;
            },
        };
        if c.read_len > c.file_size || off > c.file_size - c.read_len {
            proof {
                assert(i * c.far_stride >= 0) by (nonlinear_arith)
                    requires
                        i >= 0,
                ;
            }
            break ;
        }
        r.push(off);
        i = i + 1;
    }
    proof {
        lemma_fits_below_limit(*c, i as int);
        assert(r@ =~= candidate_offsets(*c));
    }
    r
}

/// The number of far-read candidates of a configuration.
pub fn count_candidates(c: &Config) -> (r: u64)
    requires
        c.far_stride > 0,
    ensures
        r == candidate_count(*c),
{
    if c.read_len > c.file_size {
        return 0;
    }
    let limit: u128 = ((c.file_size - c.read_len) / c.far_stride) as u128 + 1;
    assert(limit == fit_limit(*c));
    let hi: u128 = if (c.far_end as u128) < limit { c.far_end as u128 } else { limit };
    if hi <= c.far_first as u128 {
        0
    } else {
        assert(hi - c.far_first <= u64::MAX) by {
            vstd::arithmetic::div_mod::lemma_div_is_ordered_by_denominator(
                (c.file_size - c.read_len) as int,
                1,
                c.far_stride as int,
            );
        }
        (hi - c.far_first as u128) as u64
    }
}

/// Relies on rand's `SliceRandom::shuffle` with the thread-local generator:
/// a Fisher–Yates pass of swaps, so the result is a permutation of the input.
#[verifier::external_body]
fn shuffle_offsets(v: &mut Vec<u64>)
    ensures
        final(v)@.len() == old(v)@.len(),
        final(v)@.to_multiset() == old(v)@.to_multiset(),
{
    v.shuffle(&mut rand::thread_rng());
}

/// Takes the first `k` offsets of a shuffled candidate list, or all of them
/// when there are fewer.
pub fn take_samples(shuffled: &Vec<u64>, k: u64) -> (r: Vec<u64>)
    ensures
        r@ == shuffled@.take(if (k as int) < shuffled@.len() { k as int } else { shuffled@.len() as int }),
{
    let n: usize = if (k as u128) < (shuffled.len() as u128) { k as usize } else { shuffled.len() };
    let mut r: Vec<u64> = Vec::new();
    let mut i: usize = 0;
    while i < n
        invariant
            n <= shuffled@.len(),
            i <= n,
            r@ =~= shuffled@.take(i as int),
        decreases n - i,
    {
        r.push(shuffled[i]);
        i = i + 1;
    }
    assert(r@ =~= shuffled@.take(n as int));
    r
}

/// Chooses the far-read offsets of one probe: a uniformly random selection
/// of `far_samples` distinct candidates, or all candidates in random order
/// when there are fewer. Each call draws a fresh permutation.
pub fn pick_far_offsets(c: &Config) -> (r: Vec<u64>)
    requires
        c.far_stride > 0,
    ensures
        r@.len() == if (c.far_samples as int) < candidate_count(*c) {
            c.far_samples as int
        } else {
            candidate_count(*c) as int
        },
        r@.no_duplicates(),
        forall|k: int| 0 <= k < r@.len() ==> candidate_offsets(*c).contains(#[trigger] r@[k]),
        forall|k: int|
            0 <= k < r@.len() ==> c.far_first * c.far_stride <= #[trigger] r@[k] && r@[k]
                + c.read_len <= c.file_size,
{
    let mut v = far_candidates(c);
    let ghost cands = v@;
    shuffle_offsets(&mut v);
    let r = take_samples(&v, c.far_samples);
    proof {
        broadcast use vstd::seq_lib::group_to_multiset_ensures;
        lemma_candidates_increasing(*c);
        lemma_candidates_in_bounds(*c);
        cands.lemma_multiset_has_no_duplicates();
        v@.lemma_multiset_has_no_duplicates_conv();
        assert forall|k: int| 0 <= k < r@.len() implies cands.contains(#[trigger] r@[k]) by {
            assert(v@.contains(v@[k]));
            assert(v@.to_multiset().count(v@[k]) > 0);
        }
        assert forall|k: int| 0 <= k < r@.len() implies c.far_first * c.far_stride <= #[trigger] r@[k]
            && r@[k] + c.read_len <= c.file_size by {
            assert(cands.contains(r@[k]));
        }
    }
    r
}

} // verus!
