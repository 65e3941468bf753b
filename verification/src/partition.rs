//! Static work partitioning: the collected item list is split into a
//! fixed number of contiguous, non-overlapping slices, one per worker,
//! preserving the original order.
//!
//! Each of the first `workers - 1` slices holds `len / workers` items;
//! the last slice absorbs the remainder. A worker count of zero, or more
//! workers than items, is rejected explicitly.

use vstd::prelude::*;
use vstd::arithmetic::div_mod::lemma_fundamental_div_mod;

verus! {

/// Size of every slice but the last.
pub open spec fn chunk_size(n: int, workers: int) -> int {
    n / workers
}

/// Move the first `n` items out of `v`.
fn take_prefix<T>(v: &mut Vec<T>, n: usize) -> (r: Vec<T>)
    requires
        n <= old(v)@.len(),
    ensures
        r@ == old(v)@.take(n as int),
        final(v)@ == old(v)@.skip(n as int),
{
    let mut out: Vec<T> = Vec::new();
    let mut j: usize = 0;
    while j < n
        invariant
            j <= n <= old(v)@.len(),
            out@ == old(v)@.take(j as int),
            v@ == old(v)@.skip(j as int),
        decreases n - j,
    {
        let x = v.remove(0);
        out.push(x);
        j = j + 1;
        proof {
            assert(v@ =~= old(v)@.skip(j as int));
            assert(out@ =~= old(v)@.take(j as int));
        }
    }
    out
}

/// Split `items` into exactly `workers` contiguous slices in order. The
/// first `workers - 1` slices hold `items.len() / workers` items each and
/// the last absorbs the remainder. Rejected (with nothing returned) when
/// `workers` is zero or exceeds the number of items.
pub fn partition<T>(items: Vec<T>, workers: usize) -> (r: Option<Vec<Vec<T>>>)
    ensures
        r is Some <==> 1 <= workers <= items@.len(),
        r matches Some(parts) ==> {
            let q = chunk_size(items@.len() as int, workers as int);
            parts@.len() == workers
                && (forall|i: int| 0 <= i < workers - 1
                    ==> #[trigger] parts@[i]@ == items@.subrange(i * q, (i + 1) * q))
                && parts@[workers - 1]@ == items@.subrange(
                    (workers - 1) * q,
                    items@.len() as int,
                )
                && (forall|i: int| 0 <= i < workers - 1 ==> #[trigger] parts@[i]@.len() == q)
                && parts@[workers - 1]@.len() == items@.len() - (workers - 1) * q
        },
        workers == 1 ==> (r matches Some(parts) ==> parts@.len() == 1 && parts@[0]@ == items@),
{
    let n: usize = items.len();
    if workers == 0 || n < workers {
        return None;
    }
    let q: usize = n / workers;
    proof {
        lemma_fundamental_div_mod(n as int, workers as int);
    }
    let ghost orig = items@;
    let ghost qi = q as int;
    let mut rest = items;
    let mut parts: Vec<Vec<T>> = Vec::new();
    let mut i: usize = 0;
    while i < workers - 1
        invariant
            1 <= workers <= n,
            n == orig.len(),
            qi == q,
            q == chunk_size(n as int, workers as int),
            (workers as int) * qi <= n,
            i <= workers - 1,
            parts@.len() == i,
            forall|m: int| 0 <= m < i
                ==> #[trigger] parts@[m]@ == orig.subrange(m * qi, (m + 1) * qi),
            rest@ == orig.subrange(i * qi, n as int),
        decreases workers - 1 - i,
    {
        proof {
            assert((i + 1) * qi == i * qi + qi) by (nonlinear_arith);
            assert((i + 1) * qi <= (workers as int) * qi) by (nonlinear_arith)
                requires
                    i + 1 <= workers as int,
                    qi >= 0,
            ;
            assert(i * qi >= 0) by (nonlinear_arith)
                requires
                    i >= 0,
                    qi >= 0,
            ;
        }
        let slice = take_prefix(&mut rest, q);
        proof {
            assert(slice@ =~= orig.subrange(i * qi, (i + 1) * qi));
            assert(rest@ =~= orig.subrange((i + 1) * qi, n as int));
        }
        parts.push(slice);
        i = i + 1;
    }
    parts.push(rest);
    proof {
        if workers == 1 {
            assert(orig.subrange(0 * qi, n as int) =~= orig);
        }
        assert forall|m: int| 0 <= m < workers - 1 implies #[trigger] parts@[m]@.len() == qi by {
            assert((m + 1) * qi == m * qi + qi) by (nonlinear_arith);
            assert(0 <= m * qi && (m + 1) * qi <= (workers as int) * qi) by (nonlinear_arith)
                requires
                    0 <= m,
                    m + 1 <= workers as int,
                    qi >= 0,
            ;
        }
        assert((workers - 1) * qi + qi == (workers as int) * qi) by (nonlinear_arith);
        assert(0 <= (workers - 1) * qi) by (nonlinear_arith)
            requires
                workers >= 1,
                qi >= 0,
        ;
    }
    Some(parts)
}

} // verus!
