//! Pairs of sites over which pairwise statistics run.

use vstd::prelude::*;

verus! {

/// Pairs `(i, j)` with `j` running from `i + 1` up to `n_sites - 1`.
pub open spec fn row_pairs(i: int, n_sites: int) -> Seq<(usize, usize)> {
    Seq::new((n_sites - i - 1) as nat, |k: int| (i as usize, (i + 1 + k) as usize))
}

/// All pairs `(i, j)` with `first <= i < j < n_sites`, ordered by `i` and then by `j`.
pub open spec fn pairs_from(first: int, n_sites: int) -> Seq<(usize, usize)>
    decreases n_sites - first,
{
    if first >= n_sites {
        Seq::empty()
    } else {
        row_pairs(first, n_sites) + pairs_from(first + 1, n_sites)
    }
}

/// The unordered pairs of `n_sites` sites, each once, in lexicographic order.
pub open spec fn site_pair_seq(n_sites: nat) -> Seq<(usize, usize)> {
    pairs_from(0, n_sites as int)
}

/// `p` comes strictly before `q` in lexicographic order.
pub open spec fn pair_lt(p: (usize, usize), q: (usize, usize)) -> bool {
    p.0 < q.0 || (p.0 == q.0 && p.1 < q.1)
}

/// Lists every pair of distinct sites `(i, j)` with `i < j < n_sites`,
/// ordered first by `i`, then by `j`.
pub fn site_pairs(n_sites: usize) -> (r: Vec<(usize, usize)>)
    ensures
        r@ == site_pair_seq(n_sites as nat),
{
    let mut out: Vec<(usize, usize)> = Vec::new();
    let mut i: usize = 0;
    while i < n_sites
        invariant
            i <= n_sites,
            out@ + pairs_from(i as int, n_sites as int) =~= pairs_from(0, n_sites as int),
        decreases n_sites - i,
    {
        let ghost start = out@;
        let mut j: usize = i + 1;
        while j < n_sites
            invariant
                i < n_sites,
                i + 1 <= j <= n_sites,
                out@ =~= start + row_pairs(i as int, n_sites as int).take(j - i - 1),
            decreases n_sites - j,
        {
            out.push((i, j));
            proof {
                assert(row_pairs(i as int, n_sites as int).take(j - i) =~= row_pairs(
                    i as int,
                    n_sites as int,
                ).take(j - i - 1).push((i, j)));
            }
            j = j + 1;
        }
        proof {
            assert(row_pairs(i as int, n_sites as int).take(n_sites - i - 1) =~= row_pairs(
                i as int,
                n_sites as int,
            ));
            assert(pairs_from(i as int, n_sites as int) == row_pairs(i as int, n_sites as int)
                + pairs_from(i + 1, n_sites as int));
        }
        i = i + 1;
    }
    out
}

proof fn lemma_pairs_from_len(first: int, n_sites: int)
    requires
        0 <= first <= n_sites,
    ensures
        2 * pairs_from(first, n_sites).len() == (n_sites - first) * (n_sites - first - 1),
    decreases n_sites - first,
{
    if first < n_sites {
        lemma_pairs_from_len(first + 1, n_sites);
        let m = n_sites - first;
        assert(pairs_from(first, n_sites).len() == (m - 1) + pairs_from(first + 1, n_sites).len());
        assert(2 * (m - 1) + (m - 1) * (m - 2) == m * (m - 1)) by (nonlinear_arith);
        assert((n_sites - (first + 1)) * (n_sites - (first + 1) - 1) == (m - 1) * (m - 2));
        assert((n_sites - first) * (n_sites - first - 1) == m * (m - 1));
    } else {
        let m = n_sites - first;
        assert(m == 0);
        assert(m * (m - 1) == 0) by (nonlinear_arith) requires m == 0;
    }
}

proof fn lemma_pairs_from_members(first: int, n_sites: int)
    requires
        0 <= first,
        n_sites <= usize::MAX,
    ensures
        forall|k: int|
            0 <= k < pairs_from(first, n_sites).len() ==> {
                let p = #[trigger] pairs_from(first, n_sites)[k];
                first <= p.0 < p.1 < n_sites
            },
        forall|a: usize, b: usize|
            first <= a < b < n_sites ==> #[trigger] pairs_from(first, n_sites).contains((a, b)),
    decreases n_sites - first,
{
    if first < n_sites {
        lemma_pairs_from_members(first + 1, n_sites);
        let row = row_pairs(first, n_sites);
        let rest = pairs_from(first + 1, n_sites);
        assert(pairs_from(first, n_sites) == row + rest);
        assert forall|k: int| 0 <= k < pairs_from(first, n_sites).len() implies {
            let p = #[trigger] pairs_from(first, n_sites)[k];
            first <= p.0 < p.1 < n_sites
        } by {
            if k >= row.len() {
                assert(pairs_from(first, n_sites)[k] == rest[k - row.len()]);
            }
        }
        assert forall|a: usize, b: usize| first <= a < b < n_sites implies #[trigger] pairs_from(
            first,
            n_sites,
        ).contains((a, b)) by {
            if a == first {
                assert(pairs_from(first, n_sites)[b - first - 1] == (a, b));
            } else {
                assert(rest.contains((a, b)));
                let k = choose|k: int| 0 <= k < rest.len() && rest[k] == (a, b);
                assert(pairs_from(first, n_sites)[row.len() + k] == (a, b));
            }
        }
    }
}

proof fn lemma_pairs_from_sorted(first: int, n_sites: int)
    requires
        0 <= first,
        n_sites <= usize::MAX,
    ensures
        forall|k1: int, k2: int|
            0 <= k1 < k2 < pairs_from(first, n_sites).len() ==> pair_lt(
                #[trigger] pairs_from(first, n_sites)[k1],
                #[trigger] pairs_from(first, n_sites)[k2],
            ),
    decreases n_sites - first,
{
    if first < n_sites {
        lemma_pairs_from_sorted(first + 1, n_sites);
        lemma_pairs_from_members(first + 1, n_sites);
        let row = row_pairs(first, n_sites);
        let rest = pairs_from(first + 1, n_sites);
        let all = pairs_from(first, n_sites);
        assert(all == row + rest);
        assert forall|k1: int, k2: int| 0 <= k1 < k2 < all.len() implies pair_lt(
            #[trigger] all[k1],
            #[trigger] all[k2],
        ) by {
            if k2 < row.len() {
            } else if k1 < row.len() {
                assert(all[k2] == rest[k2 - row.len()]);
            } else {
                assert(all[k1] == rest[k1 - row.len()]);
                assert(all[k2] == rest[k2 - row.len()]);
            }
        }
    }
}

/// There are `n_sites * (n_sites - 1) / 2` pairs of distinct sites: one
/// entry per unordered pair.
pub proof fn lemma_site_pair_count(n_sites: nat)
    ensures
        site_pair_seq(n_sites).len() == n_sites * (n_sites - 1) / 2,
{
    lemma_pairs_from_len(0, n_sites as int);
    let m = n_sites as int;
    assert(m * (m - 1) >= 0) by (nonlinear_arith);
}

/// A pair occurs in the list exactly when its first site comes before its
/// second and both are sites.
pub proof fn lemma_site_pair_members(n_sites: nat, a: usize, b: usize)
    requires
        n_sites <= usize::MAX,
    ensures
        site_pair_seq(n_sites).contains((a, b)) <==> a < b < n_sites,
{
    lemma_pairs_from_members(0, n_sites as int);
    if site_pair_seq(n_sites).contains((a, b)) {
        let k = choose|k: int| 0 <= k < site_pair_seq(n_sites).len() && site_pair_seq(n_sites)[k] == (a, b);
        assert(site_pair_seq(n_sites)[k] == (a, b));
    }
}

/// The list is strictly increasing in lexicographic order, so no pair
/// occurs twice.
pub proof fn lemma_site_pairs_sorted(n_sites: nat)
    requires
        n_sites <= usize::MAX,
    ensures
        forall|k1: int, k2: int|
            0 <= k1 < k2 < site_pair_seq(n_sites).len() ==> pair_lt(
                #[trigger] site_pair_seq(n_sites)[k1],
                #[trigger] site_pair_seq(n_sites)[k2],
            ),
        site_pair_seq(n_sites).no_duplicates(),
{
    lemma_pairs_from_sorted(0, n_sites as int);
    let s = site_pair_seq(n_sites);
    assert forall|k1: int, k2: int| 0 <= k1 < s.len() && 0 <= k2 < s.len() && k1 != k2 implies s[k1] != s[k2] by {
        if k1 < k2 {
            assert(pair_lt(s[k1], s[k2]));
        } else {
            assert(pair_lt(s[k2], s[k1]));
        }
    }
}

/// The site that a raw index names among `n_sites` sites, if any.
pub open spec fn spec_site_index(raw: i64, n_sites: nat) -> Option<usize> {
    if 0 <= raw < n_sites {
        Some(raw as usize)
    } else {
        None
    }
}

/// A raw index names a site exactly when it lies in `0..n_sites`, and it
/// then names the site with that very number.
pub proof fn lemma_site_index_range(raw: i64, n_sites: usize)
    ensures
        spec_site_index(raw, n_sites as nat) is Some <==> 0 <= raw < n_sites,
        spec_site_index(raw, n_sites as nat) matches Some(i) ==> i as int == raw as int,
{
}

/// A raw pair is usable exactly when both of its indices lie in `0..n_sites`.
pub proof fn lemma_raw_pair_valid_range(raw: (i64, i64), n_sites: nat)
    ensures
        raw_pair_valid(raw, n_sites) <==> (0 <= raw.0 < n_sites && 0 <= raw.1 < n_sites),
{
}

/// Both indices of a raw pair name sites.
pub open spec fn raw_pair_valid(raw: (i64, i64), n_sites: nat) -> bool {
    spec_site_index(raw.0, n_sites) is Some && spec_site_index(raw.1, n_sites) is Some
}

/// Reads a raw (signed) index as a site among `n_sites` sites: `None`
/// when it is negative or names no site.
pub fn site_index(raw: i64, n_sites: usize) -> (r: Option<usize>)
    ensures
        r == spec_site_index(raw, n_sites as nat),
        r is Some <==> 0 <= raw && raw < n_sites,
        r matches Some(i) ==> i as int == raw as int,
{
    if raw < 0 {
        None
    } else if (raw as u64) < (n_sites as u64) {
        Some(raw as usize)
    } else {
        None
    }
}

/// Reads each raw pair of indices as a pair of sites among `n_sites`
/// sites. Succeeds exactly when every index of every pair names a site,
/// and then keeps the pairs in their order.
pub fn resolve_pairs(raw: &Vec<(i64, i64)>, n_sites: usize) -> (r: Option<Vec<(usize, usize)>>)
    ensures
        r is Some <==> forall|k: int| 0 <= k < raw@.len() ==> raw_pair_valid(#[trigger] raw@[k], n_sites as nat),
        r matches Some(v) ==> v@.len() == raw@.len() && forall|k: int|
            0 <= k < raw@.len() ==> #[trigger] v@[k] == (raw@[k].0 as usize, raw@[k].1 as usize),
        r is Some <==> forall|k: int|
            0 <= k < raw@.len() ==> 0 <= #[trigger] raw@[k].0 < n_sites && 0 <= raw@[k].1 < n_sites,
        r matches Some(v) ==> forall|k: int|
            0 <= k < raw@.len() ==> #[trigger] v@[k].0 as int == raw@[k].0 as int && v@[k].1 as int
                == raw@[k].1 as int,
{
    let mut out: Vec<(usize, usize)> = Vec::new();
    let mut k: usize = 0;
    while k < raw.len()
        invariant
            k <= raw@.len(),
            out@.len() == k,
            forall|m: int| 0 <= m < k ==> raw_pair_valid(#[trigger] raw@[m], n_sites as nat),
            forall|m: int|
                0 <= m < k ==> #[trigger] out@[m] == (raw@[m].0 as usize, raw@[m].1 as usize),
        decreases raw@.len() - k,
    {
        let (a, b) = raw[k];
        match (site_index(a, n_sites), site_index(b, n_sites)) {
            (Some(i), Some(j)) => {
                out.push((i, j));
            },
            _ => {
                assert(!raw_pair_valid(raw@[k as int], n_sites as nat));
                return None;
            },
        }
        k = k + 1;
    }
    Some(out)
}

} // verus!
