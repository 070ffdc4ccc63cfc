use vstd::prelude::*;

verus! {

/// The largest number of downloads that run at the same time by default.
pub const DEFAULT_MAX_WORKERS: usize = 50;

/// The number of downloads allowed in flight at once for a batch of `n`.
pub open spec fn cap_of(maximum: nat, n: nat) -> nat {
    if maximum < n {
        maximum
    } else {
        n
    }
}

/// `ceil(n / cap)`: the number of groups of a batch of `n` with cap `cap`.
pub open spec fn groups_of(n: nat, cap: nat) -> nat {
    if cap == 0 {
        0
    } else {
        ((n + cap - 1) as nat) / cap
    }
}

/// Index of the first task of group `g`.
pub open spec fn group_start(cap: nat, g: nat) -> nat {
    g * cap
}

/// One past the index of the last task of group `g` in a batch of `n`.
pub open spec fn group_end(n: nat, cap: nat, g: nat) -> nat {
    if (g + 1) * cap < n {
        (g + 1) * cap
    } else {
        n
    }
}

/// The concurrency cap `min(maximum, n)` of a batch of `n` tasks.
pub fn concurrency_cap(maximum: usize, n: usize) -> (r: usize)
    requires
        maximum > 0,
    ensures
        r as nat == cap_of(maximum as nat, n as nat),
        r <= maximum,
        r <= n,
        r == 0 <==> n == 0,
{
    if maximum < n {
        maximum
    } else {
        n
    }
}

/// The number of groups, `ceil(n / cap)`, that a batch of `n` tasks falls into.
pub fn group_count(n: usize, cap: usize) -> (r: usize)
    requires
        cap > 0 || n == 0,
    ensures
        r as nat == groups_of(n as nat, cap as nat),
{
    if cap == 0 {
        0
    } else {
        let q = n / cap;
        proof {
            let nn = n as int;
            let c = cap as int;
            assert(nn == c * (nn / c) + nn % c) by (nonlinear_arith)
                requires
                    c > 0,
            ;
            if nn % c == 0 {
                assert((nn + c - 1) / c == nn / c) by (nonlinear_arith)
                    requires
                        c > 0,
                        nn % c == 0,
                        nn >= 0,
                ;
            } else {
                assert((nn + c - 1) / c == nn / c + 1) by (nonlinear_arith)
                    requires
                        c > 0,
                        nn % c != 0,
                        nn >= 0,
                ;
                assert(nn / c < nn) by (nonlinear_arith)
                    requires
                        c > 0,
                        nn % c > 0,
                        nn == c * (nn / c) + nn % c,
                        nn >= 0,
                ;
            }
        }
        let r: usize = if n % cap == 0 {
            q
        } else {
            q + 1
        };
        r
    }
}

/// The tasks `[start, end)` of group `g` of a batch of `n` with cap `cap`.
pub fn group_bounds(n: usize, cap: usize, g: usize) -> (r: (usize, usize))
    requires
        cap > 0,
        g < groups_of(n as nat, cap as nat),
    ensures
        r.0 as nat == group_start(cap as nat, g as nat),
        r.1 as nat == group_end(n as nat, cap as nat, g as nat),
{
    proof {
        lemma_groups_partition(n as nat, cap as nat);
        assert(group_start(cap as nat, g as nat) < n);
    }
    let start = g * cap;
    let end = if n - start > cap {
        start + cap
    } else {
        n
    };
    proof {
        assert((g + 1) * cap == g * cap + cap) by (nonlinear_arith);
    }
    (start, end)
}

/// Partitioning a batch of `n` tasks with cap `cap` gives `ceil(n / cap)`
/// consecutive groups that cover the batch in order; every group but the last
/// holds exactly `cap` tasks, and the last holds between 1 and `cap`.
pub proof fn lemma_groups_partition(n: nat, cap: nat)
    requires
        cap > 0,
    ensures
        n == 0 ==> groups_of(n, cap) == 0,
        n > 0 ==> group_end(n, cap, (groups_of(n, cap) - 1) as nat) == n,
        forall|g: nat|
            g + 1 < groups_of(n, cap) ==> #[trigger] group_end(n, cap, g) - group_start(cap, g)
                == cap && group_end(n, cap, g) == group_start(cap, g + 1),
        n > 0 ==> 1 <= group_end(n, cap, (groups_of(n, cap) - 1) as nat) - group_start(
            cap,
            (groups_of(n, cap) - 1) as nat,
        ) <= cap,
        forall|g: nat| g < groups_of(n, cap) ==> #[trigger] group_start(cap, g) < n,
{
    let k = groups_of(n, cap);
    assert(k * cap < n + cap && n <= k * cap) by (nonlinear_arith)
        requires
            k == (n + cap - 1) as nat / cap,
            cap > 0,
    ;
    assert forall|g: nat| g + 1 < k implies #[trigger] group_end(n, cap, g) - group_start(cap, g)
        == cap && group_end(n, cap, g) == group_start(cap, g + 1) by {
        assert((g + 1) * cap <= (k - 1) * cap) by (nonlinear_arith)
            requires
                g + 1 <= k - 1,
        ;
        assert((k - 1) * cap == k * cap - cap) by (nonlinear_arith);
        assert((g + 1) * cap == g * cap + cap) by (nonlinear_arith);
    }
    assert forall|g: nat| g < k implies #[trigger] group_start(cap, g) < n by {
        assert(g * cap <= (k - 1) * cap) by (nonlinear_arith)
            requires
                g <= k - 1,
        ;
        assert((k - 1) * cap == k * cap - cap) by (nonlinear_arith);
    }
    if n > 0 {
        assert(k >= 1) by (nonlinear_arith)
            requires
                k == (n + cap - 1) as nat / cap,
                cap > 0,
                n > 0,
        ;
        assert((k - 1) * cap == k * cap - cap) by (nonlinear_arith);
        assert(((k - 1) as nat + 1) * cap == k * cap) by (nonlinear_arith)
            requires
                k >= 1,
        ;
    } else {
        assert(k == 0) by (nonlinear_arith)
            requires
                k == (n + cap - 1) as nat / cap,
                cap > 0,
                n == 0,
        ;
    }
}

} // verus!
