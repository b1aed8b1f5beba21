//! Facts about runs of many epochs.
use vstd::prelude::*;

verus! {

/// The leader after `k` End transitions in a committee of `n`, starting from
/// `start`, each transition moving to the next replica as `Context::succ` does.
pub open spec fn leader_after(n: u16, start: u16, k: nat) -> u16
    decreases k,
{
    if k == 0 {
        start
    } else {
        ((leader_after(n, start, (k - 1) as nat) + 1) % (n as int)) as u16
    }
}

/// Leaders rotate round-robin: after `k` End transitions the leader is
/// `(start + k) mod n`, so they come in order with no skips, and no replica
/// leads twice within any `n` consecutive epochs.
pub proof fn lemma_leader_rotation(n: u16, start: u16, k: nat)
    requires
        n > 0,
        start < n,
    ensures
        leader_after(n, start, k) == (start + k) % (n as int),
        forall|a: nat, b: nat| a < b < a + n ==> #[trigger] leader_after(n, start, a) != #[trigger] leader_after(n, start, b),
    decreases k,
{
    lemma_leader_closed_form(n, start, k);
    assert forall|a: nat, b: nat| a < b < a + n implies #[trigger] leader_after(n, start, a) != #[trigger] leader_after(n, start, b) by {
        lemma_leader_closed_form(n, start, a);
        lemma_leader_closed_form(n, start, b);
        lemma_mod_distinct(start + a, start + b, n as int);
    }
}

proof fn lemma_leader_closed_form(n: u16, start: u16, k: nat)
    requires
        n > 0,
        start < n,
    ensures
        leader_after(n, start, k) == (start + k) % (n as int),
    decreases k,
{
    if k == 0 {
        vstd::arithmetic::div_mod::lemma_small_mod(start as nat, n as nat);
    } else {
        lemma_leader_closed_form(n, start, (k - 1) as nat);
        vstd::arithmetic::div_mod::lemma_add_mod_noop_right(1, (start + k - 1) as int, n as int);
    }
}

proof fn lemma_mod_distinct(x: int, y: int, n: int)
    requires
        n > 0,
        0 <= x < y < x + n,
    ensures
        x % n != y % n,
{
    vstd::arithmetic::div_mod::lemma_fundamental_div_mod(x, n);
    vstd::arithmetic::div_mod::lemma_fundamental_div_mod(y, n);
    if x % n == y % n {
        assert(y - x == n * (y / n - x / n)) by (nonlinear_arith)
            requires
                x == n * (x / n) + x % n,
                y == n * (y / n) + y % n,
                x % n == y % n,
        ;
        if y / n - x / n >= 1 {
            assert(n * (y / n - x / n) >= n) by (nonlinear_arith)
                requires
                    n > 0,
                    y / n - x / n >= 1,
            ;
        } else {
            assert(n * (y / n - x / n) <= 0) by (nonlinear_arith)
                requires
                    n > 0,
                    y / n - x / n <= 0,
            ;
        }
    }
}

} // verus!
