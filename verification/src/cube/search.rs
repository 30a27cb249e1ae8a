//! Spec-level model of the exhaustive search driver: the hinge
//! transformation of one counter step, its iteration, and the two facts the
//! driver rests on — one full sweep of `4^(corners - 1)` steps returns every
//! hinge to its start, and no two states within one sweep coincide.
//!
//! Corner 0 is deliberately never rotated: enumerating every combination of
//! the remaining corners relative to a fixed first corner covers all
//! configurations up to a global symmetry, avoiding a redundant fourfold
//! blow-up of the sweep.

use vstd::prelude::*;
use vstd::arithmetic::div_mod::{
    lemma_div_basics, lemma_div_by_multiple, lemma_div_denominator, lemma_fundamental_div_mod,
    lemma_fundamental_div_mod_converse, lemma_mod_multiples_basic, lemma_mod_pos_bound,
};
use crate::vecs::{
    is_unit2, lemma_rot2_iter_add, lemma_rot2_iter_distinct, lemma_rot2_iter_mod, rot2, rot2_iter,
};
use crate::cube::pow4;

verus! {

/// The hinge transformation of one `rotate_one` call made at counter value
/// `t`, applied to the sequence of corner hinges: corner `k >= 1` is rotated
/// one quarter turn exactly when `t` is a multiple of `4^(len - 1 - k)`;
/// corner 0 is never rotated.
pub open spec fn step_hinges(hs: Seq<(int, int)>, t: nat) -> Seq<(int, int)> {
    Seq::new(
        hs.len(),
        |k: int|
            if 1 <= k && t % pow4((hs.len() - 1 - k) as nat) == 0 {
                rot2(hs[k])
            } else {
                hs[k]
            },
    )
}

/// The corner hinges after `steps` consecutive calls, the first made at
/// counter value `t`.
pub open spec fn run_hinges(hs: Seq<(int, int)>, t: nat, steps: nat) -> Seq<(int, int)>
    decreases steps,
{
    if steps == 0 {
        hs
    } else {
        run_hinges(step_hinges(hs, t), t + 1, (steps - 1) as nat)
    }
}

/// `pow4` is strictly positive.
pub proof fn lemma_pow4_pos(n: nat)
    ensures
        pow4(n) >= 1,
    decreases n,
{
    if n > 0 {
        lemma_pow4_pos((n - 1) as nat);
    }
}

/// `4^(a+b) == 4^a * 4^b`.
pub proof fn lemma_pow4_add(a: nat, b: nat)
    ensures
        pow4(a + b) == pow4(a) * pow4(b),
    decreases a,
{
    if a > 0 {
        lemma_pow4_add((a - 1) as nat, b);
        let p = pow4((a - 1) as nat);
        let q = pow4(b);
        assert(pow4(a + b) == 4 * pow4((a + b - 1) as nat));
        assert(pow4(a) == 4 * pow4((a - 1) as nat));
        assert(((a - 1) as nat) + b == (a + b - 1) as nat);
        assert(pow4((a + b - 1) as nat) == p * q);
        assert(pow4(a + b) == 4 * (p * q));
        assert(4 * (p * q) == (4 * p) * q) by (nonlinear_arith);
        assert(pow4(a) * pow4(b) == (4 * p) * q);
    } else {
        let q = pow4(b);
        assert(pow4(a) == 1);
        assert(pow4(a + b) == q);
        assert(1nat * q == q) by (nonlinear_arith);
    }
}

/// Peeling the last step off a run: `steps + 1` calls from `t` are `steps`
/// calls from `t` followed by one call at counter value `t + steps`.
proof fn lemma_run_snoc(hs: Seq<(int, int)>, t: nat, steps: nat)
    ensures
        run_hinges(hs, t, steps + 1) == step_hinges(run_hinges(hs, t, steps), t + steps),
    decreases steps,
{
    reveal_with_fuel(run_hinges, 3);
    if steps > 0 {
        lemma_run_snoc(step_hinges(hs, t), t + 1, (steps - 1) as nat);
    }
}

/// A run keeps the number of corners.
proof fn lemma_run_len(hs: Seq<(int, int)>, t: nat, steps: nat)
    ensures
        run_hinges(hs, t, steps).len() == hs.len(),
    decreases steps,
{
    if steps > 0 {
        lemma_run_len(step_hinges(hs, t), t + 1, (steps - 1) as nat);
    }
}

/// What a run does to each corner: after `k` calls starting at counter
/// value 1, corner `ci >= 1` has been rotated exactly `k / 4^(len - 1 - ci)`
/// times, and corner 0 never.
pub proof fn lemma_run_at(hs: Seq<(int, int)>, k: nat, ci: int)
    requires
        0 <= ci < hs.len(),
    ensures
        run_hinges(hs, 1, k).len() == hs.len(),
        ci == 0 ==> run_hinges(hs, 1, k)[ci] == hs[ci],
        ci >= 1 ==> run_hinges(hs, 1, k)[ci] == rot2_iter(
            hs[ci],
            k / pow4((hs.len() - 1 - ci) as nat),
        ),
    decreases k,
{
    lemma_run_len(hs, 1, k);
    let m = pow4((hs.len() - 1 - ci) as nat);
    lemma_pow4_pos((hs.len() - 1 - ci) as nat);
    if k == 0 {
        lemma_div_basics(m as int);
        assert(0nat / m == 0);
    } else {
        let k0 = (k - 1) as nat;
        lemma_run_snoc(hs, 1, k0);
        assert(run_hinges(hs, 1, k) == step_hinges(run_hinges(hs, 1, k0), 1 + k0));
        lemma_run_at(hs, k0, ci);
        if ci >= 1 {
            let h = hs[ci];
            let q = k0 / m;
            let r = k0 % m;
            lemma_fundamental_div_mod(k0 as int, m as int);
            lemma_mod_pos_bound(k0 as int, m as int);
            assert(k0 == m * q + r);
            lemma_rot2_iter_add(h, q, 1);
            assert(rot2_iter(rot2_iter(h, q), 1) == rot2(rot2_iter(h, q))) by {
                reveal_with_fuel(rot2_iter, 3);
            }
            if r == m - 1 {
                assert(k == m * (q + 1) + 0) by (nonlinear_arith)
                    requires
                        k == k0 + 1,
                        k0 == m * q + r,
                        r == m - 1,
                ;
                lemma_fundamental_div_mod_converse(k as int, m as int, (q + 1) as int, 0);
                assert(k % m == 0);
                assert(k / m == q + 1);
                assert(run_hinges(hs, 1, k)[ci] == rot2(rot2_iter(h, q)));
                assert(rot2_iter(h, q + 1) == rot2(rot2_iter(h, q)));
            } else {
                assert(k == m * q + (r + 1));
                lemma_fundamental_div_mod_converse(k as int, m as int, q as int, (r + 1) as int);
                assert(k % m == r + 1);
                assert(k / m == q);
                assert(run_hinges(hs, 1, k)[ci] == run_hinges(hs, 1, k0)[ci]);
            }
        }
    }
}

/// One full sweep of the counter — `4^(corners - 1)` calls starting at
/// counter value 1 — returns every corner hinge to its starting state.
pub proof fn lemma_search_period(hs: Seq<(int, int)>)
    requires
        hs.len() >= 1,
    ensures
        run_hinges(hs, 1, pow4((hs.len() - 1) as nat)) == hs,
{
    let n = (hs.len() - 1) as nat;
    let k = pow4(n);
    lemma_run_len(hs, 1, k);
    assert forall|ci: int| 0 <= ci < hs.len() implies run_hinges(hs, 1, k)[ci] == hs[ci] by {
        lemma_run_at(hs, k, ci);
        if ci >= 1 {
            let e = (hs.len() - 1 - ci) as nat;
            let m = pow4(e);
            lemma_pow4_pos(e);
            lemma_pow4_add(ci as nat, e);
            assert(ci as nat + e == n);
            assert(k == pow4(ci as nat) * m);
            lemma_div_by_multiple(pow4(ci as nat) as int, m as int);
            assert(k / m == pow4(ci as nat));
            assert(pow4(ci as nat) == 4 * pow4((ci - 1) as nat));
            lemma_mod_multiples_basic(pow4((ci - 1) as nat) as int, 4);
            assert(pow4((ci - 1) as nat) as int * 4 == 4 * pow4((ci - 1) as nat)) by (nonlinear_arith);
            assert(pow4(ci as nat) % 4 == 0);
            lemma_rot2_iter_mod(hs[ci], pow4(ci as nat));
        }
    }
    assert(run_hinges(hs, 1, k) =~= hs);
}

/// Two distinct counter values below `4^n` differ in some base-4 digit.
proof fn lemma_digits_differ(k1: nat, k2: nat, n: nat)
    requires
        k1 < k2 < pow4(n),
    ensures
        exists|j: nat| j < n && (k1 / pow4(j)) % 4 != (k2 / pow4(j)) % 4,
    decreases n,
{
    assert(n >= 1);
    if k1 % 4 != k2 % 4 {
        lemma_div_basics(k1 as int);
        lemma_div_basics(k2 as int);
        assert(k1 / pow4(0) == k1);
        assert(k2 / pow4(0) == k2);
        assert(0nat < n && (k1 / pow4(0nat)) % 4 != (k2 / pow4(0nat)) % 4);
    } else {
        let q1 = k1 / 4;
        let q2 = k2 / 4;
        lemma_fundamental_div_mod(k1 as int, 4);
        lemma_fundamental_div_mod(k2 as int, 4);
        lemma_mod_pos_bound(k1 as int, 4);
        lemma_mod_pos_bound(k2 as int, 4);
        assert(pow4(n) == 4 * pow4((n - 1) as nat));
        assert(q1 < q2 < pow4((n - 1) as nat));
        lemma_digits_differ(q1, q2, (n - 1) as nat);
        let jp = choose|j: nat| j < n - 1 && (q1 / pow4(j)) % 4 != (q2 / pow4(j)) % 4;
        lemma_pow4_pos(jp);
        lemma_div_denominator(k1 as int, 4, pow4(jp) as int);
        lemma_div_denominator(k2 as int, 4, pow4(jp) as int);
        assert(pow4(jp + 1) == 4 * pow4(jp));
        assert(k1 / pow4(jp + 1) == q1 / pow4(jp));
        assert(k2 / pow4(jp + 1) == q2 / pow4(jp));
        assert(jp + 1 < n && (k1 / pow4(jp + 1)) % 4 != (k2 / pow4(jp + 1)) % 4);
    }
}

/// Within one full sweep the counter never revisits a hinge configuration:
/// runs of two distinct lengths below `4^(corners - 1)` end in distinct
/// states.
pub proof fn lemma_search_distinct(hs: Seq<(int, int)>, k1: nat, k2: nat)
    requires
        hs.len() >= 1,
        forall|ci: int| 0 <= ci < hs.len() ==> is_unit2(#[trigger] hs[ci]),
        k1 < k2 < pow4((hs.len() - 1) as nat),
    ensures
        run_hinges(hs, 1, k1) != run_hinges(hs, 1, k2),
{
    lemma_digits_differ(k1, k2, (hs.len() - 1) as nat);
    let j = choose|j: nat| j < hs.len() - 1 && (k1 / pow4(j)) % 4 != (k2 / pow4(j)) % 4;
    let ci = hs.len() - 1 - j;
    assert(1 <= ci < hs.len());
    lemma_run_at(hs, k1, ci as int);
    lemma_run_at(hs, k2, ci as int);
    let m = pow4(j);
    assert((hs.len() - 1 - ci as int) as nat == j);
    let a1 = k1 / m;
    let a2 = k2 / m;
    lemma_rot2_iter_mod(hs[ci as int], a1);
    lemma_rot2_iter_mod(hs[ci as int], a2);
    lemma_rot2_iter_distinct(hs[ci as int], a1 % 4, a2 % 4);
    assert(run_hinges(hs, 1, k1)[ci as int] != run_hinges(hs, 1, k2)[ci as int]);
}

} // verus!
