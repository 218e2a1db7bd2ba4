//! Properties of the engine and its rules that hold for every grid.
use vstd::prelude::*;

use vstd::arithmetic::div_mod::{lemma_fundamental_div_mod, lemma_mod_bound, lemma_small_mod};

use crate::engine::{Engine, Rules};
use crate::grid::{lemma_column_major, CellMatrix};
use crate::rulesets::{holds_count, sum_of, GameOfLife};
use crate::CellStateType;

verus! {

/// Under the wrapping policy, every position of the neighbourhood of any
/// cell, at the edges and corners as well as inside, reads the grid at its
/// coordinates taken modulo the grid's numbers of rows and columns.
pub proof fn lemma_wrapping_neighbourhood<R: Rules>(e: &Engine<R>, r: int, c: int)
    requires
        e.wf(),
        e.mode() is Wrapping,
    ensures
        forall|i: int, j: int|
            0 <= i < e.shape().0 && 0 <= j < e.shape().1 ==> #[trigger] e.neighbourhood(r, c).at(
                i,
                j,
            ) == e.current().at(
                (r + i - e.half().0) % (e.current().nrows as int),
                (c + j - e.half().1) % (e.current().ncols as int),
            ),
{
    assert forall|i: int, j: int| 0 <= i < e.shape().0 && 0 <= j < e.shape().1 implies #[trigger] e.neighbourhood(
        r,
        c,
    ).at(i, j) == e.current().at(
        (r + i - e.half().0) % (e.current().nrows as int),
        (c + j - e.half().1) % (e.current().ncols as int),
    ) by {
        e.lemma_window_at(e.current(), r, c, i, j);
    }
}

/// A step moves an engine one generation along: when `after` holds the
/// generation that follows `before`'s, with the same rule, policy and shape,
/// `n` generations from `after` are `n + 1` from `before`. So `k` steps of a
/// running engine reach `generation(k)`.
pub proof fn lemma_step_advances<R: Rules>(before: &Engine<R>, after: &Engine<R>, n: nat)
    requires
        after.current() == before.evolve(before.current()),
        after.rule() == before.rule(),
        after.mode() == before.mode(),
        after.shape() == before.shape(),
    ensures
        after.generation(n) == before.generation(n + 1),
    decreases n,
{
    if n > 0 {
        lemma_step_advances(before, after, (n - 1) as nat);
        lemma_same_evolve(before, after, before.generation(n));
    } else {
        assert(before.generation(0) == before.current());
    }
}

/// Engines with the same rule, policy and shape evolve a grid alike.
proof fn lemma_same_evolve<R: Rules>(a: &Engine<R>, b: &Engine<R>, g: CellMatrix)
    requires
        a.rule() == b.rule(),
        a.mode() == b.mode(),
        a.shape() == b.shape(),
    ensures
        a.evolve(g) == b.evolve(g),
{
    assert forall|k: int| 0 <= k < g.cells.len() implies a.evolve(g).cells[k] == b.evolve(
        g,
    ).cells[k] by {
        let (x, y) = (k % (g.nrows as int), k / (g.nrows as int));
        assert(a.window_of(g, x, y).cells =~= b.window_of(g, x, y).cells);
    }
    assert(a.evolve(g).cells =~= b.evolve(g).cells);
}

/// Under a rule that keeps every state, the grid stays the same however many
/// generations pass.
pub proof fn lemma_identity_rule_keeps_grid<R: Rules>(e: &Engine<R>, n: nat)
    requires
        e.wf(),
        forall|w: CellMatrix, s: CellStateType| #[trigger] e.rule().next_state(w, s) == s,
    ensures
        e.generation(n) == e.current(),
    decreases n,
{
    if n > 0 {
        lemma_identity_rule_keeps_grid(e, (n - 1) as nat);
        let g = e.current();
        assert(e.evolve(g).cells =~= g.cells);
    }
}

/// `a` and `b` less than `n` apart and equal modulo `n` are equal.
proof fn lemma_mod_injective(a: int, b: int, n: int)
    requires
        n > 0,
        -n < a - b < n,
        a % n == b % n,
    ensures
        a == b,
{
    lemma_fundamental_div_mod(a, n);
    lemma_fundamental_div_mod(b, n);
    let q = a / n - b / n;
    assert(a - b == n * q) by (nonlinear_arith)
        requires
            a == n * (a / n) + a % n,
            b == n * (b / n) + b % n,
            a % n == b % n,
            q == a / n - b / n,
    ;
    assert(q == 0) by (nonlinear_arith)
        requires
            n > 0,
            -n < n * q < n,
    ;
}

proof fn lemma_sum_zero(s: Seq<CellStateType>)
    requires
        forall|t: int| 0 <= t < s.len() ==> s[t] == 0,
    ensures
        sum_of(s) == 0,
    decreases s.len(),
{
    if s.len() > 0 {
        lemma_sum_zero(s.drop_last());
    }
}

/// States of at most 1, of which at most one is not 0, sum to at most 1.
proof fn lemma_sum_at_most_one(s: Seq<CellStateType>)
    requires
        forall|t: int| 0 <= t < s.len() ==> s[t] <= 1,
        forall|t1: int, t2: int|
            0 <= t1 < s.len() && 0 <= t2 < s.len() && s[t1] != 0 && s[t2] != 0 ==> t1 == t2,
    ensures
        sum_of(s) <= 1,
    decreases s.len(),
{
    if s.len() > 0 {
        let p = s.drop_last();
        if s.last() == 0 {
            lemma_sum_at_most_one(p);
        } else {
            assert forall|t: int| 0 <= t < p.len() implies p[t] == 0 by {
                assert(s[t] == 0 || s[s.len() - 1] == 0);
            }
            lemma_sum_zero(p);
        }
    }
}

/// Under Conway's rule, a grid whose only live cell is at `(r, c)`, every
/// other cell being dead, is all dead one generation later, under either
/// boundary policy.
pub proof fn lemma_isolated_cell_dies(e: &Engine<GameOfLife>, r: int, c: int)
    requires
        e.wf(),
        e.current().in_bounds(r, c),
        e.current().at(r, c) == 1,
        forall|i: int, j: int|
            e.current().in_bounds(i, j) && (i != r || j != c) ==> #[trigger] e.current().at(i, j)
                == 0,
    ensures
        forall|k: int|
            0 <= k < e.current().cells.len() ==> #[trigger] e.evolve(e.current()).cells[k] == 0,
{
    let g = e.current();
    let (s0, s1) = e.shape();
    let (h0, h1) = e.half();
    let n0 = g.nrows as int;
    let n1 = g.ncols as int;
    assert forall|k: int| 0 <= k < g.cells.len() implies #[trigger] e.evolve(g).cells[k] == 0 by {
        lemma_column_major(k, n0, n1);
        let (x, y) = (k % n0, k / n0);
        let w = e.window_of(g, x, y);
        // Each position of the window reads 0 or 1, and 1 only where it
        // resolves to (r, c).
        assert forall|t: int| 0 <= t < w.cells.len() implies w.cells[t] <= 1 && (w.cells[t] != 0
            ==> (x + t % s0 - h0) % n0 == r && (y + t / s0 - h1) % n1 == c) by {
            lemma_column_major(t, s0, s1);
            let (a, b) = (x + t % s0 - h0, y + t / s0 - h1);
            lemma_mod_bound(a, n0);
            lemma_mod_bound(b, n1);
            if !(e.mode() is Wrapping) && g.in_bounds(a, b) {
                lemma_small_mod(a as nat, n0 as nat);
                lemma_small_mod(b as nat, n1 as nat);
            }
        }
        assert forall|t1: int, t2: int|
            0 <= t1 < w.cells.len() && 0 <= t2 < w.cells.len() && w.cells[t1] != 0 && w.cells[t2]
                != 0 implies t1 == t2 by {
            lemma_column_major(t1, s0, s1);
            lemma_column_major(t2, s0, s1);
            lemma_mod_injective(x + t1 % s0 - h0, x + t2 % s0 - h0, n0);
            lemma_mod_injective(y + t1 / s0 - h1, y + t2 / s0 - h1, n1);
        }
        lemma_sum_at_most_one(w.cells);
        let n = sum_of(w.cells) - g.cells[k];
        assert(!holds_count(seq![3u8], n)) by {
            if holds_count(seq![3u8], n) {
                let t = choose|t: int| 0 <= t < 1 && seq![3u8][t] == n as u8;
                assert(seq![3u8][t] == 3);
            }
        }
        assert(!holds_count(seq![2u8, 3u8], n)) by {
            if holds_count(seq![2u8, 3u8], n) {
                let t = choose|t: int| 0 <= t < 2 && seq![2u8, 3u8][t] == n as u8;
                assert(seq![2u8, 3u8][t] == 2 || seq![2u8, 3u8][t] == 3);
            }
        }
    }
}

} // verus!
