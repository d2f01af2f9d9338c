//! Geometry of wrapped sprite drawing: which sprite bit lands on which cell.
use vstd::prelude::*;

use crate::model::{covers, sprite_bit, sprite_col, sprite_row, SCREEN_HEIGHT, SCREEN_WIDTH};
use vstd::arithmetic::div_mod::{
    lemma_fundamental_div_mod, lemma_fundamental_div_mod_converse, lemma_mod_bound,
};

verus! {

/// The cell on which sprite bit `(r, c)` lands when the sprite is drawn at `(x, y)`.
pub open spec fn target_cell(x: u8, y: u8, r: int, c: int) -> int {
    (x + c) % (SCREEN_WIDTH as int) + (SCREEN_WIDTH as int) * ((y + r) % (SCREEN_HEIGHT as int))
}

/// Sprite bit `(r, c)` lands on a cell inside the framebuffer, and that cell
/// maps back to `(r, c)`.
pub proof fn lemma_target_cell(x: u8, y: u8, r: int, c: int)
    requires
        0 <= c < SCREEN_WIDTH,
        0 <= r < SCREEN_HEIGHT,
    ensures
        0 <= target_cell(x, y, r, c) < SCREEN_WIDTH * SCREEN_HEIGHT,
        sprite_col(x, target_cell(x, y, r, c)) == c,
        sprite_row(y, target_cell(x, y, r, c)) == r,
{
    let a = (x + c) % 64;
    let b = (y + r) % 32;
    lemma_mod_bound(x + c, 64);
    lemma_mod_bound(y + r, 32);
    let t = a + 64 * b;
    lemma_fundamental_div_mod_converse(t, 64, b, a);
    lemma_fundamental_div_mod(x + c, 64);
    let q = (x + c) / 64;
    lemma_fundamental_div_mod_converse(a - x, 64, -q, c);
    lemma_fundamental_div_mod(y + r, 32);
    let q2 = (y + r) / 32;
    lemma_fundamental_div_mod_converse(b - y, 32, -q2, r);
}

/// Every cell of the framebuffer is the target of the sprite position that maps to it.
pub proof fn lemma_cell_source(x: u8, y: u8, p: int)
    requires
        0 <= p < SCREEN_WIDTH * SCREEN_HEIGHT,
    ensures
        0 <= sprite_col(x, p) < SCREEN_WIDTH,
        0 <= sprite_row(y, p) < SCREEN_HEIGHT,
        p == target_cell(x, y, sprite_row(y, p), sprite_col(x, p)),
{
    let col = p % 64;
    let row = p / 64;
    lemma_fundamental_div_mod(p, 64);
    lemma_mod_bound(p, 64);
    assert(0 <= row < 32) by (nonlinear_arith)
        requires p == 64 * row + col, 0 <= col < 64, 0 <= p < 2048;
    let c = sprite_col(x, p);
    let r = sprite_row(y, p);
    lemma_mod_bound(col - x, 64);
    lemma_mod_bound(row - y, 32);
    lemma_fundamental_div_mod(col - x, 64);
    lemma_fundamental_div_mod_converse(x + c, 64, -((col - x) / 64), col);
    lemma_fundamental_div_mod(row - y, 32);
    lemma_fundamental_div_mod_converse(y + r, 32, -((row - y) / 32), row);
}


/// Whether cell `p` is covered by one of the first `k` sprite bits, taken
/// row by row, eight to a row.
pub open spec fn covers_before(x: u8, y: u8, rows: Seq<u8>, p: int, k: int) -> bool {
    covers(x, y, rows, p) && sprite_row(y, p) * 8 + sprite_col(x, p) < k
}

/// Visiting sprite bit `k` adds its target cell, if the bit is set, and no other.
pub proof fn lemma_visit(x: u8, y: u8, rows: Seq<u8>, k: int, p: int)
    requires
        0 <= k < rows.len() * 8,
        rows.len() <= SCREEN_HEIGHT,
        0 <= p < SCREEN_WIDTH * SCREEN_HEIGHT,
    ensures
        covers_before(x, y, rows, p, k + 1) == (covers_before(x, y, rows, p, k) || (p
            == target_cell(x, y, k / 8, k % 8) && sprite_bit(rows[k / 8], (k % 8) as u8))),
        !covers_before(x, y, rows, target_cell(x, y, k / 8, k % 8), k),
        0 <= target_cell(x, y, k / 8, k % 8) < SCREEN_WIDTH * SCREEN_HEIGHT,
{
    let r = k / 8;
    let c = k % 8;
    lemma_fundamental_div_mod(k, 8);
    lemma_mod_bound(k, 8);
    assert(0 <= r < rows.len()) by (nonlinear_arith)
        requires k == 8 * r + c, 0 <= c < 8, 0 <= k < rows.len() * 8;
    lemma_target_cell(x, y, r, c);
    lemma_cell_source(x, y, p);
    let rp = sprite_row(y, p);
    let cp = sprite_col(x, p);
    if covers(x, y, rows, p) && rp * 8 + cp == k {
        lemma_fundamental_div_mod_converse(k, 8, rp, cp);
    }
}

/// Once every sprite bit has been visited, the covered cells are exactly those of `covers`.
pub proof fn lemma_visited_all(x: u8, y: u8, rows: Seq<u8>, p: int)
    ensures
        covers_before(x, y, rows, p, rows.len() * 8 as int) == covers(x, y, rows, p),
{
    let rp = sprite_row(y, p);
    let cp = sprite_col(x, p);
    if covers(x, y, rows, p) {
        assert(rp * 8 + cp < rows.len() * 8) by (nonlinear_arith)
            requires 0 <= cp < 8, rp < rows.len();
    }
}

} // verus!
