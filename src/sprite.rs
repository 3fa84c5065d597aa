//! Proof steps for the sprite-drawing loop: the display and the collision bit
//! part-way through a draw, and how each sprite bit advances them.
use vstd::prelude::*;
use crate::state::SCREEN_SIZE;
use crate::semantics::{bit_at, collides, covers, drawn, sprite_col, sprite_row};

verus! {

/// Pixels toggled so far by a draw that has handled every sprite bit before
/// row `r`, column `c`.
pub(crate) open spec fn covered_before(ram: Seq<u8>, i: int, x: int, y: int, n: int, k: int, r: int, c: int) -> bool {
    &&& covers(ram, i, x, y, n, k)
    &&& (sprite_row(y, k) < r || (sprite_row(y, k) == r && sprite_col(x, k) < c))
}

/// The display part-way through a draw.
pub(crate) open spec fn partial_draw(before: Seq<bool>, ram: Seq<u8>, i: int, x: int, y: int, n: int, r: int, c: int) -> Seq<bool> {
    Seq::new(SCREEN_SIZE as nat, |k: int| before[k] != covered_before(ram, i, x, y, n, k, r, c))
}

/// Whether a draw has, part-way through, toggled a pixel that was lit.
pub(crate) open spec fn lit_hit(before: Seq<bool>, ram: Seq<u8>, i: int, x: int, y: int, n: int, r: int, c: int) -> bool {
    exists|k: int| 0 <= k < SCREEN_SIZE && #[trigger] covered_before(ram, i, x, y, n, k, r, c) && before[k]
}

/// Handling sprite bit `(r, c)` toggles pixel `idx` if the bit is set, and
/// records a collision if that pixel was lit.
pub(crate) proof fn lemma_draw_bit(before: Seq<bool>, ram: Seq<u8>, i: int, x: int, y: int, n: int, r: int, c: int, idx: int)
    requires
        before.len() == SCREEN_SIZE,
        0 <= x < 256,
        0 <= y < 256,
        0 <= r < n < 16,
        0 <= c < 8,
        idx == (x + c) % 64 + 64 * ((y + r) % 32),
    ensures
        0 <= idx < SCREEN_SIZE,
        partial_draw(before, ram, i, x, y, n, r, c)[idx] == before[idx],
        bit_at(ram[i + r], c) ==> partial_draw(before, ram, i, x, y, n, r, c + 1)
            == partial_draw(before, ram, i, x, y, n, r, c).update(idx, !before[idx]),
        !bit_at(ram[i + r], c) ==> partial_draw(before, ram, i, x, y, n, r, c + 1)
            == partial_draw(before, ram, i, x, y, n, r, c),
        lit_hit(before, ram, i, x, y, n, r, c + 1)
            == (lit_hit(before, ram, i, x, y, n, r, c) || (bit_at(ram[i + r], c) && before[idx])),
{
    lemma_pixel(x, y, r, c, idx, 0);
    assert forall|k: int| 0 <= k < SCREEN_SIZE implies #[trigger] covered_before(ram, i, x, y, n, k, r, c + 1)
        == (covered_before(ram, i, x, y, n, k, r, c) || (k == idx && bit_at(ram[i + r], c))) by {
        lemma_pixel(x, y, r, c, idx, k);
    }
    let upto_bit = partial_draw(before, ram, i, x, y, n, r, c);
    let past_bit = partial_draw(before, ram, i, x, y, n, r, c + 1);
    if bit_at(ram[i + r], c) {
        assert(past_bit =~= upto_bit.update(idx, !before[idx]));
    } else {
        assert(past_bit =~= upto_bit);
    }
    if lit_hit(before, ram, i, x, y, n, r, c + 1) {
        let w = choose|k: int| 0 <= k < SCREEN_SIZE && #[trigger] covered_before(ram, i, x, y, n, k, r, c + 1) && before[k];
        if w != idx {
            assert(covered_before(ram, i, x, y, n, w, r, c));
        }
    }
    if lit_hit(before, ram, i, x, y, n, r, c) {
        let w = choose|k: int| 0 <= k < SCREEN_SIZE && #[trigger] covered_before(ram, i, x, y, n, k, r, c) && before[k];
        assert(covered_before(ram, i, x, y, n, w, r, c + 1));
    }
    if bit_at(ram[i + r], c) && before[idx] {
        assert(covered_before(ram, i, x, y, n, idx, r, c + 1));
    }
}

/// Finishing the last column of row `r` is starting row `r + 1`.
pub(crate) proof fn lemma_draw_next_row(before: Seq<bool>, ram: Seq<u8>, i: int, x: int, y: int, n: int, r: int)
    ensures
        partial_draw(before, ram, i, x, y, n, r, 8) == partial_draw(before, ram, i, x, y, n, r + 1, 0),
        lit_hit(before, ram, i, x, y, n, r, 8) == lit_hit(before, ram, i, x, y, n, r + 1, 0),
{
    assert forall|k: int| #[trigger] covered_before(ram, i, x, y, n, k, r, 8)
        == covered_before(ram, i, x, y, n, k, r + 1, 0) by {}
    assert(partial_draw(before, ram, i, x, y, n, r, 8) =~= partial_draw(before, ram, i, x, y, n, r + 1, 0));
    if lit_hit(before, ram, i, x, y, n, r, 8) {
        let w = choose|k: int| 0 <= k < SCREEN_SIZE && #[trigger] covered_before(ram, i, x, y, n, k, r, 8) && before[k];
        assert(covered_before(ram, i, x, y, n, w, r + 1, 0));
    }
    if lit_hit(before, ram, i, x, y, n, r + 1, 0) {
        let w = choose|k: int| 0 <= k < SCREEN_SIZE && #[trigger] covered_before(ram, i, x, y, n, k, r + 1, 0) && before[k];
        assert(covered_before(ram, i, x, y, n, w, r, 8));
    }
}

/// Once every row is handled the display is the drawn one and the collision bit is set as specified.
pub(crate) proof fn lemma_draw_done(before: Seq<bool>, ram: Seq<u8>, i: int, x: int, y: int, n: int)
    requires
        0 <= n,
    ensures
        partial_draw(before, ram, i, x, y, n, n, 0) == drawn(before, ram, i, x, y, n),
        lit_hit(before, ram, i, x, y, n, n, 0) == collides(before, ram, i, x, y, n),
{
    assert forall|k: int| #[trigger] covered_before(ram, i, x, y, n, k, n, 0) == covers(ram, i, x, y, n, k) by {}
    assert(partial_draw(before, ram, i, x, y, n, n, 0) =~= drawn(before, ram, i, x, y, n));
    if collides(before, ram, i, x, y, n) {
        let w = choose|k: int| 0 <= k < SCREEN_SIZE && #[trigger] covers(ram, i, x, y, n, k) && before[k];
        assert(covered_before(ram, i, x, y, n, w, n, 0));
    }
}

/// Sprite bit `(r, c)` drawn at `(x, y)` lands on pixel `idx`, and on no other.
pub(crate) proof fn lemma_pixel(x: int, y: int, r: int, c: int, idx: int, k: int)
    requires
        0 <= x < 256,
        0 <= y < 256,
        0 <= r < 16,
        0 <= c < 8,
        idx == (x + c) % 64 + 64 * ((y + r) % 32),
        0 <= k < SCREEN_SIZE,
    ensures
        0 <= idx < SCREEN_SIZE,
        sprite_col(x, idx) == c,
        sprite_row(y, idx) == r,
        (sprite_col(x, k) == c && sprite_row(y, k) == r) <==> k == idx,
{
    let px = (x + c) % 64;
    let py = (y + r) % 32;
    assert(0 <= px < 64 && 0 <= py < 32);
    assert(idx % 64 == px && idx / 64 == py) by (nonlinear_arith)
        requires idx == px + 64 * py, 0 <= px < 64, 0 <= py < 32;
    assert((px - x) % 64 == c) by (nonlinear_arith)
        requires px == (x + c) % 64, 0 <= c < 8, 0 <= x;
    assert((py - y) % 32 == r) by (nonlinear_arith)
        requires py == (y + r) % 32, 0 <= r < 16, 0 <= y;
    let kx = k % 64;
    let ky = k / 64;
    assert(k == kx + 64 * ky && 0 <= kx < 64 && 0 <= ky < 32) by (nonlinear_arith)
        requires kx == k % 64, ky == k / 64, 0 <= k < 2048;
    if sprite_col(x, k) == c && sprite_row(y, k) == r {
        assert(kx == px) by (nonlinear_arith)
            requires (kx - x) % 64 == c, px == (x + c) % 64, 0 <= kx < 64, 0 <= x;
        assert(ky == py) by (nonlinear_arith)
            requires (ky - y) % 32 == r, py == (y + r) % 32, 0 <= ky < 32, 0 <= y;
    }
}

} // verus!
