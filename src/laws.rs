//! Properties of the machine that relate several instructions or hold of
//! every state, proved over the abstract semantics.
use vstd::prelude::*;

use crate::fault::Fault;
use crate::model::{
    address, blank_screen, low_byte, set_reg, collides, covers, defined_opcode, draw_screen, exec_spec, family,
    fetch_spec, load_spec, low_nibble, misc_spec, reg_x, reg_y, sprite_bit, step_spec,
    wants_random, EmuView, MEMORY_SIZE, PROGRAM_START, SCREEN_CELLS, SCREEN_HEIGHT, SCREEN_WIDTH,
    STACK_DEPTH,
};
use crate::sprite::{lemma_cell_source, lemma_target_cell, target_cell};

verus! {

/// Whether some row of the sprite has a bit set.
pub open spec fn sprite_visible(rows: Seq<u8>) -> bool {
    exists|r: int, c: u8| 0 <= r < rows.len() && c < 8 && #[trigger] sprite_bit(rows[r], c)
}

/// Apart from `Cxnn`, a cycle is a function of the state alone: the random
/// byte makes no difference to its outcome.
pub proof fn lemma_step_deterministic(s: EmuView, rnd1: u8, rnd2: u8)
    requires
        !wants_random(s),
    ensures
        step_spec(s, rnd1) == step_spec(s, rnd2),
{
}

/// Apart from `Cxnn`, executing an instruction word is a function of the
/// state and the word alone.
pub proof fn lemma_dispatch_deterministic(s: EmuView, op: u16, rnd1: u8, rnd2: u8)
    requires
        family(op) != 0xC,
    ensures
        exec_spec(s, op, rnd1) == exec_spec(s, op, rnd2),
{
}

/// `Cxnn` is where the random byte enters: it sets `Vx` to the byte masked
/// by `nn`, so no bit outside `nn` is set, and changes nothing else.
pub proof fn lemma_random_masked(s: EmuView, op: u16, rnd: u8)
    requires
        family(op) == 0xC,
    ensures
        exec_spec(s, op, rnd) == Ok::<EmuView, Fault>(set_reg(s, reg_x(op), rnd & low_byte(op))),
        (rnd & low_byte(op)) & !low_byte(op) == 0,
{
    let nn = low_byte(op);
    assert((rnd & nn) & !nn == 0) by (bit_vector);
}

/// Dispatch is total: an instruction word is reported as unknown exactly
/// when it is not one of the defined instructions.
pub proof fn lemma_dispatch_total(s: EmuView, op: u16, rnd: u8)
    requires
        s.wf(),
    ensures
        exec_spec(s, op, rnd) is Err && exec_spec(s, op, rnd)->Err_0 is UnknownOpcode
            <==> !defined_opcode(op),
{
    if family(op) == 0xF && defined_opcode(op) {
        assert(!(misc_spec(s, reg_x(op), (op % 0x100) as u8) is Err && misc_spec(
            s,
            reg_x(op),
            (op % 0x100) as u8,
        )->Err_0 is UnknownOpcode));
    }
}

/// Each set sprite bit `(r, c)` toggles the pixel at column `(x + c) mod 64`
/// and row `(y + r) mod 32`: sprites wrap round both edges.
pub proof fn lemma_sprite_wraps(screen: Seq<bool>, x: u8, y: u8, rows: Seq<u8>, r: int, c: u8)
    requires
        screen.len() == SCREEN_CELLS,
        0 <= r < rows.len(),
        rows.len() <= SCREEN_HEIGHT,
        c < 8,
        sprite_bit(rows[r], c),
    ensures
        0 <= target_cell(x, y, r, c as int) < SCREEN_CELLS,
        target_cell(x, y, r, c as int) % (SCREEN_WIDTH as int) == (x + c) % (SCREEN_WIDTH as int),
        target_cell(x, y, r, c as int) / (SCREEN_WIDTH as int) == (y + r) % (SCREEN_HEIGHT as int),
        draw_screen(screen, x, y, rows)[target_cell(x, y, r, c as int)] != screen[target_cell(
            x,
            y,
            r,
            c as int,
        )],
{
    lemma_target_cell(x, y, r, c as int);
    let a = (x + c) % 64;
    let b = (y + r) % 32;
    vstd::arithmetic::div_mod::lemma_mod_bound(x + c, 64);
    vstd::arithmetic::div_mod::lemma_mod_bound(y + r, 32);
    vstd::arithmetic::div_mod::lemma_fundamental_div_mod_converse(a + 64 * b, 64, b, a);
}

/// A drawn sprite covers some cell exactly when it has a set bit.
proof fn lemma_covers_some(x: u8, y: u8, rows: Seq<u8>)
    requires
        rows.len() <= SCREEN_HEIGHT,
    ensures
        sprite_visible(rows) <==> exists|p: int| 0 <= p < SCREEN_CELLS && #[trigger] covers(x, y, rows, p),
{
    if sprite_visible(rows) {
        let (r, c) = choose|r: int, c: u8| 0 <= r < rows.len() && c < 8 && #[trigger] sprite_bit(rows[r], c);
        lemma_target_cell(x, y, r, c as int);
        assert(covers(x, y, rows, target_cell(x, y, r, c as int)));
    }
    if exists|p: int| 0 <= p < SCREEN_CELLS && #[trigger] covers(x, y, rows, p) {
        let p = choose|p: int| 0 <= p < SCREEN_CELLS && #[trigger] covers(x, y, rows, p);
        lemma_cell_source(x, y, p);
        let r = crate::model::sprite_row(y, p);
        let c = crate::model::sprite_col(x, p);
        assert(sprite_bit(rows[r], c as u8));
    }
}

/// Clearing the screen, then drawing a sprite twice at the same place,
/// leaves every pixel off; the first draw reports no collision and the
/// second reports one exactly when the sprite has a set bit. The position
/// registers are not `VF`, which each draw overwrites.
pub proof fn lemma_redraw_erases(s: EmuView, op: u16, rnd: u8)
    requires
        s.wf(),
        family(op) == 0xD,
        reg_x(op) != 0xF,
        reg_y(op) != 0xF,
        s.i + low_nibble(op) <= MEMORY_SIZE,
    ensures
        ({
            let rows = s.ram.subrange(s.i as int, s.i + low_nibble(op));
            let s1 = exec_spec(s, 0x00E0, rnd)->Ok_0;
            let s2 = exec_spec(s1, op, rnd)->Ok_0;
            let s3 = exec_spec(s2, op, rnd)->Ok_0;
            &&& exec_spec(s, 0x00E0, rnd) is Ok
            &&& exec_spec(s1, op, rnd) is Ok
            &&& exec_spec(s2, op, rnd) is Ok
            &&& s2.v[0xF] == 0
            &&& s3.screen == blank_screen()
            &&& s3.v[0xF] == if sprite_visible(rows) { 1u8 } else { 0u8 }
        }),
{
    let x = reg_x(op);
    let y = reg_y(op);
    let rows = s.ram.subrange(s.i as int, s.i + low_nibble(op));
    let s1 = exec_spec(s, 0x00E0, rnd)->Ok_0;
    assert(defined_opcode(0x00E0));
    assert(defined_opcode(op));
    assert(s1.screen == blank_screen());
    let s2 = exec_spec(s1, op, rnd)->Ok_0;
    let xv = s.v[x];
    let yv = s.v[y];
    assert(s2.v[x] == xv && s2.v[y] == yv);
    assert(s2.ram.subrange(s2.i as int, s2.i + low_nibble(op)) == rows);
    assert(!collides(blank_screen(), xv, yv, rows));
    let d1 = draw_screen(blank_screen(), xv, yv, rows);
    let s3 = exec_spec(s2, op, rnd)->Ok_0;
    assert(s3.screen =~= blank_screen());
    lemma_covers_some(xv, yv, rows);
    if sprite_visible(rows) {
        let p = choose|p: int| 0 <= p < SCREEN_CELLS && #[trigger] covers(xv, yv, rows, p);
        assert(d1[p]);
        assert(collides(d1, xv, yv, rows));
    }
    if collides(d1, xv, yv, rows) {
        let p = choose|p: int| 0 <= p < d1.len() && #[trigger] covers(xv, yv, rows, p) && d1[p];
        assert(0 <= p < SCREEN_CELLS && covers(xv, yv, rows, p));
    }
}

/// A call followed at its target by a return resumes right after the call:
/// the return address is that of the call plus two.
pub proof fn lemma_call_return(s: EmuView, op: u16, rnd1: u8, rnd2: u8)
    requires
        s.wf(),
        fetch_spec(s) == Ok::<u16, Fault>(op),
        family(op) == 2,
        s.sp < STACK_DEPTH,
        address(op) + 1 < MEMORY_SIZE,
        s.ram[address(op) as int] == 0x00,
        s.ram[address(op) + 1] == 0xEE,
    ensures
        step_spec(s, rnd1).1 is Ok,
        step_spec(step_spec(s, rnd1).0, rnd2) == (
            EmuView {
                pc: (s.pc + 2) as u16,
                stack: s.stack.update(s.sp as int, (s.pc + 2) as u16),
                ..s
            },
            Ok::<(), Fault>(()),
        ),
{
    assert(defined_opcode(op));
    let t = step_spec(s, rnd1).0;
    assert(t.pc == address(op));
    assert(fetch_spec(t) == Ok::<u16, Fault>(0x00EE));
    assert(defined_opcode(0x00EE));
}

/// An image that exactly fills the memory above the load address is
/// accepted; one byte more is refused and leaves nothing changed.
pub proof fn lemma_load_capacity(s: EmuView, data: Seq<u8>)
    requires
        s.wf(),
    ensures
        data.len() == MEMORY_SIZE - PROGRAM_START ==> load_spec(s, data) is Ok,
        data.len() == MEMORY_SIZE - PROGRAM_START + 1 ==> load_spec(s, data) == Err::<
            EmuView,
            Fault,
        >(Fault::Capacity { len: data.len() as usize }),
{
}

/// `Fx33` stores at `I`, `I + 1` and `I + 2` three decimal digits that
/// spell `Vx`, hundreds first.
pub proof fn lemma_bcd_digits(s: EmuView, x: int)
    requires
        s.wf(),
        0 <= x < 16,
        s.i + 2 < MEMORY_SIZE,
    ensures
        misc_spec(s, x, 0x33) is Ok,
        ({
            let t = misc_spec(s, x, 0x33)->Ok_0;
            let (h, d, o) = (t.ram[s.i as int], t.ram[s.i + 1], t.ram[s.i + 2]);
            &&& h < 10 && d < 10 && o < 10
            &&& 100 * h + 10 * d + o == s.v[x]
        }),
{
}

} // verus!
