//! The abstract machine: an `EmuView` of the whole state, and the meaning of
//! one instruction as a function from state to next state.
use vstd::prelude::*;

use crate::fault::Fault;

verus! {

/// Bytes of addressable memory.
pub const MEMORY_SIZE: usize = 4096;

/// Framebuffer width in pixels.
pub const SCREEN_WIDTH: usize = 64;

/// Framebuffer height in pixels.
pub const SCREEN_HEIGHT: usize = 32;

/// Number of framebuffer cells, addressed as `x + SCREEN_WIDTH * y`.
pub const SCREEN_CELLS: usize = 2048;

/// General-purpose registers `V0`..`VF`.
pub const NUM_REGISTERS: usize = 16;

/// Depth of the return-address stack.
pub const STACK_DEPTH: usize = 16;

/// Keys of the input device.
pub const NUM_KEYS: usize = 16;

/// Length of the hexadecimal glyph table at the bottom of memory.
pub const GLYPH_TABLE_SIZE: usize = 80;

/// Address at which program images are loaded and execution starts.
pub const PROGRAM_START: u16 = 0x200;

/// The sixteen 4x5 digit sprites `0`..`F`, five bytes each.
pub open spec fn glyph_table() -> Seq<u8> {
    seq![
        0xF0u8, 0x90, 0x90, 0x90, 0xF0,
        0x20, 0x60, 0x20, 0x20, 0x70,
        0xF0, 0x10, 0xF0, 0x80, 0xF0,
        0xF0, 0x10, 0xF0, 0x10, 0xF0,
        0x90, 0x90, 0xF0, 0x10, 0x10,
        0xF0, 0x80, 0xF0, 0x10, 0xF0,
        0xF0, 0x80, 0xF0, 0x90, 0xF0,
        0xF0, 0x10, 0x20, 0x40, 0x40,
        0xF0, 0x90, 0xF0, 0x90, 0xF0,
        0xF0, 0x90, 0xF0, 0x10, 0xF0,
        0xF0, 0x90, 0xF0, 0x90, 0x90,
        0xE0, 0x90, 0xE0, 0x90, 0xE0,
        0xF0, 0x80, 0x80, 0x80, 0xF0,
        0xE0, 0x90, 0x90, 0x90, 0xE0,
        0xF0, 0x80, 0xF0, 0x80, 0xF0,
        0xF0, 0x80, 0xF0, 0x80, 0x80,
    ]
}

/// The whole machine state as mathematical values.
pub ghost struct EmuView {
    pub pc: u16,
    pub ram: Seq<u8>,
    pub screen: Seq<bool>,
    pub v: Seq<u8>,
    pub i: u16,
    pub sp: u16,
    pub stack: Seq<u16>,
    pub keys: Seq<bool>,
    pub dt: u8,
    pub st: u8,
}

impl EmuView {
    /// Every array has its architectural size and the stack pointer is in range.
    pub open spec fn wf(self) -> bool {
        &&& self.ram.len() == MEMORY_SIZE
        &&& self.screen.len() == SCREEN_CELLS
        &&& self.v.len() == NUM_REGISTERS
        &&& self.stack.len() == STACK_DEPTH
        &&& self.keys.len() == NUM_KEYS
        &&& self.sp <= STACK_DEPTH
    }
}

/// Memory right after construction or reset: glyphs, then zeros.
pub open spec fn initial_ram() -> Seq<u8> {
    Seq::new(MEMORY_SIZE as nat, |a: int| if a < GLYPH_TABLE_SIZE { glyph_table()[a] } else { 0u8 })
}

/// A framebuffer with every pixel off.
pub open spec fn blank_screen() -> Seq<bool> {
    Seq::new(SCREEN_CELLS as nat, |p: int| false)
}

/// The state right after construction or reset.
pub open spec fn initial_view() -> EmuView {
    EmuView {
        pc: PROGRAM_START,
        ram: initial_ram(),
        screen: blank_screen(),
        v: Seq::new(NUM_REGISTERS as nat, |k: int| 0u8),
        i: 0,
        sp: 0,
        stack: Seq::new(STACK_DEPTH as nat, |k: int| 0u16),
        keys: Seq::new(NUM_KEYS as nat, |k: int| false),
        dt: 0,
        st: 0,
    }
}


/// `s` with register `x` set to `val`.
pub open spec fn set_reg(s: EmuView, x: int, val: u8) -> EmuView {
    EmuView { v: s.v.update(x, val), ..s }
}

/// `s` with the next instruction skipped when `cond` holds.
pub open spec fn skip_if(s: EmuView, cond: bool) -> EmuView {
    if cond {
        EmuView { pc: (s.pc + 2) as u16, ..s }
    } else {
        s
    }
}

/// Whether bit `c` of a sprite row, counted from the most significant, is set.
pub open spec fn sprite_bit(row: u8, c: u8) -> bool {
    row & (0x80u8 >> c) != 0
}

/// The sprite column that lands on the column of cell `p` when the sprite is drawn at column `x`.
pub open spec fn sprite_col(x: u8, p: int) -> int {
    (p % (SCREEN_WIDTH as int) - x) % (SCREEN_WIDTH as int)
}

/// The sprite row that lands on the row of cell `p` when the sprite is drawn at row `y`.
pub open spec fn sprite_row(y: u8, p: int) -> int {
    (p / (SCREEN_WIDTH as int) - y) % (SCREEN_HEIGHT as int)
}

/// Whether the sprite `rows`, drawn with its top-left corner at `(x, y)` and
/// wrapping round both edges, has a set bit on cell `p`.
pub open spec fn covers(x: u8, y: u8, rows: Seq<u8>, p: int) -> bool {
    let c = sprite_col(x, p);
    let r = sprite_row(y, p);
    &&& c < 8
    &&& r < rows.len()
    &&& sprite_bit(rows[r], c as u8)
}

/// The framebuffer after XOR-drawing the sprite.
pub open spec fn draw_screen(screen: Seq<bool>, x: u8, y: u8, rows: Seq<u8>) -> Seq<bool> {
    Seq::new(screen.len(), |p: int| screen[p] != covers(x, y, rows, p))
}

/// Whether drawing the sprite turns off a pixel that was on.
pub open spec fn collides(screen: Seq<bool>, x: u8, y: u8, rows: Seq<u8>) -> bool {
    exists|p: int| 0 <= p < screen.len() && #[trigger] covers(x, y, rows, p) && screen[p]
}

/// The lowest-numbered pressed key at or above `k`.
pub open spec fn first_pressed(keys: Seq<bool>, k: int) -> Option<u8>
    decreases NUM_KEYS - k,
{
    if k < 0 || k >= NUM_KEYS {
        None
    } else if keys[k] {
        Some(k as u8)
    } else {
        first_pressed(keys, k + 1)
    }
}

/// Family nibble of an instruction word.
pub open spec fn family(op: u16) -> u16 {
    op / 0x1000
}

/// Second nibble: the `x` register selector.
pub open spec fn reg_x(op: u16) -> int {
    ((op / 0x100) % 0x10) as int
}

/// Third nibble: the `y` register selector.
pub open spec fn reg_y(op: u16) -> int {
    ((op / 0x10) % 0x10) as int
}

/// Low nibble.
pub open spec fn low_nibble(op: u16) -> u16 {
    op % 0x10
}

/// Low byte.
pub open spec fn low_byte(op: u16) -> u8 {
    (op % 0x100) as u8
}

/// Low twelve bits: an address.
pub open spec fn address(op: u16) -> u16 {
    op % 0x1000
}

/// The register-to-register family `8xyN`.
pub open spec fn alu_spec(s: EmuView, x: int, y: int, n: u16) -> EmuView {
    let vx = s.v[x];
    let vy = s.v[y];
    if n == 0 {
        set_reg(s, x, vy)
    } else if n == 1 {
        set_reg(s, x, vx | vy)
    } else if n == 2 {
        set_reg(s, x, vx & vy)
    } else if n == 3 {
        set_reg(s, x, vx ^ vy)
    } else if n == 4 {
        set_reg(set_reg(s, x, ((vx + vy) % 256) as u8), 0xF, if vx + vy > 255 { 1 } else { 0 })
    } else if n == 5 {
        set_reg(set_reg(s, x, ((vx - vy) % 256) as u8), 0xF, if vx >= vy { 1 } else { 0 })
    } else if n == 6 {
        set_reg(set_reg(s, x, vx / 2), 0xF, vx % 2)
    } else if n == 7 {
        set_reg(set_reg(s, x, ((vy - vx) % 256) as u8), 0xF, if vy >= vx { 1 } else { 0 })
    } else {
        set_reg(set_reg(s, x, ((vx * 2) % 256) as u8), 0xF, vx / 128)
    }
}

/// Whether `8xyN` is defined for low nibble `n`.
pub open spec fn alu_defined(n: u16) -> bool {
    n <= 7 || n == 0xE
}

/// Whether `FxKK` is defined for low byte `kk`.
pub open spec fn misc_defined(kk: u8) -> bool {
    kk == 0x07 || kk == 0x0A || kk == 0x15 || kk == 0x18 || kk == 0x1E || kk == 0x29
        || kk == 0x33 || kk == 0x55 || kk == 0x65
}

/// The `Dxyn` instruction: draw `n` rows from memory at `I`, set `VF` on collision.
pub open spec fn draw_spec(s: EmuView, x: int, y: int, n: u16) -> Result<EmuView, Fault> {
    if s.i + n > MEMORY_SIZE {
        Err(Fault::Addressing { addr: (s.i + n - 1) as usize })
    } else {
        let rows = s.ram.subrange(s.i as int, s.i + n);
        let flag: u8 = if collides(s.screen, s.v[x], s.v[y], rows) { 1 } else { 0 };
        Ok(set_reg(EmuView { screen: draw_screen(s.screen, s.v[x], s.v[y], rows), ..s }, 0xF, flag))
    }
}

/// The key-test family `Ex9E` / `ExA1`: skip when the key is (not) pressed.
pub open spec fn key_skip_spec(s: EmuView, x: int, when_pressed: bool) -> Result<EmuView, Fault> {
    if s.v[x] >= NUM_KEYS {
        Err(Fault::KeyIndex { key: s.v[x] })
    } else {
        Ok(skip_if(s, s.keys[s.v[x] as int] == when_pressed))
    }
}

/// The `FxKK` family.
pub open spec fn misc_spec(s: EmuView, x: int, kk: u8) -> Result<EmuView, Fault> {
    let vx = s.v[x];
    if kk == 0x07 {
        Ok(set_reg(s, x, s.dt))
    } else if kk == 0x0A {
        match first_pressed(s.keys, 0) {
            Some(k) => Ok(set_reg(s, x, k)),
            None => Ok(EmuView { pc: (s.pc - 2) as u16, ..s }),
        }
    } else if kk == 0x15 {
        Ok(EmuView { dt: vx, ..s })
    } else if kk == 0x18 {
        Ok(EmuView { st: vx, ..s })
    } else if kk == 0x1E {
        Ok(EmuView { i: ((s.i + vx) % 0x10000) as u16, ..s })
    } else if kk == 0x29 {
        Ok(EmuView { i: (vx * 5) as u16, ..s })
    } else if kk == 0x33 {
        if s.i + 2 >= MEMORY_SIZE {
            Err(Fault::Addressing { addr: (s.i + 2) as usize })
        } else {
            Ok(EmuView {
                ram: s.ram.update(s.i as int, vx / 100).update(s.i + 1, (vx / 10) % 10).update(
                    s.i + 2,
                    vx % 10,
                ),
                ..s
            })
        }
    } else if kk == 0x55 {
        if s.i + x >= MEMORY_SIZE {
            Err(Fault::Addressing { addr: (s.i + x) as usize })
        } else {
            Ok(EmuView {
                ram: Seq::new(
                    MEMORY_SIZE as nat,
                    |a: int| if s.i <= a <= s.i + x { s.v[a - s.i] } else { s.ram[a] },
                ),
                ..s
            })
        }
    } else {
        if s.i + x >= MEMORY_SIZE {
            Err(Fault::Addressing { addr: (s.i + x) as usize })
        } else {
            Ok(EmuView {
                v: Seq::new(
                    NUM_REGISTERS as nat,
                    |j: int| if j <= x { s.ram[s.i + j] } else { s.v[j] },
                ),
                ..s
            })
        }
    }
}

/// Whether an instruction word names one of the machine's instructions.
pub open spec fn defined_opcode(op: u16) -> bool {
    let f = family(op);
    let n = low_nibble(op);
    ||| op == 0x0000 || op == 0x00E0 || op == 0x00EE
    ||| f == 1 || f == 2 || f == 3 || f == 4 || f == 6 || f == 7
    ||| f == 0xA || f == 0xB || f == 0xC || f == 0xD
    ||| (f == 5 || f == 9) && n == 0
    ||| f == 8 && alu_defined(n)
    ||| f == 0xE && (low_byte(op) == 0x9E || low_byte(op) == 0xA1)
    ||| f == 0xF && misc_defined(low_byte(op))
}

/// Executes instruction `op` on `s`, whose program counter has already moved
/// past it; `rnd` is the random byte that `Cxnn` uses.
pub open spec fn exec_spec(s: EmuView, op: u16, rnd: u8) -> Result<EmuView, Fault> {
    let f = family(op);
    let x = reg_x(op);
    let y = reg_y(op);
    let n = low_nibble(op);
    let nn = low_byte(op);
    let nnn = address(op);
    if !defined_opcode(op) {
        Err(Fault::UnknownOpcode { op, pc: s.pc })
    } else if op == 0x0000 {
        Ok(s)
    } else if op == 0x00E0 {
        Ok(EmuView { screen: blank_screen(), ..s })
    } else if op == 0x00EE {
        if s.sp == 0 {
            Err(Fault::StackUnderflow)
        } else {
            Ok(EmuView { pc: s.stack[s.sp - 1], sp: (s.sp - 1) as u16, ..s })
        }
    } else if f == 1 {
        Ok(EmuView { pc: nnn, ..s })
    } else if f == 2 {
        if s.sp >= STACK_DEPTH {
            Err(Fault::StackOverflow)
        } else {
            Ok(EmuView { stack: s.stack.update(s.sp as int, s.pc), sp: (s.sp + 1) as u16, pc: nnn, ..s })
        }
    } else if f == 3 {
        Ok(skip_if(s, s.v[x] == nn))
    } else if f == 4 {
        Ok(skip_if(s, s.v[x] != nn))
    } else if f == 5 {
        Ok(skip_if(s, s.v[x] == s.v[y]))
    } else if f == 6 {
        Ok(set_reg(s, x, nn))
    } else if f == 7 {
        Ok(set_reg(s, x, ((s.v[x] + nn) % 256) as u8))
    } else if f == 8 {
        Ok(alu_spec(s, x, y, n))
    } else if f == 9 {
        Ok(skip_if(s, s.v[x] != s.v[y]))
    } else if f == 0xA {
        Ok(EmuView { i: nnn, ..s })
    } else if f == 0xB {
        Ok(EmuView { pc: (s.v[0] + nnn) as u16, ..s })
    } else if f == 0xC {
        Ok(set_reg(s, x, rnd & nn))
    } else if f == 0xD {
        draw_spec(s, x, y, n)
    } else if f == 0xE {
        key_skip_spec(s, x, nn == 0x9E)
    } else {
        misc_spec(s, x, nn)
    }
}

/// The instruction word at the program counter, or the fault of fetching it.
pub open spec fn fetch_spec(s: EmuView) -> Result<u16, Fault> {
    if s.pc + 1 >= MEMORY_SIZE {
        Err(Fault::Addressing { addr: (s.pc + 1) as usize })
    } else {
        Ok((s.ram[s.pc as int] * 256 + s.ram[s.pc + 1]) as u16)
    }
}

/// `s` with the program counter moved past the instruction word at it.
pub open spec fn fetched(s: EmuView) -> EmuView {
    EmuView { pc: (s.pc + 2) as u16, ..s }
}

/// One fetch-decode-execute cycle with random byte `rnd`: the state after it
/// and what it reports. A fault in the fetch leaves the state as it was; a
/// fault in the instruction leaves the state that the fetch produced.
pub open spec fn step_spec(s: EmuView, rnd: u8) -> (EmuView, Result<(), Fault>) {
    match fetch_spec(s) {
        Err(e) => (s, Err(e)),
        Ok(op) => match exec_spec(fetched(s), op, rnd) {
            Ok(t) => (t, Ok(())),
            Err(e) => (fetched(s), Err(e)),
        },
    }
}

/// Whether the next instruction draws a random byte.
pub open spec fn wants_random(s: EmuView) -> bool {
    match fetch_spec(s) {
        Ok(op) => family(op) == 0xC,
        Err(_) => false,
    }
}

/// A state change that reports `outcome`: the new state on success, and on a
/// fault that fault with the state left as it was.
pub open spec fn reports(pre: EmuView, post: EmuView, r: Result<(), Fault>, outcome: Result<EmuView, Fault>) -> bool {
    match outcome {
        Ok(t) => r == Ok::<(), Fault>(()) && post == t,
        Err(e) => r == Err::<(), Fault>(e) && post == pre,
    }
}

/// Copying a program image of `data` into memory at the load address, or the
/// fault when it does not fit.
pub open spec fn load_spec(s: EmuView, data: Seq<u8>) -> Result<EmuView, Fault> {
    if data.len() > MEMORY_SIZE - PROGRAM_START {
        Err(Fault::Capacity { len: data.len() as usize })
    } else {
        Ok(EmuView {
            ram: Seq::new(
                MEMORY_SIZE as nat,
                |a: int|
                    if PROGRAM_START <= a < PROGRAM_START + data.len() {
                        data[a - PROGRAM_START]
                    } else {
                        s.ram[a]
                    },
            ),
            ..s
        })
    }
}

/// A timer after one tick: one less, but never below zero.
pub open spec fn timer_tick(t: u8) -> u8 {
    if t > 0 {
        (t - 1) as u8
    } else {
        0
    }
}

} // verus!
