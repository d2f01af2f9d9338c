//! The machine itself and its executable operations.
use vstd::prelude::*;

use crate::fault::Fault;
use crate::model::{
    alu_defined, alu_spec, blank_screen, collides, covers, draw_screen, draw_spec, exec_spec,
    fetch_spec, first_pressed, glyph_table, initial_ram, initial_view, load_spec, misc_defined,
    misc_spec, reports, set_reg, sprite_bit, step_spec, timer_tick, wants_random, EmuView,
    GLYPH_TABLE_SIZE, MEMORY_SIZE, NUM_KEYS, NUM_REGISTERS, PROGRAM_START, SCREEN_CELLS,
    SCREEN_HEIGHT, SCREEN_WIDTH, STACK_DEPTH,
};
use crate::sprite::{covers_before, lemma_visit, lemma_visited_all, target_cell};

verus! {

/// A CHIP-8 machine, owned by its caller.
pub struct Emu {
    pc: u16,
    ram: Vec<u8>,
    screen: Vec<bool>,
    v_reg: Vec<u8>,
    i_reg: u16,
    sp: u16,
    stack: Vec<u16>,
    keys: Vec<bool>,
    dt: u8,
    st: u8,
}

impl View for Emu {
    type V = EmuView;

    closed spec fn view(&self) -> EmuView {
        EmuView {
            pc: self.pc,
            ram: self.ram@,
            screen: self.screen@,
            v: self.v_reg@,
            i: self.i_reg,
            sp: self.sp,
            stack: self.stack@,
            keys: self.keys@,
            dt: self.dt,
            st: self.st,
        }
    }
}

/// The glyph table as bytes.
fn glyph_bytes() -> (r: Vec<u8>)
    ensures
        r@ == glyph_table(),
{
    let r: Vec<u8> = vec![
        0xF0u8, 0x90, 0x90, 0x90, 0xF0,
        0x20, 0x60, 0x20, 0x20, 0x70,
        0xF0, 0x10, 0xF0, 0x80, 0xF0,
        0xF0, 0x10, 0xF0, 0x10, 0xF0,
        0x90, 0x90, 0xF0, 0x10, 0x10,
        0xF0, 0x80, 0xF0, 0x10, 0xF0,
        0xF0, 0x80, 0xF0, 0x90, 0xF0,
        0xF0, 0x10, 0x20, 0x40, 0x40,
        0xF0, 0x90, 0xF0, 0x90, 0xF0,
        0xF0, 0x90, 0xF0, 0x10, 0xF0,
        0xF0, 0x90, 0xF0, 0x90, 0x90,
        0xE0, 0x90, 0xE0, 0x90, 0xE0,
        0xF0, 0x80, 0x80, 0x80, 0xF0,
        0xE0, 0x90, 0x90, 0x90, 0xE0,
        0xF0, 0x80, 0xF0, 0x80, 0xF0,
        0xF0, 0x80, 0xF0, 0x80, 0x80,
    ];
    assert(r@ =~= glyph_table());
    r
}

/// A vector of `n` copies of `val`.
fn filled<T: Copy>(n: usize, val: T) -> (r: Vec<T>)
    ensures
        r@ == Seq::new(n as nat, |k: int| val),
{
    let mut r: Vec<T> = Vec::with_capacity(n);
    let mut k: usize = 0;
    while k < n
        invariant
            k <= n,
            r@ == Seq::new(k as nat, |j: int| val),
        decreases n - k,
    {
        r.push(val);
        k = k + 1;
        assert(r@ =~= Seq::new(k as nat, |j: int| val));
    }
    r
}

/// Overwrites every element of `v` with `val`, keeping its length.
fn fill<T: Copy>(v: &mut Vec<T>, val: T)
    ensures
        final(v)@ == Seq::new(old(v)@.len(), |k: int| val),
{
    let n = v.len();
    let mut k: usize = 0;
    while k < n
        invariant
            k <= n,
            v@.len() == n,
            forall|j: int| 0 <= j < k ==> v@[j] == val,
        decreases n - k,
    {
        v.set(k, val);
        k = k + 1;
    }
    assert(v@ =~= Seq::new(n as nat, |j: int| val));
}

/// Relies on `rand::random::<u8>`: one byte from the thread-local generator.
/// Any byte may come back, so nothing is stated of it.
#[verifier::external_body]
fn random_byte() -> (r: u8) {
    rand::random::<u8>()
}

impl Emu {
    /// Writes the glyph table into the bottom of memory.
    fn install_glyphs(&mut self)
        requires
            old(self).ram@.len() == MEMORY_SIZE,
        ensures
            final(self).ram@ == Seq::new(
                MEMORY_SIZE as nat,
                |a: int| if a < GLYPH_TABLE_SIZE { glyph_table()[a] } else { old(self).ram@[a] },
            ),
            final(self)@ == (EmuView { ram: final(self).ram@, ..old(self)@ }),
    {
        let glyphs = glyph_bytes();
        let mut k: usize = 0;
        while k < GLYPH_TABLE_SIZE
            invariant
                k <= GLYPH_TABLE_SIZE,
                glyphs@ == glyph_table(),
                self@ == (EmuView { ram: self.ram@, ..old(self)@ }),
                self.ram@ == Seq::new(
                    MEMORY_SIZE as nat,
                    |a: int| if a < k { glyph_table()[a] } else { old(self).ram@[a] },
                ),
            decreases GLYPH_TABLE_SIZE - k,
        {
            self.ram.set(k, glyphs[k]);
            k = k + 1;
            assert(self.ram@ =~= Seq::new(
                MEMORY_SIZE as nat,
                |a: int| if a < k { glyph_table()[a] } else { old(self).ram@[a] },
            ));
        }
    }

    /// A machine with the glyph table loaded, everything else zero, and the
    /// program counter at the load address.
    pub fn new() -> (r: Emu)
        ensures
            r@ == initial_view(),
            r@.wf(),
    {
        let mut e = Emu {
            pc: PROGRAM_START,
            ram: filled(MEMORY_SIZE, 0u8),
            screen: filled(SCREEN_CELLS, false),
            v_reg: filled(NUM_REGISTERS, 0u8),
            i_reg: 0,
            sp: 0,
            stack: filled(STACK_DEPTH, 0u16),
            keys: filled(NUM_KEYS, false),
            dt: 0,
            st: 0,
        };
        e.install_glyphs();
        assert(e.ram@ =~= initial_ram());
        e
    }

    /// `Dxyn`: XOR-draws `n` sprite rows read from memory at `I` at the
    /// position held in `Vx`, `Vy`, and sets `VF` to whether a lit pixel was
    /// turned off.
    fn draw(&mut self, x: usize, y: usize, n: u16) -> (r: Result<(), Fault>)
        requires
            old(self)@.wf(),
            x < NUM_REGISTERS,
            y < NUM_REGISTERS,
            n < 16,
        ensures
            reports(old(self)@, final(self)@, r, draw_spec(old(self)@, x as int, y as int, n)),
    {
        let start = self.i_reg as usize;
        let count = n as usize;
        if start + count > MEMORY_SIZE {
            return Err(Fault::Addressing { addr: start + count - 1 });
        }
        let col0 = self.v_reg[x];
        let row0 = self.v_reg[y];
        let ghost rows = self.ram@.subrange(start as int, start + count);
        let ghost pre = self@;
        let mut flipped = false;
        let total: usize = count * 8;
        let mut k: usize = 0;
        while k < total
            invariant
                pre == old(self)@,
                pre.wf(),
                self@ == (EmuView { screen: self.screen@, ..pre }),
                self.screen@.len() == SCREEN_CELLS,
                start + count <= MEMORY_SIZE,
                count < 16,
                total == count * 8,
                rows == pre.ram.subrange(start as int, start + count),
                col0 == pre.v[x as int],
                row0 == pre.v[y as int],
                k <= total,
                forall|p: int|
                    0 <= p < SCREEN_CELLS ==> self.screen@[p] == (pre.screen[p] != covers_before(
                        col0,
                        row0,
                        rows,
                        p,
                        k as int,
                    )),
                flipped == exists|p: int|
                    0 <= p < SCREEN_CELLS && #[trigger] covers_before(col0, row0, rows, p, k as int)
                        && pre.screen[p],
            decreases total - k,
        {
            let r = k / 8;
            let c = k % 8;
            let bits = self.ram[start + r];
            let ghost t = target_cell(col0, row0, k as int / 8, k as int % 8);
            proof {
                lemma_visit(col0, row0, rows, k as int, t);
                assert forall|p: int| 0 <= p < SCREEN_CELLS implies covers_before(
                    col0,
                    row0,
                    rows,
                    p,
                    k + 1,
                ) == (covers_before(col0, row0, rows, p, k as int) || (p == t && sprite_bit(
                    rows[k as int / 8],
                    (k % 8) as u8,
                ))) by {
                    lemma_visit(col0, row0, rows, k as int, p);
                }
            }
            if bits & (0x80u8 >> (c as u8)) != 0 {
                let cell = (col0 as usize + c) % SCREEN_WIDTH + SCREEN_WIDTH * ((row0 as usize
                    + r) % SCREEN_HEIGHT);
                assert(cell == t);
                let was = self.screen[cell];
                flipped = flipped || was;
                self.screen.set(cell, !was);
                proof {
                    if was {
                        assert(covers_before(col0, row0, rows, t, k + 1) && pre.screen[t]);
                    }
                }
            }
            k = k + 1;
            assert(flipped == exists|p: int|
                0 <= p < SCREEN_CELLS && #[trigger] covers_before(col0, row0, rows, p, k as int)
                    && pre.screen[p]);
        }
        proof {
            assert forall|p: int| 0 <= p < SCREEN_CELLS implies #[trigger] covers_before(
                col0,
                row0,
                rows,
                p,
                k as int,
            ) == covers(col0, row0, rows, p) by {
                lemma_visited_all(col0, row0, rows, p);
            }
            assert(self.screen@ =~= draw_screen(pre.screen, col0, row0, rows));
            assert(flipped == collides(pre.screen, col0, row0, rows));
        }
        if flipped {
            self.v_reg.set(0xF, 1);
        } else {
            self.v_reg.set(0xF, 0);
        }
        Ok(())
    }

    /// `CLS`: turns every pixel off.
    fn clear_screen(&mut self)
        requires
            old(self)@.wf(),
        ensures
            final(self)@ == (EmuView { screen: blank_screen(), ..old(self)@ }),
    {
        fill(&mut self.screen, false);
        assert(self.screen@ =~= blank_screen());
    }

    /// Pushes a return address.
    fn push(&mut self, val: u16) -> (r: Result<(), Fault>)
        requires
            old(self)@.wf(),
        ensures
            old(self).sp >= STACK_DEPTH ==> r == Err::<(), Fault>(Fault::StackOverflow) && final(self)@
                == old(self)@,
            old(self).sp < STACK_DEPTH ==> r == Ok::<(), Fault>(()) && final(self)@ == (EmuView {
                stack: old(self)@.stack.update(old(self).sp as int, val),
                sp: (old(self).sp + 1) as u16,
                ..old(self)@
            }),
    {
        if self.sp as usize >= STACK_DEPTH {
            return Err(Fault::StackOverflow);
        }
        self.stack.set(self.sp as usize, val);
        self.sp = self.sp + 1;
        Ok(())
    }

    /// Pops the most recent return address.
    fn pop(&mut self) -> (r: Result<u16, Fault>)
        requires
            old(self)@.wf(),
        ensures
            old(self).sp == 0 ==> r == Err::<u16, Fault>(Fault::StackUnderflow) && final(self)@
                == old(self)@,
            old(self).sp > 0 ==> r == Ok::<u16, Fault>(old(self)@.stack[old(self).sp - 1])
                && final(self)@ == (EmuView { sp: (old(self).sp - 1) as u16, ..old(self)@ }),
    {
        if self.sp == 0 {
            return Err(Fault::StackUnderflow);
        }
        self.sp = self.sp - 1;
        Ok(self.stack[self.sp as usize])
    }

    /// The register-to-register family `8xyN`.
    fn exec_alu(&mut self, x: usize, y: usize, n: u16)
        requires
            old(self)@.wf(),
            x < NUM_REGISTERS,
            y < NUM_REGISTERS,
            alu_defined(n),
        ensures
            final(self)@ == alu_spec(old(self)@, x as int, y as int, n),
    {
        let vx = self.v_reg[x];
        let vy = self.v_reg[y];
        if n == 0 {
            self.v_reg.set(x, vy);
        } else if n == 1 {
            self.v_reg.set(x, vx | vy);
        } else if n == 2 {
            self.v_reg.set(x, vx & vy);
        } else if n == 3 {
            self.v_reg.set(x, vx ^ vy);
        } else if n == 4 {
            let sum = vx as u16 + vy as u16;
            self.v_reg.set(x, (sum % 256) as u8);
            self.v_reg.set(0xF, if sum > 255 { 1 } else { 0 });
        } else if n == 5 {
            let diff = if vx >= vy { vx - vy } else { (vx as u16 + 256 - vy as u16) as u8 };
            self.v_reg.set(x, diff);
            self.v_reg.set(0xF, if vx >= vy { 1 } else { 0 });
        } else if n == 6 {
            self.v_reg.set(x, vx / 2);
            self.v_reg.set(0xF, vx % 2);
        } else if n == 7 {
            let diff = if vy >= vx { vy - vx } else { (vy as u16 + 256 - vx as u16) as u8 };
            self.v_reg.set(x, diff);
            self.v_reg.set(0xF, if vy >= vx { 1 } else { 0 });
        } else {
            self.v_reg.set(x, ((vx as u16 * 2) % 256) as u8);
            self.v_reg.set(0xF, vx / 128);
        }
    }

    /// `LD Vx, K`: puts the lowest pressed key in `Vx`, or, with no key
    /// pressed, moves the program counter back so the instruction runs again.
    fn wait_key(&mut self, x: usize)
        requires
            old(self)@.wf(),
            x < NUM_REGISTERS,
            old(self).pc >= 2,
        ensures
            final(self)@ == match first_pressed(old(self)@.keys, 0) {
                Some(k) => set_reg(old(self)@, x as int, k),
                None => EmuView { pc: (old(self).pc - 2) as u16, ..old(self)@ },
            },
    {
        let mut k: usize = 0;
        while k < NUM_KEYS
            invariant
                k <= NUM_KEYS,
                x < NUM_REGISTERS,
                self@ == old(self)@,
                self.v_reg@.len() == NUM_REGISTERS,
                self.keys@.len() == NUM_KEYS,
                first_pressed(self@.keys, 0) == first_pressed(self@.keys, k as int),
            decreases NUM_KEYS - k,
        {
            if self.keys[k] {
                self.v_reg.set(x, k as u8);
                return;
            }
            k = k + 1;
        }
        self.pc = self.pc - 2;
    }

    /// `LD [I], V0..Vx`: stores registers `0..=x` at `I` onwards.
    fn store_registers(&mut self, x: usize) -> (r: Result<(), Fault>)
        requires
            old(self)@.wf(),
            x < NUM_REGISTERS,
            old(self).pc >= 2,
        ensures
            reports(old(self)@, final(self)@, r, misc_spec(old(self)@, x as int, 0x55)),
    {
        let base = self.i_reg as usize;
        if base + x >= MEMORY_SIZE {
            return Err(Fault::Addressing { addr: base + x });
        }
        let ghost pre = self@;
        let mut j: usize = 0;
        while j <= x
            invariant
                pre == old(self)@,
                pre.wf(),
                base == pre.i,
                base + x < MEMORY_SIZE,
                x < NUM_REGISTERS,
                j <= x + 1,
                self@ == (EmuView { ram: self.ram@, ..pre }),
                self.ram@ == Seq::new(
                    MEMORY_SIZE as nat,
                    |a: int| if base <= a < base + j { pre.v[a - base] } else { pre.ram[a] },
                ),
            decreases x + 1 - j,
        {
            let val = self.v_reg[j];
            self.ram.set(base + j, val);
            j = j + 1;
            assert(self.ram@ =~= Seq::new(
                MEMORY_SIZE as nat,
                |a: int| if base <= a < base + j { pre.v[a - base] } else { pre.ram[a] },
            ));
        }
        assert(self.ram@ =~= Seq::new(
            MEMORY_SIZE as nat,
            |a: int| if pre.i <= a <= pre.i + x { pre.v[a - pre.i] } else { pre.ram[a] },
        ));
        Ok(())
    }

    /// `LD V0..Vx, [I]`: loads registers `0..=x` from `I` onwards.
    fn load_registers(&mut self, x: usize) -> (r: Result<(), Fault>)
        requires
            old(self)@.wf(),
            x < NUM_REGISTERS,
            old(self).pc >= 2,
        ensures
            reports(old(self)@, final(self)@, r, misc_spec(old(self)@, x as int, 0x65)),
    {
        let base = self.i_reg as usize;
        if base + x >= MEMORY_SIZE {
            return Err(Fault::Addressing { addr: base + x });
        }
        let ghost pre = self@;
        let mut j: usize = 0;
        while j <= x
            invariant
                pre == old(self)@,
                pre.wf(),
                base == pre.i,
                base + x < MEMORY_SIZE,
                x < NUM_REGISTERS,
                j <= x + 1,
                self@ == (EmuView { v: self.v_reg@, ..pre }),
                self.v_reg@ == Seq::new(
                    NUM_REGISTERS as nat,
                    |k: int| if k < j { pre.ram[base + k] } else { pre.v[k] },
                ),
            decreases x + 1 - j,
        {
            let val = self.ram[base + j];
            self.v_reg.set(j, val);
            j = j + 1;
            assert(self.v_reg@ =~= Seq::new(
                NUM_REGISTERS as nat,
                |k: int| if k < j { pre.ram[base + k] } else { pre.v[k] },
            ));
        }
        assert(self.v_reg@ =~= Seq::new(
            NUM_REGISTERS as nat,
            |k: int| if k <= x { pre.ram[pre.i + k] } else { pre.v[k] },
        ));
        Ok(())
    }

    /// The `FxKK` family.
    fn exec_misc(&mut self, x: usize, kk: u8) -> (r: Result<(), Fault>)
        requires
            old(self)@.wf(),
            x < NUM_REGISTERS,
            misc_defined(kk),
            old(self).pc >= 2,
        ensures
            reports(old(self)@, final(self)@, r, misc_spec(old(self)@, x as int, kk)),
    {
        let vx = self.v_reg[x];
        if kk == 0x07 {
            let dt = self.dt;
            self.v_reg.set(x, dt);
        } else if kk == 0x0A {
            self.wait_key(x);
        } else if kk == 0x15 {
            self.dt = vx;
        } else if kk == 0x18 {
            self.st = vx;
        } else if kk == 0x1E {
            self.i_reg = ((self.i_reg as u32 + vx as u32) % 0x10000) as u16;
        } else if kk == 0x29 {
            self.i_reg = vx as u16 * 5;
        } else if kk == 0x33 {
            let base = self.i_reg as usize;
            if base + 2 >= MEMORY_SIZE {
                return Err(Fault::Addressing { addr: base + 2 });
            }
            self.ram.set(base, vx / 100);
            self.ram.set(base + 1, (vx / 10) % 10);
            self.ram.set(base + 2, vx % 10);
        } else if kk == 0x55 {
            return self.store_registers(x);
        } else {
            return self.load_registers(x);
        }
        Ok(())
    }

    /// Executes instruction `op`; the program counter has already moved past
    /// it. `rnd` is the random byte that `Cxnn` masks. A fault leaves the
    /// machine as it was.
    pub fn execute(&mut self, op: u16, rnd: u8) -> (r: Result<(), Fault>)
        requires
            old(self)@.wf(),
            2 <= old(self)@.pc <= MEMORY_SIZE,
        ensures
            reports(old(self)@, final(self)@, r, exec_spec(old(self)@, op, rnd)),
            final(self)@.wf(),
    {
        let d1 = op / 0x1000;
        let x = ((op / 0x100) % 0x10) as usize;
        let y = ((op / 0x10) % 0x10) as usize;
        let d4 = op % 0x10;
        let nn = (op % 0x100) as u8;
        let nnn = op % 0x1000;
        let unknown = Err(Fault::UnknownOpcode { op, pc: self.pc });
        if d1 == 0x0 {
            if op == 0x0000 {
                Ok(())
            } else if op == 0x00E0 {
                self.clear_screen();
                Ok(())
            } else if op == 0x00EE {
                match self.pop() {
                    Ok(ret) => {
                        self.pc = ret;
                        Ok(())
                    },
                    Err(e) => Err(e),
                }
            } else {
                unknown
            }
        } else if d1 == 0x1 {
            self.pc = nnn;
            Ok(())
        } else if d1 == 0x2 {
            let ret = self.pc;
            match self.push(ret) {
                Ok(()) => {
                    self.pc = nnn;
                    Ok(())
                },
                Err(e) => Err(e),
            }
        } else if d1 == 0x3 {
            if self.v_reg[x] == nn {
                self.pc = self.pc + 2;
            }
            Ok(())
        } else if d1 == 0x4 {
            if self.v_reg[x] != nn {
                self.pc = self.pc + 2;
            }
            Ok(())
        } else if d1 == 0x5 {
            if d4 != 0 {
                return unknown;
            }
            if self.v_reg[x] == self.v_reg[y] {
                self.pc = self.pc + 2;
            }
            Ok(())
        } else if d1 == 0x6 {
            self.v_reg.set(x, nn);
            Ok(())
        } else if d1 == 0x7 {
            let sum = self.v_reg[x] as u16 + nn as u16;
            self.v_reg.set(x, (sum % 256) as u8);
            Ok(())
        } else if d1 == 0x8 {
            if !(d4 <= 7 || d4 == 0xE) {
                return unknown;
            }
            self.exec_alu(x, y, d4);
            Ok(())
        } else if d1 == 0x9 {
            if d4 != 0 {
                return unknown;
            }
            if self.v_reg[x] != self.v_reg[y] {
                self.pc = self.pc + 2;
            }
            Ok(())
        } else if d1 == 0xA {
            self.i_reg = nnn;
            Ok(())
        } else if d1 == 0xB {
            self.pc = self.v_reg[0] as u16 + nnn;
            Ok(())
        } else if d1 == 0xC {
            self.v_reg.set(x, rnd & nn);
            Ok(())
        } else if d1 == 0xD {
            self.draw(x, y, d4)
        } else if d1 == 0xE {
            if nn != 0x9E && nn != 0xA1 {
                return unknown;
            }
            let key = self.v_reg[x];
            if key as usize >= NUM_KEYS {
                return Err(Fault::KeyIndex { key });
            }
            if self.keys[key as usize] == (nn == 0x9E) {
                self.pc = self.pc + 2;
            }
            Ok(())
        } else {
            if !(nn == 0x07 || nn == 0x0A || nn == 0x15 || nn == 0x18 || nn == 0x1E || nn == 0x29
                || nn == 0x33 || nn == 0x55 || nn == 0x65) {
                return unknown;
            }
            self.exec_misc(x, nn)
        }
    }

    /// Reads the instruction word at the program counter, big-endian, and
    /// moves the program counter past it.
    fn fetch(&mut self) -> (r: Result<u16, Fault>)
        requires
            old(self)@.wf(),
        ensures
            match fetch_spec(old(self)@) {
                Ok(op) => r == Ok::<u16, Fault>(op) && final(self)@ == (EmuView {
                    pc: (old(self).pc + 2) as u16,
                    ..old(self)@
                }),
                Err(e) => r == Err::<u16, Fault>(e) && final(self)@ == old(self)@,
            },
    {
        let pc = self.pc as usize;
        if pc + 1 >= MEMORY_SIZE {
            return Err(Fault::Addressing { addr: pc + 1 });
        }
        let hi = self.ram[pc] as u16;
        let lo = self.ram[pc + 1] as u16;
        self.pc = self.pc + 2;
        Ok(hi * 256 + lo)
    }

    /// One fetch-decode-execute cycle, with `rnd` as the random byte should
    /// the instruction be `Cxnn`. A fault in the fetch leaves the machine as
    /// it was; a fault in the instruction leaves it as the fetch left it.
    pub fn tick_with(&mut self, rnd: u8) -> (r: Result<(), Fault>)
        requires
            old(self)@.wf(),
        ensures
            final(self)@.wf(),
            (final(self)@, r) == step_spec(old(self)@, rnd),
    {
        let op = match self.fetch() {
            Ok(op) => op,
            Err(e) => return Err(e),
        };
        self.execute(op, rnd)
    }

    /// Whether the next instruction is `Cxnn`, which needs a random byte.
    fn next_wants_random(&self) -> (r: bool)
        requires
            self@.wf(),
        ensures
            r == wants_random(self@),
    {
        let pc = self.pc as usize;
        pc + 1 < MEMORY_SIZE && self.ram[pc] / 0x10 == 0xC
    }

    /// One fetch-decode-execute cycle. `Cxnn` draws its byte from the thread's
    /// random generator; every other instruction is deterministic.
    pub fn tick(&mut self) -> (r: Result<(), Fault>)
        requires
            old(self)@.wf(),
        ensures
            final(self)@.wf(),
            exists|rnd: u8| (final(self)@, r) == #[trigger] step_spec(old(self)@, rnd),
            !wants_random(old(self)@) ==> (final(self)@, r) == step_spec(old(self)@, 0),
    {
        let rnd = if self.next_wants_random() {
            random_byte()
        } else {
            0
        };
        let ghost pre = self@;
        let r = self.tick_with(rnd);
        assert((self@, r) == step_spec(pre, rnd));
        r
    }

    /// Counts both timers down by one, each stopping at zero.
    pub fn tick_timers(&mut self)
        ensures
            final(self)@ == (EmuView {
                dt: timer_tick(old(self)@.dt),
                st: timer_tick(old(self)@.st),
                ..old(self)@
            }),
    {
        if self.dt > 0 {
            self.dt = self.dt - 1;
        }
        if self.st > 0 {
            self.st = self.st - 1;
        }
    }

    /// The framebuffer, cell `x + SCREEN_WIDTH * y` for pixel `(x, y)`.
    pub fn get_display(&self) -> (r: &[bool])
        ensures
            r@ == self@.screen,
    {
        self.screen.as_slice()
    }

    /// Marks key `idx` as pressed or released.
    pub fn keypress(&mut self, idx: usize, pressed: bool)
        requires
            old(self)@.wf(),
            idx < NUM_KEYS,
        ensures
            final(self)@ == (EmuView { keys: old(self)@.keys.update(idx as int, pressed), ..old(self)@ }),
    {
        self.keys.set(idx, pressed);
    }

    /// Copies a program image into memory at the load address. An image
    /// longer than the space from there to the end of memory is refused and
    /// nothing is copied.
    pub fn load(&mut self, data: &[u8]) -> (r: Result<(), Fault>)
        requires
            old(self)@.wf(),
        ensures
            final(self)@.wf(),
            reports(old(self)@, final(self)@, r, load_spec(old(self)@, data@)),
    {
        let start = PROGRAM_START as usize;
        if data.len() > MEMORY_SIZE - start {
            return Err(Fault::Capacity { len: data.len() });
        }
        let ghost pre = self@;
        let mut j: usize = 0;
        while j < data.len()
            invariant
                pre == old(self)@,
                pre.wf(),
                start == PROGRAM_START,
                start + data@.len() <= MEMORY_SIZE,
                j <= data@.len(),
                self@ == (EmuView { ram: self.ram@, ..pre }),
                self.ram@ == Seq::new(
                    MEMORY_SIZE as nat,
                    |a: int| if start <= a < start + j { data@[a - start] } else { pre.ram[a] },
                ),
            decreases data@.len() - j,
        {
            self.ram.set(start + j, data[j]);
            j = j + 1;
            assert(self.ram@ =~= Seq::new(
                MEMORY_SIZE as nat,
                |a: int| if start <= a < start + j { data@[a - start] } else { pre.ram[a] },
            ));
        }
        Ok(())
    }

    /// Puts the machine back into the state that `new` gives, in place.
    pub fn reset(&mut self)
        requires
            old(self)@.wf(),
        ensures
            final(self)@ == initial_view(),
            final(self)@.wf(),
    {
        self.pc = PROGRAM_START;
        fill(&mut self.ram, 0u8);
        self.install_glyphs();
        fill(&mut self.screen, false);
        fill(&mut self.v_reg, 0u8);
        self.i_reg = 0;
        self.sp = 0;
        fill(&mut self.stack, 0u16);
        fill(&mut self.keys, false);
        self.dt = 0;
        self.st = 0;
        assert(self.ram@ =~= initial_ram());
        assert(self.screen@ =~= blank_screen());
        assert(self.v_reg@ =~= initial_view().v);
        assert(self.stack@ =~= initial_view().stack);
        assert(self.keys@ =~= initial_view().keys);
    }

    /// The program counter.
    pub fn pc(&self) -> (r: u16)
        ensures
            r == self@.pc,
    {
        self.pc
    }

    /// Register `Vx`.
    pub fn register(&self, x: usize) -> (r: u8)
        requires
            self@.wf(),
            x < NUM_REGISTERS,
        ensures
            r == self@.v[x as int],
    {
        self.v_reg[x]
    }

    /// The index register `I`.
    pub fn index(&self) -> (r: u16)
        ensures
            r == self@.i,
    {
        self.i_reg
    }

    /// The memory byte at `addr`.
    pub fn memory(&self, addr: usize) -> (r: u8)
        requires
            self@.wf(),
            addr < MEMORY_SIZE,
        ensures
            r == self@.ram[addr as int],
    {
        self.ram[addr]
    }

    /// How many return addresses are on the stack.
    pub fn stack_depth(&self) -> (r: u16)
        ensures
            r == self@.sp,
    {
        self.sp
    }

    /// The delay timer.
    pub fn delay_timer(&self) -> (r: u8)
        ensures
            r == self@.dt,
    {
        self.dt
    }

    /// The sound timer; a tone should sound while it is above zero.
    pub fn sound_timer(&self) -> (r: u8)
        ensures
            r == self@.st,
    {
        self.st
    }
}

} // verus!
