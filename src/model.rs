//! The abstract machine: what a CHIP-8 interpreter holds, and how each
//! instruction and each tick transforms it.
use vstd::prelude::*;

verus! {

/// Bytes of addressable memory.
pub const MEMORY_SIZE: usize = 4096;

/// Number of general registers V0..VF.
pub const NUM_REGISTERS: usize = 16;

/// Depth of the return-address stack.
pub const STACK_SIZE: usize = 16;

/// Number of keys on the keypad.
pub const KEYPAD_SIZE: usize = 16;

/// Columns of the frame buffer.
pub const CHIP8_WIDTH: usize = 64;

/// Rows of the frame buffer.
pub const CHIP8_HEIGHT: usize = 32;

/// First address of program space.
pub const PROGRAM_AREA_START: usize = 0x200;

/// Top address of program space.
pub const PROGRAM_AREA_END: usize = 0xfff;

/// Width of one instruction in bytes.
pub const OPCODE_SIZE: u16 = 2;

/// Index of the flag register VF.
pub const FLAG_REGISTER: usize = 0xf;

/// A fatal condition met while executing one tick. `addr` is the address of
/// the instruction that failed.
#[derive(Debug, Clone, Copy, PartialEq, Eq, Structural)]
pub enum Fault {
    /// CALL with the stack already full.
    StackOverflow { addr: u16 },
    /// RET with an empty stack.
    StackUnderflow { addr: u16 },
    /// The program counter points past the last whole instruction in memory.
    OutOfBoundsFetch { addr: u16 },
    /// A memory access relative to I fell past the top of memory.
    MemoryOutOfBounds { addr: u16 },
    /// A key-skip instruction named a key index above 0xF.
    KeyOutOfRange { addr: u16 },
}

/// Why a program could not be loaded.
#[derive(Debug, Clone, Copy, PartialEq, Eq, Structural)]
pub enum LoadError {
    /// The program does not fit in program space.
    ProgramTooLarge,
}

/// Abstract state of the machine.
pub struct MachineState {
    pub memory: Seq<u8>,
    pub v: Seq<u8>,
    pub i: u16,
    pub pc: u16,
    pub stack: Seq<u16>,
    pub sp: nat,
    pub delay_timer: u8,
    pub sound_timer: u8,
    pub keypad: Seq<bool>,
    /// Rows of pixels, each 0 (off) or 1 (on).
    pub vram: Seq<Seq<u8>>,
    /// Set by the clear and draw instructions within the current tick.
    pub vram_changed: bool,
    /// Execution is suspended until a key is pressed.
    pub waiting: bool,
    /// Register that receives the key once one is pressed.
    pub target: nat,
}

/// The built-in font: sixteen glyphs 0..F, five rows each.
pub open spec fn font_glyphs() -> Seq<u8> {
    seq![
        0xF0, 0x90, 0x90, 0x90, 0xF0, 0x20, 0x60, 0x20, 0x20, 0x70,
        0xF0, 0x10, 0xF0, 0x80, 0xF0, 0xF0, 0x10, 0xF0, 0x10, 0xF0,
        0x90, 0x90, 0xF0, 0x10, 0x10, 0xF0, 0x80, 0xF0, 0x10, 0xF0,
        0xF0, 0x80, 0xF0, 0x90, 0xF0, 0xF0, 0x10, 0x20, 0x40, 0x40,
        0xF0, 0x90, 0xF0, 0x90, 0xF0, 0xF0, 0x90, 0xF0, 0x10, 0xF0,
        0xF0, 0x90, 0xF0, 0x90, 0x90, 0xE0, 0x90, 0xE0, 0x90, 0xE0,
        0xF0, 0x80, 0x80, 0x80, 0xF0, 0xE0, 0x90, 0x90, 0x90, 0xE0,
        0xF0, 0x80, 0xF0, 0x80, 0xF0, 0xF0, 0x80, 0xF0, 0x80, 0x80,
    ]
}

/// A frame buffer with every pixel off.
pub open spec fn blank_frame() -> Seq<Seq<u8>> {
    Seq::new(CHIP8_HEIGHT as nat, |r: int| Seq::new(CHIP8_WIDTH as nat, |c: int| 0u8))
}

impl MachineState {
    pub open spec fn wf(self) -> bool {
        &&& self.memory.len() == MEMORY_SIZE
        &&& self.v.len() == NUM_REGISTERS
        &&& self.stack.len() == STACK_SIZE
        &&& self.sp <= STACK_SIZE
        &&& self.keypad.len() == KEYPAD_SIZE
        &&& self.target < NUM_REGISTERS
        &&& self.vram.len() == CHIP8_HEIGHT
        &&& forall|r: int| 0 <= r < CHIP8_HEIGHT ==> #[trigger] self.vram[r].len() == CHIP8_WIDTH
        &&& forall|r: int, c: int|
            0 <= r < CHIP8_HEIGHT && 0 <= c < CHIP8_WIDTH ==> #[trigger] self.vram[r][c] <= 1
    }
}

/// The machine at power-on: font at address 0, program counter at 0x200,
/// everything else zero.
pub open spec fn initial_state() -> MachineState {
    MachineState {
        memory: Seq::new(MEMORY_SIZE as nat, |a: int| if a < 80 { font_glyphs()[a] } else { 0u8 }),
        v: Seq::new(NUM_REGISTERS as nat, |k: int| 0u8),
        i: 0,
        pc: PROGRAM_AREA_START as u16,
        stack: Seq::new(STACK_SIZE as nat, |k: int| 0u16),
        sp: 0,
        delay_timer: 0,
        sound_timer: 0,
        keypad: Seq::new(KEYPAD_SIZE as nat, |k: int| false),
        vram: blank_frame(),
        vram_changed: false,
        waiting: false,
        target: 0,
    }
}

/// Whether a program of `len` bytes fits in program space.
pub open spec fn program_fits(len: nat) -> bool {
    len <= PROGRAM_AREA_END - PROGRAM_AREA_START
}

/// Memory after copying `game` to the start of program space.
pub open spec fn loaded_memory(memory: Seq<u8>, game: Seq<u8>) -> Seq<u8> {
    Seq::new(
        memory.len(),
        |a: int|
            if PROGRAM_AREA_START <= a < PROGRAM_AREA_START + game.len() {
                game[a - PROGRAM_AREA_START]
            } else {
                memory[a]
            },
    )
}

// ---- fields of an instruction word ----
/// The high nibble: the instruction family.
pub open spec fn op_family(op: u16) -> int {
    op as int / 0x1000
}

/// Second nibble: register x.
pub open spec fn op_x(op: u16) -> int {
    (op as int / 0x100) % 0x10
}

/// Third nibble: register y.
pub open spec fn op_y(op: u16) -> int {
    (op as int / 0x10) % 0x10
}

/// Low nibble.
pub open spec fn op_n(op: u16) -> int {
    op as int % 0x10
}

/// Low byte: an immediate value.
pub open spec fn op_kk(op: u16) -> int {
    op as int % 0x100
}

/// Low twelve bits: an address.
pub open spec fn op_nnn(op: u16) -> int {
    op as int % 0x1000
}

/// The instruction word at the program counter, high byte first.
pub open spec fn fetch(s: MachineState) -> u16 {
    (s.memory[s.pc as int] as int * 0x100 + s.memory[s.pc as int + 1] as int) as u16
}

/// Whether a whole instruction can be read at the program counter.
pub open spec fn can_fetch(s: MachineState) -> bool {
    s.pc as int + 1 < MEMORY_SIZE
}

// ---- small transitions ----
/// Move past the current instruction.
pub open spec fn advance(s: MachineState) -> MachineState {
    MachineState { pc: (s.pc + OPCODE_SIZE) as u16, ..s }
}

/// Move past the current instruction, and past the next one when `cond` holds.
pub open spec fn skip_if(s: MachineState, cond: bool) -> MachineState {
    if cond {
        MachineState { pc: (s.pc + 2 * OPCODE_SIZE) as u16, ..s }
    } else {
        advance(s)
    }
}

pub open spec fn jump(s: MachineState, addr: int) -> MachineState {
    MachineState { pc: addr as u16, ..s }
}

pub open spec fn with_reg(s: MachineState, x: int, b: u8) -> MachineState {
    MachineState { v: s.v.update(x, b), ..s }
}

/// Write the flag VF first, then Vx. Both values are computed from the
/// registers as they were before the instruction; when x is F the result
/// overwrites the flag.
pub open spec fn with_flag_then_reg(s: MachineState, x: int, flag: u8, b: u8) -> MachineState {
    with_reg(with_reg(s, FLAG_REGISTER as int, flag), x, b)
}

/// Set Vx and advance.
pub open spec fn load_reg(s: MachineState, x: int, b: u8) -> MachineState {
    advance(with_reg(s, x, b))
}

/// Set VF, then Vx, and advance.
pub open spec fn load_flag_reg(s: MachineState, x: int, flag: u8, b: u8) -> MachineState {
    advance(with_flag_then_reg(s, x, flag, b))
}

pub open spec fn flag(b: bool) -> u8 {
    if b { 1 } else { 0 }
}

// ---- instruction semantics ----
pub open spec fn clear_screen(s: MachineState) -> MachineState {
    advance(MachineState { vram: blank_frame(), vram_changed: true, ..s })
}

pub open spec fn return_from(s: MachineState) -> Result<MachineState, Fault> {
    if s.sp == 0 {
        Err(Fault::StackUnderflow { addr: s.pc })
    } else {
        Ok(MachineState { sp: (s.sp - 1) as nat, pc: s.stack[s.sp - 1], ..s })
    }
}

pub open spec fn call(s: MachineState, addr: int) -> Result<MachineState, Fault> {
    if s.sp >= STACK_SIZE {
        Err(Fault::StackOverflow { addr: s.pc })
    } else {
        Ok(
            MachineState {
                stack: s.stack.update(s.sp as int, (s.pc + OPCODE_SIZE) as u16),
                sp: s.sp + 1,
                pc: addr as u16,
                ..s
            },
        )
    }
}

pub open spec fn add_regs(s: MachineState, x: int, y: int) -> MachineState {
    let sum = s.v[x] + s.v[y];
    load_flag_reg(s, x, flag(sum > 255), (sum % 256) as u8)
}

pub open spec fn sub_regs(s: MachineState, x: int, y: int) -> MachineState {
    load_flag_reg(s, x, flag(s.v[x] >= s.v[y]), ((s.v[x] - s.v[y]) % 256) as u8)
}

pub open spec fn subn_regs(s: MachineState, x: int, y: int) -> MachineState {
    load_flag_reg(s, x, flag(s.v[y] >= s.v[x]), ((s.v[y] - s.v[x]) % 256) as u8)
}

pub open spec fn shift_right(s: MachineState, x: int) -> MachineState {
    load_flag_reg(s, x, s.v[x] % 2, s.v[x] / 2)
}

pub open spec fn shift_left(s: MachineState, x: int) -> MachineState {
    load_flag_reg(s, x, s.v[x] / 128, ((s.v[x] * 2) % 256) as u8)
}

/// Whether bit `k` of a sprite row, counted from the left, is set.
pub open spec fn sprite_bit(b: u8, k: int) -> bool {
    (b >> ((7 - k) as u8)) & 1u8 == 1u8
}

/// Row offset of frame row `r` inside a sprite whose top row is `vy`.
pub open spec fn row_offset(vy: u8, r: int) -> int {
    (r - vy) % (CHIP8_HEIGHT as int)
}

/// Column offset of frame column `c` inside a sprite whose left edge is `vx`.
pub open spec fn col_offset(vx: u8, c: int) -> int {
    (c - vx) % (CHIP8_WIDTH as int)
}

/// Whether the sprite of `n` rows read from memory at I, placed at
/// (vx, vy) with wraparound, has a lit pixel on frame cell (r, c).
pub open spec fn lit(s: MachineState, vx: u8, vy: u8, n: int, r: int, c: int) -> bool {
    let dr = row_offset(vy, r);
    let dc = col_offset(vx, c);
    dr < n && dc < 8 && sprite_bit(s.memory[s.i + dr], dc)
}

/// Whether a sprite of `n` rows fits in memory when read from address I
/// (a sprite of no rows reads nothing).
pub open spec fn sprite_readable(s: MachineState, n: int) -> bool {
    n == 0 || s.i + n <= MEMORY_SIZE
}

/// The frame after XOR-ing the sprite onto it.
pub open spec fn drawn_frame(s: MachineState, vx: u8, vy: u8, n: int) -> Seq<Seq<u8>> {
    Seq::new(
        CHIP8_HEIGHT as nat,
        |r: int|
            Seq::new(
                CHIP8_WIDTH as nat,
                |c: int| s.vram[r][c] ^ flag(lit(s, vx, vy, n, r, c)),
            ),
    )
}

/// Whether drawing the sprite turns off a pixel that was on.
pub open spec fn collides(s: MachineState, vx: u8, vy: u8, n: int) -> bool {
    exists|r: int, c: int|
        0 <= r < CHIP8_HEIGHT && 0 <= c < CHIP8_WIDTH && #[trigger] lit(s, vx, vy, n, r, c)
            && s.vram[r][c] == 1
}

pub open spec fn draw(s: MachineState, x: int, y: int, n: int) -> Result<MachineState, Fault> {
    let vx = s.v[x];
    let vy = s.v[y];
    if !sprite_readable(s, n) {
        Err(Fault::MemoryOutOfBounds { addr: s.pc })
    } else {
        Ok(
            load_reg(
                MachineState { vram: drawn_frame(s, vx, vy, n), vram_changed: true, ..s },
                FLAG_REGISTER as int,
                flag(collides(s, vx, vy, n)),
            ),
        )
    }
}

pub open spec fn skip_key(s: MachineState, x: int, pressed: bool) -> Result<MachineState, Fault> {
    let key = s.v[x];
    if key >= KEYPAD_SIZE {
        Err(Fault::KeyOutOfRange { addr: s.pc })
    } else {
        Ok(skip_if(s, s.keypad[key as int] == pressed))
    }
}

pub open spec fn wait_key(s: MachineState, x: int) -> MachineState {
    advance(MachineState { waiting: true, target: x as nat, ..s })
}

pub open spec fn bcd(s: MachineState, x: int) -> Result<MachineState, Fault> {
    let val = s.v[x];
    if s.i + 2 >= MEMORY_SIZE {
        Err(Fault::MemoryOutOfBounds { addr: s.pc })
    } else {
        Ok(
            advance(
                MachineState {
                    memory: s.memory.update(s.i as int, val / 100).update(
                        s.i + 1,
                        (val % 100) / 10,
                    ).update(s.i + 2, val % 10),
                    ..s
                },
            ),
        )
    }
}

pub open spec fn store_regs(s: MachineState, x: int) -> Result<MachineState, Fault> {
    if s.i + x >= MEMORY_SIZE {
        Err(Fault::MemoryOutOfBounds { addr: s.pc })
    } else {
        Ok(
            advance(
                MachineState {
                    memory: Seq::new(
                        s.memory.len(),
                        |a: int|
                            if s.i <= a <= s.i + x {
                                s.v[a - s.i]
                            } else {
                                s.memory[a]
                            },
                    ),
                    ..s
                },
            ),
        )
    }
}

pub open spec fn load_regs(s: MachineState, x: int) -> Result<MachineState, Fault> {
    if s.i + x >= MEMORY_SIZE {
        Err(Fault::MemoryOutOfBounds { addr: s.pc })
    } else {
        Ok(
            advance(
                MachineState {
                    v: Seq::new(
                        s.v.len(),
                        |k: int|
                            if k <= x {
                                s.memory[s.i + k]
                            } else {
                                s.v[k]
                            },
                    ),
                    ..s
                },
            ),
        )
    }
}

pub open spec fn set_index(s: MachineState, addr: int) -> MachineState {
    advance(MachineState { i: addr as u16, ..s })
}

/// Execute instruction `op` on `s`; `rnd` is the random byte that Cxkk uses.
/// Opcodes that match no rule only advance.
pub open spec fn execute(s: MachineState, op: u16, rnd: u8) -> Result<MachineState, Fault> {
    let f = op_family(op);
    let x = op_x(op);
    let y = op_y(op);
    let n = op_n(op);
    let kk = op_kk(op);
    let nnn = op_nnn(op);
    if op == 0x00E0 {
        Ok(clear_screen(s))
    } else if op == 0x00EE {
        return_from(s)
    } else if f == 0x0 || f == 0x1 {
        Ok(jump(s, nnn))
    } else if f == 0x2 {
        call(s, nnn)
    } else if f == 0x3 {
        Ok(skip_if(s, s.v[x] == kk))
    } else if f == 0x4 {
        Ok(skip_if(s, s.v[x] != kk))
    } else if f == 0x5 && n == 0x0 {
        Ok(skip_if(s, s.v[x] == s.v[y]))
    } else if f == 0x6 {
        Ok(load_reg(s, x, kk as u8))
    } else if f == 0x7 {
        Ok(load_reg(s, x, ((s.v[x] + kk) % 256) as u8))
    } else if f == 0x8 && n == 0x0 {
        Ok(load_reg(s, x, s.v[y]))
    } else if f == 0x8 && n == 0x1 {
        Ok(load_reg(s, x, s.v[x] | s.v[y]))
    } else if f == 0x8 && n == 0x2 {
        Ok(load_reg(s, x, s.v[x] & s.v[y]))
    } else if f == 0x8 && n == 0x3 {
        Ok(load_reg(s, x, s.v[x] ^ s.v[y]))
    } else if f == 0x8 && n == 0x4 {
        Ok(add_regs(s, x, y))
    } else if f == 0x8 && n == 0x5 {
        Ok(sub_regs(s, x, y))
    } else if f == 0x8 && n == 0x6 {
        Ok(shift_right(s, x))
    } else if f == 0x8 && n == 0x7 {
        Ok(subn_regs(s, x, y))
    } else if f == 0x8 && n == 0xE {
        Ok(shift_left(s, x))
    } else if f == 0x9 && n == 0x0 {
        Ok(skip_if(s, s.v[x] != s.v[y]))
    } else if f == 0xA {
        Ok(set_index(s, nnn))
    } else if f == 0xB {
        Ok(jump(s, nnn + s.v[0]))
    } else if f == 0xC {
        Ok(load_reg(s, x, rnd & (kk as u8)))
    } else if f == 0xD {
        draw(s, x, y, n)
    } else if f == 0xE && kk == 0x9E {
        skip_key(s, x, true)
    } else if f == 0xE && kk == 0xA1 {
        skip_key(s, x, false)
    } else if f == 0xF && kk == 0x07 {
        Ok(load_reg(s, x, s.delay_timer))
    } else if f == 0xF && kk == 0x0A {
        Ok(wait_key(s, x))
    } else if f == 0xF && kk == 0x15 {
        Ok(advance(MachineState { delay_timer: s.v[x], ..s }))
    } else if f == 0xF && kk == 0x18 {
        Ok(advance(MachineState { sound_timer: s.v[x], ..s }))
    } else if f == 0xF && kk == 0x1E {
        Ok(set_index(s, (s.i + s.v[x]) % 0x10000))
    } else if f == 0xF && kk == 0x29 {
        Ok(set_index(s, s.v[x] * 5))
    } else if f == 0xF && kk == 0x33 {
        bcd(s, x)
    } else if f == 0xF && kk == 0x55 {
        store_regs(s, x)
    } else if f == 0xF && kk == 0x65 {
        load_regs(s, x)
    } else {
        Ok(advance(s))
    }
}

// ---- one tick ----
/// Start of a tick: latch the keypad, forget the previous tick's frame change,
/// and count both timers down by one unless already zero.
pub open spec fn begin_tick(s: MachineState, keys: Seq<bool>) -> MachineState {
    MachineState {
        keypad: keys,
        vram_changed: false,
        delay_timer: if s.delay_timer > 0 { (s.delay_timer - 1) as u8 } else { 0 },
        sound_timer: if s.sound_timer > 0 { (s.sound_timer - 1) as u8 } else { 0 },
        ..s
    }
}

/// A tick asks for a beep exactly when it takes the sound timer from 1 to 0.
pub open spec fn beep_requested(s: MachineState) -> bool {
    s.sound_timer == 1
}

/// The lowest pressed key at index `k` or above, or 16 when there is none.
pub open spec fn first_pressed(keys: Seq<bool>, k: int) -> int
    decreases KEYPAD_SIZE - k,
{
    if k >= KEYPAD_SIZE || k < 0 {
        KEYPAD_SIZE as int
    } else if keys[k] {
        k
    } else {
        first_pressed(keys, k + 1)
    }
}

/// While waiting for a key: store the first pressed key, if any, and resume.
pub open spec fn service_wait(s: MachineState) -> MachineState {
    let k = first_pressed(s.keypad, 0);
    if k < KEYPAD_SIZE {
        MachineState { v: s.v.update(s.target as int, k as u8), waiting: false, ..s }
    } else {
        s
    }
}

/// The state after one tick with keypad snapshot `keys`, where `rnd` is the
/// random byte available to Cxkk.
pub open spec fn next_state(s: MachineState, keys: Seq<bool>, rnd: u8) -> Result<MachineState, Fault> {
    let t = begin_tick(s, keys);
    if s.waiting {
        Ok(service_wait(t))
    } else if !can_fetch(t) {
        Err(Fault::OutOfBoundsFetch { addr: t.pc })
    } else {
        execute(t, fetch(t), rnd)
    }
}

} // verus!
