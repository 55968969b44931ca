//! The interpreter: machine state, fetch/decode, execution rules and the tick driver.
use vstd::prelude::*;

use crate::model::{
    add_regs, advance, bcd, beep_requested, begin_tick, blank_frame, call, can_fetch,
    clear_screen, col_offset, collides, draw, drawn_frame, execute, fetch, first_pressed, flag,
    font_glyphs, initial_state, jump, lit, load_flag_reg, load_reg, load_regs, loaded_memory,
    next_state, op_family, op_kk, op_n, op_nnn, op_x, op_y, program_fits, return_from,
    row_offset, set_index, shift_left, shift_right, skip_if, skip_key, store_regs, sub_regs,
    subn_regs, wait_key, CHIP8_HEIGHT, CHIP8_WIDTH, FLAG_REGISTER, KEYPAD_SIZE, MEMORY_SIZE,
    NUM_REGISTERS, OPCODE_SIZE, PROGRAM_AREA_END, PROGRAM_AREA_START, STACK_SIZE, Fault,
    LoadError, MachineState,
};

verus! {

/// What one tick reports to the host.
pub struct Output {
    /// The frame buffer was cleared or drawn on during this tick.
    pub vram_changed: bool,
    /// The sound timer ran out during this tick.
    pub beep_request: bool,
    /// The frame buffer as it stands after the tick, one byte per pixel (0 or 1).
    pub vram: [[u8; CHIP8_WIDTH]; CHIP8_HEIGHT],
}

/// A frame buffer, seen as rows of pixels.
pub open spec fn frame_view(f: [[u8; CHIP8_WIDTH]; CHIP8_HEIGHT]) -> Seq<Seq<u8>> {
    f@.map_values(|row: [u8; CHIP8_WIDTH]| row@)
}

/// How a fallible step relates the state before, the state after and the
/// value returned: on success the expected state is reached, on a fault the
/// state is left as it was.
pub open spec fn steps_to(
    before: MachineState,
    after: MachineState,
    r: Result<(), Fault>,
    expected: Result<MachineState, Fault>,
) -> bool {
    match expected {
        Ok(s) => r is Ok && after == s,
        Err(f) => r == Err::<(), Fault>(f) && after == before,
    }
}

/// What a tick with keypad `keys` and random byte `rnd` owes: the state of
/// `next_state`, reported in the output; on a fault, the state of the tick's
/// bookkeeping alone.
pub open spec fn tick_outcome(
    before: MachineState,
    after: MachineState,
    keys: Seq<bool>,
    rnd: u8,
    r: Result<Output, Fault>,
) -> bool {
    match next_state(before, keys, rnd) {
        Ok(s) => match r {
            Ok(out) => {
                &&& after == s
                &&& out.vram_changed == s.vram_changed
                &&& out.beep_request == beep_requested(before)
                &&& frame_view(out.vram) == s.vram
            },
            Err(_) => false,
        },
        Err(f) => r == Err::<Output, Fault>(f) && after == begin_tick(before, keys),
    }
}

/// Relies on rand::random: a byte drawn from the thread-local generator.
#[verifier::external_body]
fn random_byte() -> u8 {
    rand::random::<u8>()
}

/// The built-in font, glyphs 0..F of five rows each.
fn fontset() -> (r: [u8; 80])
    ensures
        r@ == font_glyphs(),
{
    let r: [u8; 80] = [
        0xF0, 0x90, 0x90, 0x90, 0xF0, 0x20, 0x60, 0x20, 0x20, 0x70,
        0xF0, 0x10, 0xF0, 0x80, 0xF0, 0xF0, 0x10, 0xF0, 0x10, 0xF0,
        0x90, 0x90, 0xF0, 0x10, 0x10, 0xF0, 0x80, 0xF0, 0x10, 0xF0,
        0xF0, 0x80, 0xF0, 0x90, 0xF0, 0xF0, 0x10, 0x20, 0x40, 0x40,
        0xF0, 0x90, 0xF0, 0x90, 0xF0, 0xF0, 0x90, 0xF0, 0x10, 0xF0,
        0xF0, 0x90, 0xF0, 0x90, 0x90, 0xE0, 0x90, 0xE0, 0x90, 0xE0,
        0xF0, 0x80, 0x80, 0x80, 0xF0, 0xE0, 0x90, 0x90, 0x90, 0xE0,
        0xF0, 0x80, 0xF0, 0x80, 0xF0, 0xF0, 0x80, 0xF0, 0x80, 0x80,
    ];
    assert(r@ =~= font_glyphs());
    r
}

/// The CHIP-8 virtual machine.
pub struct Processor {
    memory: [u8; MEMORY_SIZE],
    stack: [u16; STACK_SIZE],
    sp: u16,
    keypad: [bool; KEYPAD_SIZE],
    vram: [[u8; CHIP8_WIDTH]; CHIP8_HEIGHT],
    v: [u8; NUM_REGISTERS],
    i: u16,
    pc: u16,
    delay_timer: u8,
    sound_timer: u8,
    vram_changed: bool,
    waiting: bool,
    selected_v: u8,
}

impl View for Processor {
    type V = MachineState;

    closed spec fn view(&self) -> MachineState {
        MachineState {
            memory: self.memory@,
            v: self.v@,
            i: self.i,
            pc: self.pc,
            stack: self.stack@,
            sp: self.sp as nat,
            delay_timer: self.delay_timer,
            sound_timer: self.sound_timer,
            keypad: self.keypad@,
            vram: frame_view(self.vram),
            vram_changed: self.vram_changed,
            waiting: self.waiting,
            target: self.selected_v as nat,
        }
    }
}

proof fn lemma_blank_frame()
    ensures
        frame_view([[0u8; CHIP8_WIDTH]; CHIP8_HEIGHT]) == blank_frame(),
{
    let f = [[0u8; CHIP8_WIDTH]; CHIP8_HEIGHT];
    assert forall|r: int| 0 <= r < CHIP8_HEIGHT implies #[trigger] frame_view(f)[r]
        == blank_frame()[r] by {
        assert(frame_view(f)[r] =~= blank_frame()[r]);
    }
    assert(frame_view(f) =~= blank_frame());
}

proof fn lemma_opcode_fields(op: u16)
    ensures
        (op >> 12u16) as int == op_family(op),
        ((op >> 8u16) & 0xFu16) as int == op_x(op),
        ((op >> 4u16) & 0xFu16) as int == op_y(op),
        (op & 0xFu16) as int == op_n(op),
        (op & 0xFFu16) as int == op_kk(op),
        (op & 0xFFFu16) as int == op_nnn(op),
{
    assert((op >> 12u16) == op / 0x1000) by (bit_vector);
    assert(((op >> 8u16) & 0xFu16) == (op / 0x100) % 0x10) by (bit_vector);
    assert(((op >> 4u16) & 0xFu16) == (op / 0x10) % 0x10) by (bit_vector);
    assert((op & 0xFu16) == op % 0x10) by (bit_vector);
    assert((op & 0xFFu16) == op % 0x100) by (bit_vector);
    assert((op & 0xFFFu16) == op % 0x1000) by (bit_vector);
}


/// The cell of a sprite already handled when the draw loop stands at row
/// `b`, column `k` of the sprite.
spec fn drawn_upto(vx: u8, vy: u8, r: int, c: int, b: int, k: int) -> bool {
    row_offset(vy, r) < b || (row_offset(vy, r) == b && col_offset(vx, c) < k)
}

/// Some lit pixel among those already handled was on before the draw.
spec fn hit_upto(s: MachineState, vx: u8, vy: u8, n: int, b: int, k: int) -> bool {
    exists|r: int, c: int|
        0 <= r < CHIP8_HEIGHT && 0 <= c < CHIP8_WIDTH && #[trigger] lit(s, vx, vy, n, r, c)
            && drawn_upto(vx, vy, r, c, b, k) && s.vram[r][c] == 1
}

proof fn lemma_offsets(vx: u8, vy: u8, b: int, k: int)
    requires
        0 <= b < 16,
        0 <= k < 8,
    ensures
        row_offset(vy, (vy + b) % 32) == b,
        col_offset(vx, (vx + k) % 64) == k,
        forall|r: int| 0 <= r < 32 && row_offset(vy, r) == b ==> r == (vy + b) % 32,
        forall|c: int| 0 <= c < 64 && col_offset(vx, c) == k ==> c == (vx + k) % 64,
{
}

proof fn lemma_pixel_bits(a: u8, b: u8)
    ensures
        (a & 1u8) <= 1,
        a ^ 0u8 == a,
        a <= 1 && b <= 1 ==> a ^ b <= 1,
        a <= 1 && b <= 1 ==> (a ^ b == 1 <==> a != b),
{
    assert((a & 1u8) <= 1) by (bit_vector);
    assert(a ^ 0u8 == a) by (bit_vector);
    assert(a <= 1 && b <= 1 ==> a ^ b <= 1) by (bit_vector);
    assert(a <= 1 && b <= 1 ==> (a ^ b == 1 <==> a != b)) by (bit_vector);
}

impl Processor {
    /// The machine's state is well formed.
    pub open spec fn wf(&self) -> bool {
        self@.wf()
    }

    /// Initializes the virtual machine: font at address 0, program counter
    /// at the start of program space, everything else zero.
    pub fn new() -> (r: Self)
        ensures
            r.wf(),
            r@ == initial_state(),
    {
        let mut memory: [u8; MEMORY_SIZE] = [0u8; MEMORY_SIZE];
        let font = fontset();
        let mut k: usize = 0;
        while k < 80
            invariant
                k <= 80,
                font@ == font_glyphs(),
                memory@.len() == MEMORY_SIZE,
                forall|a: int| 0 <= a < k ==> memory@[a] == font_glyphs()[a],
                forall|a: int| k <= a < MEMORY_SIZE ==> memory@[a] == 0,
            decreases 80 - k,
        {
            memory[k] = font[k];
            k = k + 1;
        }
        let r = Processor {
            memory,
            stack: [0u16; STACK_SIZE],
            sp: 0,
            keypad: [false; KEYPAD_SIZE],
            vram: [[0u8; CHIP8_WIDTH]; CHIP8_HEIGHT],
            v: [0u8; NUM_REGISTERS],
            i: 0,
            pc: PROGRAM_AREA_START as u16,
            delay_timer: 0,
            sound_timer: 0,
            vram_changed: false,
            waiting: false,
            selected_v: 0,
        };
        proof {
            lemma_blank_frame();
            assert(r@.memory =~= initial_state().memory);
            assert(r@.v =~= initial_state().v);
            assert(r@.stack =~= initial_state().stack);
            assert(r@.keypad =~= initial_state().keypad);
        }
        r
    }

    /// Loads a program into memory at the start of program space. A program
    /// longer than program space is refused and memory is left as it was.
    pub fn load(&mut self, game: &Vec<u8>) -> (r: Result<(), LoadError>)
        requires
            old(self).wf(),
        ensures
            final(self).wf(),
            r is Ok <==> program_fits(game@.len()),
            r is Ok ==> final(self)@ == (MachineState {
                memory: loaded_memory(old(self)@.memory, game@),
                ..old(self)@
            }),
            r is Err ==> r == Err::<(), LoadError>(LoadError::ProgramTooLarge) && final(self)@
                == old(self)@,
    {
        if game.len() > (PROGRAM_AREA_END - PROGRAM_AREA_START) {
            return Err(LoadError::ProgramTooLarge);
        }
        let ghost before = self@;
        let mut k: usize = 0;
        while k < game.len()
            invariant
                k <= game@.len(),
                game@.len() <= PROGRAM_AREA_END - PROGRAM_AREA_START,
                self@ == (MachineState { memory: self@.memory, ..before }),
                self@.memory.len() == MEMORY_SIZE,
                forall|a: int|
                    0 <= a < MEMORY_SIZE ==> #[trigger] self@.memory[a] == if PROGRAM_AREA_START
                        <= a < PROGRAM_AREA_START + k {
                        game@[a - PROGRAM_AREA_START]
                    } else {
                        before.memory[a]
                    },
            decreases game@.len() - k,
        {
            self.memory[PROGRAM_AREA_START + k] = game[k];
            k = k + 1;
        }
        assert(self@.memory =~= loaded_memory(before.memory, game@));
        Ok(())
    }

    /// Advance past the current instruction.
    fn increment_pc(&mut self)
        requires
            can_fetch(old(self)@),
        ensures
            final(self)@ == advance(old(self)@),
    {
        self.pc = self.pc + OPCODE_SIZE;
    }

    /// Jump to the specified address.
    fn jump(&mut self, addr: u16)
        ensures
            final(self)@ == jump(old(self)@, addr as int),
    {
        self.pc = addr;
    }

    /// Skip the next instruction.
    fn skip(&mut self)
        requires
            can_fetch(old(self)@),
        ensures
            final(self)@ == skip_if(old(self)@, true),
    {
        self.pc = self.pc + 2 * OPCODE_SIZE;
    }

    /// Advance past the current instruction, and past the next one too when
    /// `cond` holds.
    fn skip_when(&mut self, cond: bool)
        requires
            can_fetch(old(self)@),
        ensures
            final(self)@ == skip_if(old(self)@, cond),
    {
        if cond {
            self.skip();
        } else {
            self.increment_pc();
        }
    }

    /// Set Vx and advance.
    fn set_vx(&mut self, x: u8, b: u8)
        requires
            old(self).wf(),
            can_fetch(old(self)@),
            x < NUM_REGISTERS,
        ensures
            final(self).wf(),
            final(self)@ == load_reg(old(self)@, x as int, b),
    {
        self.v[x as usize] = b;
        self.increment_pc();
    }

    /// Set VF, then Vx, and advance.
    fn set_flag_vx(&mut self, x: u8, f: u8, b: u8)
        requires
            old(self).wf(),
            can_fetch(old(self)@),
            x < NUM_REGISTERS,
        ensures
            final(self).wf(),
            final(self)@ == load_flag_reg(old(self)@, x as int, f, b),
    {
        self.v[FLAG_REGISTER] = f;
        self.v[x as usize] = b;
        self.increment_pc();
    }

    /// __00E0 - CLS__: clear the display.
    fn exec_cls(&mut self)
        requires
            old(self).wf(),
            can_fetch(old(self)@),
        ensures
            final(self).wf(),
            final(self)@ == clear_screen(old(self)@),
    {
        self.vram = [[0u8; CHIP8_WIDTH]; CHIP8_HEIGHT];
        self.vram_changed = true;
        proof {
            lemma_blank_frame();
        }
        self.increment_pc();
    }

    /// __00EE - RET__: return from a subroutine to the address on top of the stack.
    fn exec_ret(&mut self) -> (r: Result<(), Fault>)
        requires
            old(self).wf(),
        ensures
            final(self).wf(),
            steps_to(old(self)@, final(self)@, r, return_from(old(self)@)),
    {
        if self.sp == 0 {
            return Err(Fault::StackUnderflow { addr: self.pc });
        }
        self.sp = self.sp - 1;
        self.pc = self.stack[self.sp as usize];
        Ok(())
    }

    /// __1nnn - JP addr__: jump to location nnn.
    fn exec_jp(&mut self, nnn: u16)
        ensures
            final(self)@ == jump(old(self)@, nnn as int),
    {
        self.jump(nnn);
    }

    /// __2nnn - CALL addr__: push the address of the next instruction and jump to nnn.
    fn exec_call(&mut self, nnn: u16) -> (r: Result<(), Fault>)
        requires
            old(self).wf(),
            can_fetch(old(self)@),
        ensures
            final(self).wf(),
            steps_to(old(self)@, final(self)@, r, call(old(self)@, nnn as int)),
    {
        if self.sp as usize >= STACK_SIZE {
            return Err(Fault::StackOverflow { addr: self.pc });
        }
        self.stack[self.sp as usize] = self.pc + OPCODE_SIZE;
        self.sp = self.sp + 1;
        self.jump(nnn);
        Ok(())
    }

    /// __3xkk - SE Vx, byte__: skip the next instruction if Vx = kk.
    fn exec_se_vx_byte(&mut self, x: u8, kk: u8)
        requires
            old(self).wf(),
            can_fetch(old(self)@),
            x < NUM_REGISTERS,
        ensures
            final(self).wf(),
            final(self)@ == skip_if(old(self)@, old(self)@.v[x as int] == kk),
    {
        let cond = kk == self.v[x as usize];
        self.skip_when(cond);
    }

    /// __4xkk - SNE Vx, byte__: skip the next instruction if Vx != kk.
    fn exec_sne_vx_byte(&mut self, x: u8, kk: u8)
        requires
            old(self).wf(),
            can_fetch(old(self)@),
            x < NUM_REGISTERS,
        ensures
            final(self).wf(),
            final(self)@ == skip_if(old(self)@, old(self)@.v[x as int] != kk),
    {
        let cond = kk != self.v[x as usize];
        self.skip_when(cond);
    }

    /// __5xy0 - SE Vx, Vy__: skip the next instruction if Vx = Vy.
    fn exec_se_vx_vy(&mut self, x: u8, y: u8)
        requires
            old(self).wf(),
            can_fetch(old(self)@),
            x < NUM_REGISTERS,
            y < NUM_REGISTERS,
        ensures
            final(self).wf(),
            final(self)@ == skip_if(old(self)@, old(self)@.v[x as int] == old(self)@.v[y as int]),
    {
        let cond = self.v[x as usize] == self.v[y as usize];
        self.skip_when(cond);
    }

    /// __6xkk - LD Vx, byte__: set Vx = kk.
    fn exec_ld_vx_byte(&mut self, x: u8, kk: u8)
        requires
            old(self).wf(),
            can_fetch(old(self)@),
            x < NUM_REGISTERS,
        ensures
            final(self).wf(),
            final(self)@ == load_reg(old(self)@, x as int, kk),
    {
        self.set_vx(x, kk);
    }

    /// __7xkk - ADD Vx, byte__: set Vx = Vx + kk, modulo 256.
    fn exec_add_vx_byte(&mut self, x: u8, kk: u8)
        requires
            old(self).wf(),
            can_fetch(old(self)@),
            x < NUM_REGISTERS,
        ensures
            final(self).wf(),
            final(self)@ == load_reg(
                old(self)@,
                x as int,
                ((old(self)@.v[x as int] + kk) % 256) as u8,
            ),
    {
        let sum = self.v[x as usize] as u16 + kk as u16;
        self.set_vx(x, (sum % 256) as u8);
    }

    /// __8xy0 - LD Vx, Vy__: set Vx = Vy.
    fn exec_ld_vx_vy(&mut self, x: u8, y: u8)
        requires
            old(self).wf(),
            can_fetch(old(self)@),
            x < NUM_REGISTERS,
            y < NUM_REGISTERS,
        ensures
            final(self).wf(),
            final(self)@ == load_reg(old(self)@, x as int, old(self)@.v[y as int]),
    {
        let b = self.v[y as usize];
        self.set_vx(x, b);
    }

    /// __8xy1 - OR Vx, Vy__: set Vx = Vx OR Vy.
    fn exec_or_vx_vy(&mut self, x: u8, y: u8)
        requires
            old(self).wf(),
            can_fetch(old(self)@),
            x < NUM_REGISTERS,
            y < NUM_REGISTERS,
        ensures
            final(self).wf(),
            final(self)@ == load_reg(
                old(self)@,
                x as int,
                old(self)@.v[x as int] | old(self)@.v[y as int],
            ),
    {
        let b = self.v[x as usize] | self.v[y as usize];
        self.set_vx(x, b);
    }

    /// __8xy2 - AND Vx, Vy__: set Vx = Vx AND Vy.
    fn exec_and_vx_vy(&mut self, x: u8, y: u8)
        requires
            old(self).wf(),
            can_fetch(old(self)@),
            x < NUM_REGISTERS,
            y < NUM_REGISTERS,
        ensures
            final(self).wf(),
            final(self)@ == load_reg(
                old(self)@,
                x as int,
                old(self)@.v[x as int] & old(self)@.v[y as int],
            ),
    {
        let b = self.v[x as usize] & self.v[y as usize];
        self.set_vx(x, b);
    }

    /// __8xy3 - XOR Vx, Vy__: set Vx = Vx XOR Vy.
    fn exec_xor_vx_vy(&mut self, x: u8, y: u8)
        requires
            old(self).wf(),
            can_fetch(old(self)@),
            x < NUM_REGISTERS,
            y < NUM_REGISTERS,
        ensures
            final(self).wf(),
            final(self)@ == load_reg(
                old(self)@,
                x as int,
                old(self)@.v[x as int] ^ old(self)@.v[y as int],
            ),
    {
        let b = self.v[x as usize] ^ self.v[y as usize];
        self.set_vx(x, b);
    }

    /// __8xy4 - ADD Vx, Vy__: set Vx = Vx + Vy modulo 256, VF = carry.
    fn exec_add_vx_vy(&mut self, x: u8, y: u8)
        requires
            old(self).wf(),
            can_fetch(old(self)@),
            x < NUM_REGISTERS,
            y < NUM_REGISTERS,
        ensures
            final(self).wf(),
            final(self)@ == add_regs(old(self)@, x as int, y as int),
    {
        let sum = self.v[x as usize] as u16 + self.v[y as usize] as u16;
        let carry: u8 = if sum > 255 { 1 } else { 0 };
        self.set_flag_vx(x, carry, (sum % 256) as u8);
    }

    /// __8xy5 - SUB Vx, Vy__: set Vx = Vx - Vy modulo 256, VF = NOT borrow.
    fn exec_sub_vx_vy(&mut self, x: u8, y: u8)
        requires
            old(self).wf(),
            can_fetch(old(self)@),
            x < NUM_REGISTERS,
            y < NUM_REGISTERS,
        ensures
            final(self).wf(),
            final(self)@ == sub_regs(old(self)@, x as int, y as int),
    {
        let vx = self.v[x as usize];
        let vy = self.v[y as usize];
        let no_borrow: u8 = if vx >= vy { 1 } else { 0 };
        self.set_flag_vx(x, no_borrow, vx.wrapping_sub(vy));
    }

    /// __8xy6 - SHR Vx__: VF = least-significant bit of Vx, then Vx = Vx SHR 1.
    fn exec_shr_vx_vy(&mut self, x: u8)
        requires
            old(self).wf(),
            can_fetch(old(self)@),
            x < NUM_REGISTERS,
        ensures
            final(self).wf(),
            final(self)@ == shift_right(old(self)@, x as int),
    {
        let vx = self.v[x as usize];
        assert(vx & 1u8 == vx % 2 && vx >> 1u8 == vx / 2) by (bit_vector);
        self.set_flag_vx(x, vx & 0x01, vx >> 1u8);
    }

    /// __8xy7 - SUBN Vx, Vy__: set Vx = Vy - Vx modulo 256, VF = NOT borrow.
    fn exec_subn_vx_vy(&mut self, x: u8, y: u8)
        requires
            old(self).wf(),
            can_fetch(old(self)@),
            x < NUM_REGISTERS,
            y < NUM_REGISTERS,
        ensures
            final(self).wf(),
            final(self)@ == subn_regs(old(self)@, x as int, y as int),
    {
        let vx = self.v[x as usize];
        let vy = self.v[y as usize];
        let no_borrow: u8 = if vy >= vx { 1 } else { 0 };
        self.set_flag_vx(x, no_borrow, vy.wrapping_sub(vx));
    }

    /// __8xyE - SHL Vx__: VF = most-significant bit of Vx, then Vx = Vx SHL 1.
    fn exec_shl_vx_vy(&mut self, x: u8)
        requires
            old(self).wf(),
            can_fetch(old(self)@),
            x < NUM_REGISTERS,
        ensures
            final(self).wf(),
            final(self)@ == shift_left(old(self)@, x as int),
    {
        let vx = self.v[x as usize];
        assert((vx & 0x80u8) >> 7u8 == vx / 128 && (vx << 1u8) as int == (vx as int * 2) % 256)
            by (bit_vector);
        self.set_flag_vx(x, (vx & 0x80) >> 7u8, vx << 1u8);
    }

    /// __9xy0 - SNE Vx, Vy__: skip the next instruction if Vx != Vy.
    fn exec_sne_vx_vy(&mut self, x: u8, y: u8)
        requires
            old(self).wf(),
            can_fetch(old(self)@),
            x < NUM_REGISTERS,
            y < NUM_REGISTERS,
        ensures
            final(self).wf(),
            final(self)@ == skip_if(old(self)@, old(self)@.v[x as int] != old(self)@.v[y as int]),
    {
        let cond = self.v[x as usize] != self.v[y as usize];
        self.skip_when(cond);
    }

    /// __Annn - LD I, addr__: set I = nnn.
    fn exec_ld_i(&mut self, nnn: u16)
        requires
            can_fetch(old(self)@),
        ensures
            final(self)@ == set_index(old(self)@, nnn as int),
    {
        self.i = nnn;
        self.increment_pc();
    }

    /// __Bnnn - JP V0, addr__: jump to location nnn + V0.
    fn exec_jp_v0(&mut self, nnn: u16)
        requires
            old(self).wf(),
            nnn < 0x1000,
        ensures
            final(self)@ == jump(old(self)@, nnn + old(self)@.v[0]),
    {
        self.pc = nnn + self.v[0] as u16;
    }

    /// __Cxkk - RND Vx, byte__: set Vx = `rnd` AND kk, where `rnd` is a random byte.
    fn exec_rnd(&mut self, x: u8, kk: u8, rnd: u8)
        requires
            old(self).wf(),
            can_fetch(old(self)@),
            x < NUM_REGISTERS,
        ensures
            final(self).wf(),
            final(self)@ == load_reg(old(self)@, x as int, rnd & kk),
    {
        self.set_vx(x, rnd & kk);
    }

    /// Skip the next instruction if the key in Vx is (`pressed`) or is not
    /// (`!pressed`) held down.
    fn skip_on_key(&mut self, x: u8, pressed: bool) -> (r: Result<(), Fault>)
        requires
            old(self).wf(),
            can_fetch(old(self)@),
            x < NUM_REGISTERS,
        ensures
            final(self).wf(),
            steps_to(old(self)@, final(self)@, r, skip_key(old(self)@, x as int, pressed)),
    {
        let key = self.v[x as usize];
        if key as usize >= KEYPAD_SIZE {
            return Err(Fault::KeyOutOfRange { addr: self.pc });
        }
        let cond = self.keypad[key as usize] == pressed;
        self.skip_when(cond);
        Ok(())
    }

    /// __Ex9E - SKP Vx__: skip the next instruction if the key in Vx is pressed.
    fn exec_skp(&mut self, x: u8) -> (r: Result<(), Fault>)
        requires
            old(self).wf(),
            can_fetch(old(self)@),
            x < NUM_REGISTERS,
        ensures
            final(self).wf(),
            steps_to(old(self)@, final(self)@, r, skip_key(old(self)@, x as int, true)),
    {
        self.skip_on_key(x, true)
    }

    /// __ExA1 - SKNP Vx__: skip the next instruction if the key in Vx is not pressed.
    fn exec_sknp(&mut self, x: u8) -> (r: Result<(), Fault>)
        requires
            old(self).wf(),
            can_fetch(old(self)@),
            x < NUM_REGISTERS,
        ensures
            final(self).wf(),
            steps_to(old(self)@, final(self)@, r, skip_key(old(self)@, x as int, false)),
    {
        self.skip_on_key(x, false)
    }

    /// __Fx07 - LD Vx, DT__: set Vx = delay timer.
    fn exec_ld_vx_dt(&mut self, x: u8)
        requires
            old(self).wf(),
            can_fetch(old(self)@),
            x < NUM_REGISTERS,
        ensures
            final(self).wf(),
            final(self)@ == load_reg(old(self)@, x as int, old(self)@.delay_timer),
    {
        let t = self.delay_timer;
        self.set_vx(x, t);
    }

    /// __Fx0A - LD Vx, K__: suspend execution until a key is pressed, then
    /// store that key in Vx.
    fn exec_ld_vx_k(&mut self, x: u8)
        requires
            old(self).wf(),
            can_fetch(old(self)@),
            x < NUM_REGISTERS,
        ensures
            final(self).wf(),
            final(self)@ == wait_key(old(self)@, x as int),
    {
        self.waiting = true;
        self.selected_v = x;
        self.increment_pc();
    }

    /// __Fx15 - LD DT, Vx__: set delay timer = Vx.
    fn exec_ld_dt_vx(&mut self, x: u8)
        requires
            old(self).wf(),
            can_fetch(old(self)@),
            x < NUM_REGISTERS,
        ensures
            final(self).wf(),
            final(self)@ == advance(
                MachineState { delay_timer: old(self)@.v[x as int], ..old(self)@ },
            ),
    {
        self.delay_timer = self.v[x as usize];
        self.increment_pc();
    }

    /// __Fx18 - LD ST, Vx__: set sound timer = Vx.
    fn exec_ld_st_vx(&mut self, x: u8)
        requires
            old(self).wf(),
            can_fetch(old(self)@),
            x < NUM_REGISTERS,
        ensures
            final(self).wf(),
            final(self)@ == advance(
                MachineState { sound_timer: old(self)@.v[x as int], ..old(self)@ },
            ),
    {
        self.sound_timer = self.v[x as usize];
        self.increment_pc();
    }

    /// __Fx1E - ADD I, Vx__: set I = I + Vx, modulo 2^16.
    fn exec_add_i_vx(&mut self, x: u8)
        requires
            old(self).wf(),
            can_fetch(old(self)@),
            x < NUM_REGISTERS,
        ensures
            final(self).wf(),
            final(self)@ == set_index(
                old(self)@,
                (old(self)@.i + old(self)@.v[x as int]) % 0x10000,
            ),
    {
        self.i = self.i.wrapping_add(self.v[x as usize] as u16);
        self.increment_pc();
    }

    /// __Fx29 - LD F, Vx__: set I = address of the font glyph for digit Vx.
    fn exec_ld_f_vx(&mut self, x: u8)
        requires
            old(self).wf(),
            can_fetch(old(self)@),
            x < NUM_REGISTERS,
        ensures
            final(self).wf(),
            final(self)@ == set_index(old(self)@, old(self)@.v[x as int] * 5),
    {
        self.i = (self.v[x as usize] as u16) * 5;
        self.increment_pc();
    }

    /// __Fx33 - LD B, Vx__: store the hundreds, tens and ones digits of Vx at
    /// I, I+1 and I+2.
    fn exec_ld_b_vx(&mut self, x: u8) -> (r: Result<(), Fault>)
        requires
            old(self).wf(),
            can_fetch(old(self)@),
            x < NUM_REGISTERS,
        ensures
            final(self).wf(),
            steps_to(old(self)@, final(self)@, r, bcd(old(self)@, x as int)),
    {
        let base = self.i as usize;
        if base + 2 >= MEMORY_SIZE {
            return Err(Fault::MemoryOutOfBounds { addr: self.pc });
        }
        let value = self.v[x as usize];
        self.memory[base] = value / 100;
        self.memory[base + 1] = (value % 100) / 10;
        self.memory[base + 2] = value % 10;
        self.increment_pc();
        Ok(())
    }

    /// __Fx55 - LD [I], Vx__: store V0..Vx in memory starting at I.
    fn exec_ld_i_vx(&mut self, x: u8) -> (r: Result<(), Fault>)
        requires
            old(self).wf(),
            can_fetch(old(self)@),
            x < NUM_REGISTERS,
        ensures
            final(self).wf(),
            steps_to(old(self)@, final(self)@, r, store_regs(old(self)@, x as int)),
    {
        let base = self.i as usize;
        let limit = x as usize;
        if base + limit >= MEMORY_SIZE {
            return Err(Fault::MemoryOutOfBounds { addr: self.pc });
        }
        let ghost before = self@;
        let mut k: usize = 0;
        while k <= limit
            invariant
                k <= limit + 1,
                limit < NUM_REGISTERS,
                base == before.i,
                base + limit < MEMORY_SIZE,
                before.wf(),
                self@ == (MachineState { memory: self@.memory, ..before }),
                self@.memory.len() == MEMORY_SIZE,
                forall|a: int|
                    0 <= a < MEMORY_SIZE ==> #[trigger] self@.memory[a] == if base <= a < base
                        + k {
                        before.v[a - base]
                    } else {
                        before.memory[a]
                    },
            decreases limit + 1 - k,
        {
            self.memory[base + k] = self.v[k];
            k = k + 1;
        }
        proof {
            let expected = store_regs(before, x as int)->Ok_0;
            assert(self@.memory =~= expected.memory);
        }
        self.increment_pc();
        Ok(())
    }

    /// __Fx65 - LD Vx, [I]__: read V0..Vx from memory starting at I.
    fn exec_ld_vx_i(&mut self, x: u8) -> (r: Result<(), Fault>)
        requires
            old(self).wf(),
            can_fetch(old(self)@),
            x < NUM_REGISTERS,
        ensures
            final(self).wf(),
            steps_to(old(self)@, final(self)@, r, load_regs(old(self)@, x as int)),
    {
        let base = self.i as usize;
        let limit = x as usize;
        if base + limit >= MEMORY_SIZE {
            return Err(Fault::MemoryOutOfBounds { addr: self.pc });
        }
        let ghost before = self@;
        let mut k: usize = 0;
        while k <= limit
            invariant
                k <= limit + 1,
                limit < NUM_REGISTERS,
                base == before.i,
                base + limit < MEMORY_SIZE,
                before.wf(),
                self@ == (MachineState { v: self@.v, ..before }),
                self@.v.len() == NUM_REGISTERS,
                forall|j: int|
                    0 <= j < NUM_REGISTERS ==> #[trigger] self@.v[j] == if j < k {
                        before.memory[base + j]
                    } else {
                        before.v[j]
                    },
            decreases limit + 1 - k,
        {
            self.v[k] = self.memory[base + k];
            k = k + 1;
        }
        proof {
            let expected = load_regs(before, x as int)->Ok_0;
            assert(self@.v =~= expected.v);
        }
        self.increment_pc();
        Ok(())
    }

    /// __Dxyn - DRW Vx, Vy, nibble__: XOR the n-byte sprite at I onto the
    /// display at (Vx, Vy), wrapping around its edges; VF = collision.
    fn exec_drw(&mut self, x: u8, y: u8, n: u8) -> (r: Result<(), Fault>)
        requires
            old(self).wf(),
            can_fetch(old(self)@),
            x < NUM_REGISTERS,
            y < NUM_REGISTERS,
            n < 16,
        ensures
            final(self).wf(),
            steps_to(old(self)@, final(self)@, r, draw(old(self)@, x as int, y as int, n as int)),
    {
        let base = self.i as usize;
        if n > 0 && base + n as usize > MEMORY_SIZE {
            return Err(Fault::MemoryOutOfBounds { addr: self.pc });
        }
        let vx = self.v[x as usize];
        let vy = self.v[y as usize];
        let ghost before = self@;
        let ghost nn = n as int;
        let mut hit = false;
        let mut byte: u8 = 0;
        proof {
            assert forall|r: int, c: int|
                0 <= r < CHIP8_HEIGHT && 0 <= c < CHIP8_WIDTH implies #[trigger] self.vram@[r]@[c]
                    == before.vram[r][c] ^ flag(
                    lit(before, vx, vy, nn, r, c) && drawn_upto(vx, vy, r, c, 0, 0),
                ) by {
                lemma_pixel_bits(self.vram@[r]@[c], 0);
            }
        }
        while byte < n
            invariant
                byte <= n,
                n < 16,
                nn == n,
                base == before.i,
                n == 0 || base + n <= MEMORY_SIZE,
                before.wf(),
                x < NUM_REGISTERS,
                y < NUM_REGISTERS,
                vx == before.v[x as int],
                vy == before.v[y as int],
                self@ == (MachineState { vram: self@.vram, ..before }),
                forall|r: int, c: int|
                    0 <= r < CHIP8_HEIGHT && 0 <= c < CHIP8_WIDTH ==> #[trigger] self.vram@[r]@[c]
                        == before.vram[r][c] ^ flag(
                        lit(before, vx, vy, nn, r, c) && drawn_upto(vx, vy, r, c, byte as int, 0),
                    ),
                hit == hit_upto(before, vx, vy, nn, byte as int, 0),
            decreases n - byte,
        {
            let row = (vy as usize + byte as usize) % CHIP8_HEIGHT;
            let sprite = self.memory[base + byte as usize];
            let mut bit: u8 = 0;
            while bit < 8
                invariant
                    byte < n,
                    n < 16,
                    nn == n,
                    bit <= 8,
                    base == before.i,
                    n == 0 || base + n <= MEMORY_SIZE,
                    before.wf(),
                    x < NUM_REGISTERS,
                    y < NUM_REGISTERS,
                    vx == before.v[x as int],
                    vy == before.v[y as int],
                    row == (vy + byte) % 32,
                    sprite == before.memory[base + byte],
                    self@ == (MachineState { vram: self@.vram, ..before }),
                    forall|r: int, c: int|
                        0 <= r < CHIP8_HEIGHT && 0 <= c < CHIP8_WIDTH
                            ==> #[trigger] self.vram@[r]@[c] == before.vram[r][c] ^ flag(
                            lit(before, vx, vy, nn, r, c) && drawn_upto(
                                vx,
                                vy,
                                r,
                                c,
                                byte as int,
                                bit as int,
                            ),
                        ),
                    hit == hit_upto(before, vx, vy, nn, byte as int, bit as int),
                decreases 8 - bit,
            {
                let col = (vx as usize + bit as usize) % CHIP8_WIDTH;
                let color = (sprite >> (7 - bit)) & 1u8;
                let pixel = self.vram[row][col];
                proof {
                    lemma_offsets(vx, vy, byte as int, bit as int);
                    lemma_pixel_bits(sprite >> (7 - bit), 0);
                    lemma_pixel_bits(before.vram[row as int][col as int], 0);
                    assert(lit(before, vx, vy, nn, row as int, col as int) <==> color == 1);
                    assert(pixel == before.vram[row as int][col as int]);
                }
                if color == 1 && pixel == 1 {
                    hit = true;
                }
                self.vram[row][col] = pixel ^ color;
                proof {
                    let b = byte as int;
                    let k = bit as int;
                    assert forall|r: int, c: int|
                        0 <= r < CHIP8_HEIGHT && 0 <= c < CHIP8_WIDTH implies #[trigger] self.vram@[r]@[c]
                            == before.vram[r][c] ^ flag(
                            lit(before, vx, vy, nn, r, c) && drawn_upto(vx, vy, r, c, b, k + 1),
                        ) by {
                        if r == row && c == col {
                            lemma_pixel_bits(before.vram[r][c], color);
                        }
                    }
                    if hit_upto(before, vx, vy, nn, b, k + 1) {
                        let (r, c) = choose|r: int, c: int|
                            0 <= r < CHIP8_HEIGHT && 0 <= c < CHIP8_WIDTH && #[trigger] lit(
                                before,
                                vx,
                                vy,
                                nn,
                                r,
                                c,
                            ) && drawn_upto(vx, vy, r, c, b, k + 1) && before.vram[r][c] == 1;
                        if !(r == row && c == col) {
                            assert(drawn_upto(vx, vy, r, c, b, k));
                        }
                    }
                    if color == 1 && pixel == 1 {
                        assert(lit(before, vx, vy, nn, row as int, col as int));
                        assert(drawn_upto(vx, vy, row as int, col as int, b, k + 1));
                    }
                    assert(hit == hit_upto(before, vx, vy, nn, b, k + 1));
                }
                bit = bit + 1;
            }
            proof {
                let b = byte as int;
                assert forall|r: int, c: int|
                    0 <= r < CHIP8_HEIGHT && 0 <= c < CHIP8_WIDTH implies (lit(
                        before,
                        vx,
                        vy,
                        nn,
                        r,
                        c,
                    ) && drawn_upto(vx, vy, r, c, b, 8)) == (lit(before, vx, vy, nn, r, c)
                        && drawn_upto(vx, vy, r, c, b + 1, 0)) by {}
                if hit_upto(before, vx, vy, nn, b, 8) {
                    let (r, c) = choose|r: int, c: int|
                        0 <= r < CHIP8_HEIGHT && 0 <= c < CHIP8_WIDTH && #[trigger] lit(
                            before,
                            vx,
                            vy,
                            nn,
                            r,
                            c,
                        ) && drawn_upto(vx, vy, r, c, b, 8) && before.vram[r][c] == 1;
                    assert(drawn_upto(vx, vy, r, c, b + 1, 0));
                }
                if hit_upto(before, vx, vy, nn, b + 1, 0) {
                    let (r, c) = choose|r: int, c: int|
                        0 <= r < CHIP8_HEIGHT && 0 <= c < CHIP8_WIDTH && #[trigger] lit(
                            before,
                            vx,
                            vy,
                            nn,
                            r,
                            c,
                        ) && drawn_upto(vx, vy, r, c, b + 1, 0) && before.vram[r][c] == 1;
                    assert(drawn_upto(vx, vy, r, c, b, 8));
                }
            }
            byte = byte + 1;
        }
        proof {
            let expected = drawn_frame(before, vx, vy, nn);
            assert forall|r: int| 0 <= r < CHIP8_HEIGHT implies #[trigger] frame_view(self.vram)[r]
                == expected[r] by {
                assert forall|c: int| 0 <= c < CHIP8_WIDTH implies #[trigger] frame_view(
                    self.vram,
                )[r][c] == expected[r][c] by {
                    assert(self.vram@[r]@[c] == frame_view(self.vram)[r][c]);
                }
                assert(frame_view(self.vram)[r] =~= expected[r]);
            }
            assert(frame_view(self.vram) =~= expected);
            if hit {
                let (r, c) = choose|r: int, c: int|
                    0 <= r < CHIP8_HEIGHT && 0 <= c < CHIP8_WIDTH && #[trigger] lit(
                        before,
                        vx,
                        vy,
                        nn,
                        r,
                        c,
                    ) && drawn_upto(vx, vy, r, c, nn, 0) && before.vram[r][c] == 1;
            }
            if collides(before, vx, vy, nn) {
                let (r, c) = choose|r: int, c: int|
                    0 <= r < CHIP8_HEIGHT && 0 <= c < CHIP8_WIDTH && #[trigger] lit(
                        before,
                        vx,
                        vy,
                        nn,
                        r,
                        c,
                    ) && before.vram[r][c] == 1;
                assert(drawn_upto(vx, vy, r, c, nn, 0));
            }
            assert(hit == collides(before, vx, vy, nn));
            assert forall|r: int, c: int|
                0 <= r < CHIP8_HEIGHT && 0 <= c < CHIP8_WIDTH implies #[trigger] expected[r][c]
                    <= 1 by {
                lemma_pixel_bits(before.vram[r][c], flag(lit(before, vx, vy, nn, r, c)));
            }
        }
        let collision: u8 = if hit { 1 } else { 0 };
        self.v[FLAG_REGISTER] = collision;
        self.vram_changed = true;
        self.increment_pc();
        Ok(())
    }

    /// Decode `opcode` and execute it; `rnd` is the random byte that Cxkk
    /// uses. An opcode that matches no rule only advances the program counter.
    fn execute(&mut self, opcode: u16, rnd: u8) -> (r: Result<(), Fault>)
        requires
            old(self).wf(),
            can_fetch(old(self)@),
        ensures
            final(self).wf(),
            steps_to(old(self)@, final(self)@, r, execute(old(self)@, opcode, rnd)),
    {
        proof {
            lemma_opcode_fields(opcode);
        }
        let family = opcode >> 12u16;
        let x = ((opcode >> 8u16) & 0xF) as u8;
        let y = ((opcode >> 4u16) & 0xF) as u8;
        let n = (opcode & 0xF) as u8;
        let kk = (opcode & 0xFF) as u8;
        let nnn = opcode & 0xFFF;
        if opcode == 0x00E0 {
            self.exec_cls();
        } else if opcode == 0x00EE {
            return self.exec_ret();
        } else if family == 0x0 || family == 0x1 {
            self.exec_jp(nnn);
        } else if family == 0x2 {
            return self.exec_call(nnn);
        } else if family == 0x3 {
            self.exec_se_vx_byte(x, kk);
        } else if family == 0x4 {
            self.exec_sne_vx_byte(x, kk);
        } else if family == 0x5 && n == 0x0 {
            self.exec_se_vx_vy(x, y);
        } else if family == 0x6 {
            self.exec_ld_vx_byte(x, kk);
        } else if family == 0x7 {
            self.exec_add_vx_byte(x, kk);
        } else if family == 0x8 && n == 0x0 {
            self.exec_ld_vx_vy(x, y);
        } else if family == 0x8 && n == 0x1 {
            self.exec_or_vx_vy(x, y);
        } else if family == 0x8 && n == 0x2 {
            self.exec_and_vx_vy(x, y);
        } else if family == 0x8 && n == 0x3 {
            self.exec_xor_vx_vy(x, y);
        } else if family == 0x8 && n == 0x4 {
            self.exec_add_vx_vy(x, y);
        } else if family == 0x8 && n == 0x5 {
            self.exec_sub_vx_vy(x, y);
        } else if family == 0x8 && n == 0x6 {
            self.exec_shr_vx_vy(x);
        } else if family == 0x8 && n == 0x7 {
            self.exec_subn_vx_vy(x, y);
        } else if family == 0x8 && n == 0xE {
            self.exec_shl_vx_vy(x);
        } else if family == 0x9 && n == 0x0 {
            self.exec_sne_vx_vy(x, y);
        } else if family == 0xA {
            self.exec_ld_i(nnn);
        } else if family == 0xB {
            self.exec_jp_v0(nnn);
        } else if family == 0xC {
            self.exec_rnd(x, kk, rnd);
        } else if family == 0xD {
            return self.exec_drw(x, y, n);
        } else if family == 0xE && kk == 0x9E {
            return self.exec_skp(x);
        } else if family == 0xE && kk == 0xA1 {
            return self.exec_sknp(x);
        } else if family == 0xF && kk == 0x07 {
            self.exec_ld_vx_dt(x);
        } else if family == 0xF && kk == 0x0A {
            self.exec_ld_vx_k(x);
        } else if family == 0xF && kk == 0x15 {
            self.exec_ld_dt_vx(x);
        } else if family == 0xF && kk == 0x18 {
            self.exec_ld_st_vx(x);
        } else if family == 0xF && kk == 0x1E {
            self.exec_add_i_vx(x);
        } else if family == 0xF && kk == 0x29 {
            self.exec_ld_f_vx(x);
        } else if family == 0xF && kk == 0x33 {
            return self.exec_ld_b_vx(x);
        } else if family == 0xF && kk == 0x55 {
            return self.exec_ld_i_vx(x);
        } else if family == 0xF && kk == 0x65 {
            return self.exec_ld_vx_i(x);
        } else {
            self.increment_pc();
        }
        Ok(())
    }

    /// Runs one tick with keypad snapshot `keypad`, where `rnd` is the random
    /// byte that a Cxkk instruction in this tick uses. Both timers count down,
    /// then either a pending key wait is serviced or one instruction is
    /// fetched and executed.
    pub fn tick_with_random(&mut self, keypad: [bool; KEYPAD_SIZE], rnd: u8) -> (r: Result<
        Output,
        Fault,
    >)
        requires
            old(self).wf(),
        ensures
            final(self).wf(),
            tick_outcome(old(self)@, final(self)@, keypad@, rnd, r),
    {
        let ghost before = self@;
        self.keypad = keypad;
        self.vram_changed = false;
        if self.delay_timer > 0 {
            self.delay_timer = self.delay_timer - 1;
        }
        let beep_request = self.sound_timer == 1;
        if self.sound_timer > 0 {
            self.sound_timer = self.sound_timer - 1;
        }
        assert(self@ == begin_tick(before, keypad@));
        if self.waiting {
            let mut k: usize = 0;
            while k < KEYPAD_SIZE && !self.keypad[k]
                invariant
                    k <= KEYPAD_SIZE,
                    self.keypad@.len() == KEYPAD_SIZE,
                    first_pressed(self.keypad@, 0) == first_pressed(self.keypad@, k as int),
                decreases KEYPAD_SIZE - k,
            {
                k = k + 1;
            }
            if k < KEYPAD_SIZE {
                self.v[self.selected_v as usize] = k as u8;
                self.waiting = false;
            }
        } else {
            if self.pc as usize + 1 >= MEMORY_SIZE {
                return Err(Fault::OutOfBoundsFetch { addr: self.pc });
            }
            let opcode = self.read_opcode();
            let res = self.execute(opcode, rnd);
            if let Err(f) = res {
                return Err(f);
            }
        }
        Ok(Output { vram_changed: self.vram_changed, beep_request, vram: self.vram })
    }

    /// Runs one tick with keypad snapshot `keypad`: as `tick_with_random`,
    /// with a freshly drawn random byte.
    pub fn tick(&mut self, keypad: [bool; KEYPAD_SIZE]) -> (r: Result<Output, Fault>)
        requires
            old(self).wf(),
        ensures
            final(self).wf(),
            exists|rnd: u8| tick_outcome(old(self)@, final(self)@, keypad@, rnd, r),
    {
        let rnd = random_byte();
        let r = self.tick_with_random(keypad, rnd);
        assert(tick_outcome(old(self)@, self@, keypad@, rnd, r));
        r
    }

    /// The value of register Vx.
    pub fn register(&self, x: u8) -> (r: u8)
        requires
            self.wf(),
            x < NUM_REGISTERS,
        ensures
            r == self@.v[x as int],
    {
        self.v[x as usize]
    }

    /// The program counter.
    pub fn program_counter(&self) -> (r: u16)
        ensures
            r == self@.pc,
    {
        self.pc
    }

    /// The index register I.
    pub fn index_register(&self) -> (r: u16)
        ensures
            r == self@.i,
    {
        self.i
    }

    /// The byte at `addr`, or `None` past the top of memory.
    pub fn memory_at(&self, addr: u16) -> (r: Option<u8>)
        requires
            self.wf(),
        ensures
            r == (if addr < MEMORY_SIZE {
                Some(self@.memory[addr as int])
            } else {
                None
            }),
    {
        if (addr as usize) < MEMORY_SIZE {
            Some(self.memory[addr as usize])
        } else {
            None
        }
    }

    /// The delay timer.
    pub fn delay_timer(&self) -> (r: u8)
        ensures
            r == self@.delay_timer,
    {
        self.delay_timer
    }

    /// The sound timer.
    pub fn sound_timer(&self) -> (r: u8)
        ensures
            r == self@.sound_timer,
    {
        self.sound_timer
    }

    /// Whether execution is suspended until a key is pressed.
    pub fn is_waiting(&self) -> (r: bool)
        ensures
            r == self@.waiting,
    {
        self.waiting
    }

    /// How many return addresses are on the stack.
    pub fn stack_depth(&self) -> (r: u16)
        ensures
            r == self@.sp,
    {
        self.sp
    }

    /// The frame buffer, one byte per pixel (0 or 1).
    pub fn frame(&self) -> (r: [[u8; CHIP8_WIDTH]; CHIP8_HEIGHT])
        ensures
            frame_view(r) == self@.vram,
    {
        self.vram
    }

    /// The instruction word at the program counter, high byte first.
    fn read_opcode(&self) -> (r: u16)
        requires
            self.wf(),
            can_fetch(self@),
        ensures
            r == fetch(self@),
    {
        let hi = self.memory[self.pc as usize] as u16;
        let lo = self.memory[(self.pc + 1) as usize] as u16;
        assert(hi < 256 && lo < 256 ==> (hi << 8u16) | lo == hi * 256 + lo) by (bit_vector);
        (hi << 8u16) | lo
    }
}

} // verus!
