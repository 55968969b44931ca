//! Properties of the machine that relate several instructions or ticks.
use vstd::prelude::*;

use crate::model::{
    begin_tick, beep_requested, blank_frame, can_fetch, execute, fetch, first_pressed, flag, lit,
    next_state, col_offset, row_offset, sprite_bit, op_family, op_kk, op_n, op_nnn, op_x, op_y, MachineState, CHIP8_HEIGHT, CHIP8_WIDTH, FLAG_REGISTER, KEYPAD_SIZE,
    NUM_REGISTERS, STACK_SIZE,
};

verus! {

/// The instruction word with family `f`, register fields `x` and `y` and low nibble `n`.
pub open spec fn opcode(f: int, x: int, y: int, n: int) -> u16 {
    (f * 0x1000 + x * 0x100 + y * 0x10 + n) as u16
}

/// The fields of an instruction word built by `opcode` are the ones it was built from.
pub proof fn lemma_opcode_decode(f: int, x: int, y: int, n: int)
    requires
        0 <= f < 16,
        0 <= x < 16,
        0 <= y < 16,
        0 <= n < 16,
    ensures
        op_family(opcode(f, x, y, n)) == f,
        op_x(opcode(f, x, y, n)) == x,
        op_y(opcode(f, x, y, n)) == y,
        op_n(opcode(f, x, y, n)) == n,
        op_kk(opcode(f, x, y, n)) == y * 16 + n,
        op_nnn(opcode(f, x, y, n)) == x * 256 + y * 16 + n,
        opcode(f, x, y, n) as int == f * 0x1000 + x * 0x100 + y * 0x10 + n,
{
    let v = f * 0x1000 + x * 0x100 + y * 0x10 + n;
    assert(0 <= v < 0x10000);
    assert(opcode(f, x, y, n) as int == v);
    assert(v / 0x1000 == f) by (nonlinear_arith)
        requires v == f * 0x1000 + x * 0x100 + y * 0x10 + n, 0 <= x < 16, 0 <= y < 16, 0 <= n < 16;
    assert((v / 0x100) % 0x10 == x) by (nonlinear_arith)
        requires v == f * 0x1000 + x * 0x100 + y * 0x10 + n, 0 <= x < 16, 0 <= y < 16, 0 <= n < 16, 0 <= f;
    assert((v / 0x10) % 0x10 == y) by (nonlinear_arith)
        requires v == f * 0x1000 + x * 0x100 + y * 0x10 + n, 0 <= x < 16, 0 <= y < 16, 0 <= n < 16, 0 <= f;
    assert(v % 0x10 == n) by (nonlinear_arith)
        requires v == f * 0x1000 + x * 0x100 + y * 0x10 + n, 0 <= x < 16, 0 <= y < 16, 0 <= n < 16, 0 <= f;
    assert(v % 0x100 == y * 16 + n) by (nonlinear_arith)
        requires v == f * 0x1000 + x * 0x100 + y * 0x10 + n, 0 <= x < 16, 0 <= y < 16, 0 <= n < 16, 0 <= f;
    assert(v % 0x1000 == x * 256 + y * 16 + n) by (nonlinear_arith)
        requires v == f * 0x1000 + x * 0x100 + y * 0x10 + n, 0 <= x < 16, 0 <= y < 16, 0 <= n < 16, 0 <= f;
}

proof fn lemma_xor_flags(b: bool)
    ensures
        0u8 ^ flag(b) == flag(b),
        flag(b) ^ flag(b) == 0u8,
{
    assert(0u8 ^ 1u8 == 1u8) by (bit_vector);
    assert(0u8 ^ 0u8 == 0u8) by (bit_vector);
    assert(1u8 ^ 1u8 == 0u8) by (bit_vector);
}

/// Loading a byte into Vx (`6xkk`) and then adding zero to it (`7x00`)
/// leaves exactly that byte in Vx.
pub proof fn lemma_load_then_add_zero(s: MachineState, x: int, kk: int, rnd1: u8, rnd2: u8)
    requires
        s.wf(),
        0 <= x < NUM_REGISTERS,
        0 <= kk < 256,
    ensures
        execute(s, opcode(6, x, kk / 16, kk % 16), rnd1) is Ok,
        execute(execute(s, opcode(6, x, kk / 16, kk % 16), rnd1)->Ok_0, opcode(7, x, 0, 0), rnd2) is Ok,
        execute(
            execute(s, opcode(6, x, kk / 16, kk % 16), rnd1)->Ok_0,
            opcode(7, x, 0, 0),
            rnd2,
        )->Ok_0.v[x] == kk,
{
    lemma_opcode_decode(6, x, kk / 16, kk % 16);
    lemma_opcode_decode(7, x, 0, 0);
}

/// `8xy4` with Vx = 200 and Vy = 100 wraps Vx to 44 and sets the carry in
/// VF (for x other than F, where the result overwrites the flag).
pub proof fn lemma_add_with_carry(s: MachineState, x: int, y: int, rnd: u8)
    requires
        s.wf(),
        0 <= x < NUM_REGISTERS,
        0 <= y < NUM_REGISTERS,
        x != FLAG_REGISTER,
        s.v[x] == 200,
        s.v[y] == 100,
    ensures
        execute(s, opcode(8, x, y, 4), rnd) is Ok,
        execute(s, opcode(8, x, y, 4), rnd)->Ok_0.v[x] == 44,
        execute(s, opcode(8, x, y, 4), rnd)->Ok_0.v[FLAG_REGISTER as int] == 1,
{
    lemma_opcode_decode(8, x, y, 4);
}

/// `8xy5` with Vx = 100 and Vy = 200 wraps Vx to 156 and clears VF, as
/// the subtraction borrows (for x other than F).
pub proof fn lemma_sub_with_borrow(s: MachineState, x: int, y: int, rnd: u8)
    requires
        s.wf(),
        0 <= x < NUM_REGISTERS,
        0 <= y < NUM_REGISTERS,
        x != FLAG_REGISTER,
        s.v[x] == 100,
        s.v[y] == 200,
    ensures
        execute(s, opcode(8, x, y, 5), rnd) is Ok,
        execute(s, opcode(8, x, y, 5), rnd)->Ok_0.v[x] == 156,
        execute(s, opcode(8, x, y, 5), rnd)->Ok_0.v[FLAG_REGISTER as int] == 0,
{
    lemma_opcode_decode(8, x, y, 5);
}

/// After `00E0`, a sprite drawn with `Dxyn` reports no collision; drawing
/// it again with the same operands turns the display all off and reports a
/// collision exactly when the sprite has a lit pixel. The coordinates must
/// not come from VF, which the first draw overwrites.
pub proof fn lemma_draw_twice_after_clear(s: MachineState, x: int, y: int, n: int, rnd: u8)
    requires
        s.wf(),
        0 <= x < FLAG_REGISTER,
        0 <= y < FLAG_REGISTER,
        0 <= n < 16,
        n == 0 || s.i + n <= 4096,
    ensures
        ({
            let s1 = execute(s, 0x00E0, rnd)->Ok_0;
            let d2 = execute(s1, opcode(0xD, x, y, n), rnd);
            let d3 = execute(d2->Ok_0, opcode(0xD, x, y, n), rnd);
            &&& d2 is Ok
            &&& d2->Ok_0.v[FLAG_REGISTER as int] == 0
            &&& d3 is Ok
            &&& d3->Ok_0.vram == blank_frame()
            &&& d3->Ok_0.v[FLAG_REGISTER as int] == flag(
                exists|r: int, c: int|
                    0 <= r < CHIP8_HEIGHT && 0 <= c < CHIP8_WIDTH && #[trigger] lit(
                        s,
                        s.v[x],
                        s.v[y],
                        n,
                        r,
                        c,
                    ),
            )
        }),
{
    let op = opcode(0xD, x, y, n);
    lemma_opcode_decode(0xD, x, y, n);
    let s1 = execute(s, 0x00E0, rnd)->Ok_0;
    let s2 = execute(s1, op, rnd)->Ok_0;
    let s3 = execute(s2, op, rnd)->Ok_0;
    let vx = s.v[x];
    let vy = s.v[y];
    assert(s2.v[x] == vx && s2.v[y] == vy);
    assert forall|r: int, c: int|
        0 <= r < CHIP8_HEIGHT && 0 <= c < CHIP8_WIDTH implies #[trigger] s2.vram[r][c] == flag(
            lit(s, vx, vy, n, r, c),
        ) && s3.vram[r][c] == 0u8 by {
        lemma_xor_flags(lit(s, vx, vy, n, r, c));
        assert(lit(s1, vx, vy, n, r, c) == lit(s, vx, vy, n, r, c));
        assert(lit(s2, vx, vy, n, r, c) == lit(s, vx, vy, n, r, c));
    }
    assert forall|r: int| 0 <= r < CHIP8_HEIGHT implies #[trigger] s3.vram[r]
        == blank_frame()[r] by {
        assert(s3.vram[r] =~= blank_frame()[r]);
    }
    assert(s3.vram =~= blank_frame());
    if exists|r: int, c: int|
        0 <= r < CHIP8_HEIGHT && 0 <= c < CHIP8_WIDTH && #[trigger] lit(s, vx, vy, n, r, c) {
        let (r, c) = choose|r: int, c: int|
            0 <= r < CHIP8_HEIGHT && 0 <= c < CHIP8_WIDTH && #[trigger] lit(s, vx, vy, n, r, c);
        assert(lit(s2, vx, vy, n, r, c));
    }
    if exists|r: int, c: int|
        0 <= r < CHIP8_HEIGHT && 0 <= c < CHIP8_WIDTH && #[trigger] lit(s2, vx, vy, n, r, c)
            && s2.vram[r][c] == 1 {
        let (r, c) = choose|r: int, c: int|
            0 <= r < CHIP8_HEIGHT && 0 <= c < CHIP8_WIDTH && #[trigger] lit(s2, vx, vy, n, r, c)
                && s2.vram[r][c] == 1;
        assert(lit(s, vx, vy, n, r, c));
    }
}

/// Frame row on which row `k` of a sprite with top row `vy` lands.
pub open spec fn wrap_row(vy: u8, k: int) -> int {
    (vy + k) % (CHIP8_HEIGHT as int)
}

/// Frame column on which column `b` of a sprite with left edge `vx` lands.
pub open spec fn wrap_col(vx: u8, b: int) -> int {
    (vx + b) % (CHIP8_WIDTH as int)
}

/// `Dxyn` wraps around the display instead of clipping: row k, column b of
/// the sprite read at I lands on frame row (Vy + k) mod 32 and column
/// (Vx + b) mod 64, whose pixel is XORed with that sprite bit; every pixel
/// outside the sprite's n rows and 8 columns keeps its value.
pub proof fn lemma_draw_wraps(s: MachineState, x: int, y: int, n: int, rnd: u8)
    requires
        s.wf(),
        0 <= x < NUM_REGISTERS,
        0 <= y < NUM_REGISTERS,
        0 <= n < 16,
        n == 0 || s.i + n <= 4096,
    ensures
        ({
            let d = execute(s, opcode(0xD, x, y, n), rnd);
            let vx = s.v[x];
            let vy = s.v[y];
            &&& d is Ok
            &&& forall|k: int, b: int|
                0 <= k < n && 0 <= b < 8 ==> d->Ok_0.vram[#[trigger] wrap_row(vy, k)][#[trigger] wrap_col(
                    vx,
                    b,
                )] == s.vram[wrap_row(vy, k)][wrap_col(vx, b)] ^ flag(
                    sprite_bit(s.memory[s.i + k], b),
                )
            &&& forall|r: int, c: int|
                0 <= r < CHIP8_HEIGHT && 0 <= c < CHIP8_WIDTH && !(row_offset(vy, r) < n
                    && col_offset(vx, c) < 8) ==> #[trigger] d->Ok_0.vram[r][c] == s.vram[r][c]
        }),
{
    lemma_opcode_decode(0xD, x, y, n);
    let vx = s.v[x];
    let vy = s.v[y];
    let t = execute(s, opcode(0xD, x, y, n), rnd)->Ok_0;
    assert forall|k: int, b: int| 0 <= k < n && 0 <= b < 8 implies t.vram[#[trigger] wrap_row(
        vy,
        k,
    )][#[trigger] wrap_col(vx, b)] == s.vram[wrap_row(vy, k)][wrap_col(vx, b)] ^ flag(
        sprite_bit(s.memory[s.i + k], b),
    ) by {
        assert(row_offset(vy, wrap_row(vy, k)) == k);
        assert(col_offset(vx, wrap_col(vx, b)) == b);
    }
    assert forall|r: int, c: int|
        0 <= r < CHIP8_HEIGHT && 0 <= c < CHIP8_WIDTH && !(row_offset(vy, r) < n && col_offset(
            vx,
            c,
        ) < 8) implies #[trigger] t.vram[r][c] == s.vram[r][c] by {
        let p = s.vram[r][c];
        assert(p ^ 0u8 == p) by (bit_vector);
    }
}

proof fn lemma_none_pressed(keys: Seq<bool>, k: int)
    requires
        0 <= k <= KEYPAD_SIZE,
        keys.len() == KEYPAD_SIZE,
        forall|j: int| 0 <= j < KEYPAD_SIZE ==> !#[trigger] keys[j],
    ensures
        first_pressed(keys, k) == KEYPAD_SIZE,
    decreases KEYPAD_SIZE - k,
{
    if k < KEYPAD_SIZE {
        lemma_none_pressed(keys, k + 1);
    }
}

proof fn lemma_first_pressed_bounds(keys: Seq<bool>, k: int)
    requires
        0 <= k <= KEYPAD_SIZE,
    ensures
        k <= first_pressed(keys, k) <= KEYPAD_SIZE,
    decreases KEYPAD_SIZE - k,
{
    if k < KEYPAD_SIZE {
        lemma_first_pressed_bounds(keys, k + 1);
    }
}

/// `Fx0A` suspends the machine: ticks with no key pressed change neither
/// the program counter, the registers nor memory. The first tick with a key
/// down stores the lowest pressed key in Vx and ends the wait, so the tick
/// after it fetches again.
pub proof fn lemma_wait_for_key(
    s: MachineState,
    x: int,
    idle: Seq<bool>,
    keys: Seq<bool>,
    rnd: u8,
)
    requires
        s.wf(),
        !s.waiting,
        can_fetch(s),
        0 <= x < NUM_REGISTERS,
        s.memory[s.pc as int] == 0xF0 + x,
        s.memory[s.pc + 1] == 0x0A,
        idle.len() == KEYPAD_SIZE,
        forall|k: int| 0 <= k < KEYPAD_SIZE ==> !#[trigger] idle[k],
        keys.len() == KEYPAD_SIZE,
        first_pressed(keys, 0) < KEYPAD_SIZE,
    ensures
        ({
            let t1 = next_state(s, idle, rnd)->Ok_0;
            let t2 = next_state(t1, idle, rnd)->Ok_0;
            let t3 = next_state(t2, keys, rnd)->Ok_0;
            &&& next_state(s, idle, rnd) is Ok
            &&& t1.waiting && t1.pc == s.pc + 2
            &&& next_state(t1, idle, rnd) is Ok
            &&& t2.waiting && t2.pc == t1.pc && t2.v == t1.v && t2.memory == t1.memory
            &&& next_state(t2, keys, rnd) is Ok
            &&& !t3.waiting && t3.pc == t1.pc
            &&& t3.v[x] == first_pressed(keys, 0)
        }),
{
    let t0 = begin_tick(s, idle);
    lemma_opcode_decode(0xF, x, 0, 0xA);
    assert(fetch(t0) == opcode(0xF, x, 0, 0xA));
    lemma_none_pressed(idle, 0);
    lemma_first_pressed_bounds(keys, 0);
}

/// A tick that starts with the sound timer at 1 requests a beep and leaves
/// the timer at 0; a tick that starts with it at 0 requests none.
/// `Fx18` with Vx = 1 is one way to set the timer to 1.
pub proof fn lemma_beep_once(s: MachineState, x: int, keys: Seq<bool>, rnd: u8)
    requires
        s.wf(),
        0 <= x < NUM_REGISTERS,
        s.v[x] == 1,
    ensures
        execute(s, opcode(0xF, x, 1, 8), rnd) is Ok,
        execute(s, opcode(0xF, x, 1, 8), rnd)->Ok_0.sound_timer == 1,
        beep_requested(execute(s, opcode(0xF, x, 1, 8), rnd)->Ok_0),
        begin_tick(execute(s, opcode(0xF, x, 1, 8), rnd)->Ok_0, keys).sound_timer == 0,
        !beep_requested(begin_tick(execute(s, opcode(0xF, x, 1, 8), rnd)->Ok_0, keys)),
{
}

/// `2nnn` pushes the address of the next instruction (pc + 2) and jumps to
/// nnn; `00EE` right after it returns to that address and leaves the stack
/// depth as it was.
pub proof fn lemma_call_then_return(s: MachineState, nnn: int, rnd1: u8, rnd2: u8)
    requires
        s.wf(),
        s.sp < STACK_SIZE,
        0 <= nnn < 0x1000,
        s.pc + 2 < 0x10000,
    ensures
        ({
            let c = execute(s, opcode(2, nnn / 0x100, (nnn / 0x10) % 0x10, nnn % 0x10), rnd1);
            let r = execute(c->Ok_0, 0x00EE, rnd2);
            &&& c is Ok
            &&& c->Ok_0.pc == nnn
            &&& c->Ok_0.sp == s.sp + 1
            &&& c->Ok_0.stack[s.sp as int] == s.pc + 2
            &&& r is Ok
            &&& r->Ok_0.pc == s.pc + 2
            &&& r->Ok_0.sp == s.sp
        }),
{
}

} // verus!
