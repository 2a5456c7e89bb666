//! The mathematical model of the machine.
//!
//! `CoreView` is the specification-level image of the whole machine state.
//! `spec_step` says, for every state, what executing one instruction at the
//! program counter does: either the complete successor state or the error
//! that is reported. The executable engine in `chip8_cpu` is proved to
//! return exactly what `spec_step` prescribes.

use crate::decode::{spec_decode, Instruction};
use vstd::arithmetic::div_mod::{
    lemma_fundamental_div_mod, lemma_fundamental_div_mod_converse, lemma_mod_bound,
};
use vstd::prelude::*;

verus! {

/// Size of addressable memory in bytes.
pub const MEM_SIZE: usize = 4096;

/// Number of general-purpose registers.
pub const NUM_REGS: usize = 16;

/// Capacity of the call stack.
pub const STACK_DEPTH: usize = 16;

/// Display width in pixels.
pub const SCREEN_WIDTH: usize = 64;

/// Display height in pixels.
pub const SCREEN_HEIGHT: usize = 32;

/// Number of pixels of the display.
pub const NUM_PIXELS: usize = SCREEN_WIDTH * SCREEN_HEIGHT;

/// Number of keypad keys.
pub const NUM_KEYS: usize = 16;

/// First address of a loaded program.
pub const PROGRAM_START: usize = 0x200;

/// Largest program that fits between `PROGRAM_START` and the end of memory.
pub const MAX_PROGRAM_LEN: usize = MEM_SIZE - PROGRAM_START;

/// Number of bytes of the built-in glyph sprites (16 glyphs of 5 bytes).
pub const FONT_LEN: usize = 80;

/// Seed of the pseudo-random byte source at initialization.
pub const RNG_SEED: u16 = 0xACE1;

/// Every fault the core can report. Errors are returned, never panicked,
/// and a failing instruction leaves the machine state unchanged.
#[derive(Clone, Copy, PartialEq, Eq, Structural, Debug)]
pub enum Chip8Error {
    /// A memory access reached past address 4095.
    AddressOutOfRange,
    /// The fetched opcode is not in the instruction table.
    UnknownOpcode,
    /// A call was executed with the call stack already full.
    StackOverflow,
    /// A return was executed with the call stack empty.
    StackUnderflow,
    /// A register access named a register index of 16 or more.
    IndexOutOfRange,
}

/// The machine state as mathematics: every component of the executable
/// `System`, with sequences in place of vectors.
#[verifier::ext_equal]
pub ghost struct CoreView {
    /// 4096 bytes of memory.
    pub mem: Seq<u8>,
    /// The 16 general-purpose registers; index 15 doubles as the flag.
    pub regs: Seq<u8>,
    /// The 16-bit index register.
    pub index: u16,
    /// The program counter.
    pub pc: u16,
    /// The 64x32 display, one flag per pixel, stored column by column:
    /// pixel `(x, y)` is at `x * 32 + y`.
    pub screen: Seq<bool>,
    /// The delay timer.
    pub delay: u8,
    /// The sound timer.
    pub sound: u8,
    /// The 16 keypad keys; `true` is pressed.
    pub keys: Seq<bool>,
    /// The call stack; only the first `sp` slots are live.
    pub stack: Seq<u16>,
    /// The stack pointer, between 0 and 16.
    pub sp: u8,
    /// The state of the pseudo-random byte source.
    pub rng: u16,
}

impl CoreView {
    /// Well-formedness: every component has its fixed size and the stack
    /// pointer is within the stack.
    pub open spec fn wf(self) -> bool {
        &&& self.mem.len() == MEM_SIZE
        &&& self.regs.len() == NUM_REGS
        &&& self.screen.len() == NUM_PIXELS
        &&& self.keys.len() == NUM_KEYS
        &&& self.stack.len() == STACK_DEPTH
        &&& self.sp <= STACK_DEPTH
    }

    /// The same state with the program counter replaced.
    pub open spec fn with_pc(self, pc: u16) -> CoreView {
        CoreView { pc, ..self }
    }
}

/// The machine state right after initialization: everything zeroed, the
/// program counter at `PROGRAM_START`, no key pressed, no pixel set.
pub open spec fn initial_view() -> CoreView {
    CoreView {
        mem: Seq::new(MEM_SIZE as nat, |i: int| 0u8),
        regs: Seq::new(NUM_REGS as nat, |i: int| 0u8),
        index: 0,
        pc: PROGRAM_START as u16,
        screen: Seq::new(NUM_PIXELS as nat, |i: int| false),
        delay: 0,
        sound: 0,
        keys: Seq::new(NUM_KEYS as nat, |i: int| false),
        stack: Seq::new(STACK_DEPTH as nat, |i: int| 0u16),
        sp: 0,
        rng: RNG_SEED,
    }
}

/// The built-in glyph sprites: 16 five-byte bitmaps for the hexadecimal
/// digits, glyph `d` starting at offset `d * 5`.
pub open spec fn font_seq() -> Seq<u8> {
    seq![
        0xF0u8, 0x90, 0x90, 0x90, 0xF0, // 0
        0x20, 0x60, 0x20, 0x20, 0x70, // 1
        0xF0, 0x10, 0xF0, 0x80, 0xF0, // 2
        0xF0, 0x10, 0xF0, 0x10, 0xF0, // 3
        0x90, 0x90, 0xF0, 0x10, 0x10, // 4
        0xF0, 0x80, 0xF0, 0x10, 0xF0, // 5
        0xF0, 0x80, 0xF0, 0x90, 0xF0, // 6
        0xF0, 0x10, 0x20, 0x40, 0x40, // 7
        0xF0, 0x90, 0xF0, 0x90, 0xF0, // 8
        0xF0, 0x90, 0xF0, 0x10, 0xF0, // 9
        0xF0, 0x90, 0xF0, 0x90, 0x90, // A
        0xE0, 0x90, 0xE0, 0x90, 0xE0, // B
        0xF0, 0x80, 0x80, 0x80, 0xF0, // C
        0xE0, 0x90, 0x90, 0x90, 0xE0, // D
        0xF0, 0x80, 0xF0, 0x80, 0xF0, // E
        0xF0, 0x80, 0xF0, 0x80, 0x80, // F
    ]
}

/// The program counter after an ordinary instruction: two bytes onward.
pub open spec fn adv(pc: u16) -> u16 {
    (pc + 2) as u16
}

/// The program counter after a taken skip: four bytes onward.
pub open spec fn adv_skip(pc: u16) -> u16 {
    (pc + 4) as u16
}

/// One timer tick: decrement when positive, hold at zero otherwise.
pub open spec fn tick_spec(t: u8) -> u8 {
    if t > 0 {
        (t - 1) as u8
    } else {
        0
    }
}

/// The successor state of the pseudo-random byte source (a 16-bit
/// xorshift).
pub open spec fn next_rng(x: u16) -> u16 {
    let a = x ^ (x << 7);
    let b = a ^ (a >> 9);
    b ^ (b << 8)
}

/// The hundreds digit of a byte's decimal representation.
pub open spec fn bcd_hundreds(v: u8) -> u8 {
    v / 100
}

/// The tens digit of a byte's decimal representation.
pub open spec fn bcd_tens(v: u8) -> u8 {
    (v % 100) / 10
}

/// The ones digit of a byte's decimal representation.
pub open spec fn bcd_ones(v: u8) -> u8 {
    v % 10
}

/// The lowest pressed key, if any: the key the blocking key-wait
/// instruction observes.
pub open spec fn first_pressed_from(keys: Seq<bool>, k: int) -> Option<int>
    decreases NUM_KEYS - k,
{
    if k < 0 || k >= NUM_KEYS {
        None
    } else if keys[k] {
        Some(k)
    } else {
        first_pressed_from(keys, k + 1)
    }
}

/// The lowest pressed key of the whole keypad, if any.
pub open spec fn first_pressed(keys: Seq<bool>) -> Option<int> {
    first_pressed_from(keys, 0)
}

/// Skipping unpressed keys does not change which key is found first.
pub proof fn lemma_first_pressed_from_skip(keys: Seq<bool>, i: int, k: int)
    requires
        0 <= i <= k <= NUM_KEYS,
        forall|j: int| i <= j < k ==> !keys[j],
    ensures
        first_pressed_from(keys, i) == first_pressed_from(keys, k),
    decreases k - i,
{
    if i < k {
        lemma_first_pressed_from_skip(keys, i + 1, k);
    }
}

/// Position of pixel `(x, y)` in the flat display sequence.
pub open spec fn pixel_index(px: int, py: int) -> int {
    px * 32 + py
}

/// Horizontal wrap-around: the screen column of sprite column `c` drawn at
/// origin column `xs` (with `0 <= xs < 64` and `0 <= c < 8`).
pub open spec fn wrap_x(xs: int, c: int) -> int {
    if xs + c < 64 {
        xs + c
    } else {
        xs + c - 64
    }
}

/// Vertical wrap-around: the screen row of sprite row `r` drawn at origin
/// row `ys` (with `0 <= ys < 32` and `0 <= r < 16`).
pub open spec fn wrap_y(ys: int, r: int) -> int {
    if ys + r < 32 {
        ys + r
    } else {
        ys + r - 32
    }
}

/// The sprite column that lands on screen column `px` for origin column
/// `xs`: the inverse of `wrap_x`.
pub open spec fn col_of(px: int, xs: int) -> int {
    if px >= xs {
        px - xs
    } else {
        px + 64 - xs
    }
}

/// The sprite row that lands on screen row `py` for origin row `ys`: the
/// inverse of `wrap_y`.
pub open spec fn row_of(py: int, ys: int) -> int {
    if py >= ys {
        py - ys
    } else {
        py + 32 - ys
    }
}

/// Bit `c` of a sprite byte, most significant bit first.
pub open spec fn sprite_bit(b: u8, c: int) -> bool {
    b & (0x80u8 >> (c as u8)) != 0
}

/// Whether the sprite flips the pixel at `(px, py)`, counting only the part
/// already applied: rows below `rows` wholly, and of row `rows` the columns
/// below `cols`. The full draw is `rows == n`, `cols == 0`.
pub open spec fn draw_contrib(
    mem: Seq<u8>,
    i: int,
    xs: int,
    ys: int,
    rows: int,
    cols: int,
    px: int,
    py: int,
) -> bool {
    let c = col_of(px, xs);
    let r = row_of(py, ys);
    &&& c < 8
    &&& (r < rows || (r == rows && c < cols))
    &&& sprite_bit(mem[i + r], c)
}

/// The display after the partial draw described by `rows` and `cols`: each
/// pixel is XORed with its sprite contribution.
pub open spec fn screen_after_draw_upto(
    screen: Seq<bool>,
    mem: Seq<u8>,
    i: int,
    xs: int,
    ys: int,
    rows: int,
    cols: int,
) -> Seq<bool> {
    Seq::new(
        NUM_PIXELS as nat,
        |idx: int| screen[idx] != draw_contrib(mem, i, xs, ys, rows, cols, idx / 32, idx % 32),
    )
}

/// The display after drawing the whole `n`-row sprite at `(xs, ys)`.
pub open spec fn screen_after_draw(
    screen: Seq<bool>,
    mem: Seq<u8>,
    i: int,
    xs: int,
    ys: int,
    n: int,
) -> Seq<bool> {
    screen_after_draw_upto(screen, mem, i, xs, ys, n, 0)
}

/// Whether the partial draw turns some set pixel unset: a sprite bit lands
/// on a pixel that was set before the draw.
pub open spec fn draw_collision_upto(
    screen: Seq<bool>,
    mem: Seq<u8>,
    i: int,
    xs: int,
    ys: int,
    rows: int,
    cols: int,
) -> bool {
    exists|px: int, py: int|
        0 <= px < 64 && 0 <= py < 32 && screen[pixel_index(px, py)] && #[trigger] draw_contrib(
            mem,
            i,
            xs,
            ys,
            rows,
            cols,
            px,
            py,
        )
}

/// Whether the whole draw collides: the value the flag register receives.
pub open spec fn draw_collision(
    screen: Seq<bool>,
    mem: Seq<u8>,
    i: int,
    xs: int,
    ys: int,
    n: int,
) -> bool {
    draw_collision_upto(screen, mem, i, xs, ys, n, 0)
}

/// The effect of one decoded instruction on a well-formed state `s` whose
/// program counter still points at the instruction: the successor state, or
/// the error reported, in which case the state is kept unchanged.
pub open spec fn spec_exec_instr(s: CoreView, instr: Instruction) -> Result<
    CoreView,
    Chip8Error,
> {
    match instr {
        Instruction::ClearScreen => Ok(
            CoreView {
                screen: Seq::new(NUM_PIXELS as nat, |i: int| false),
                pc: adv(s.pc),
                ..s
            },
        ),
        Instruction::Return => if s.sp == 0 {
            Err(Chip8Error::StackUnderflow)
        } else {
            Ok(CoreView { pc: s.stack[s.sp - 1], sp: (s.sp - 1) as u8, ..s })
        },
        Instruction::Jump { nnn } => Ok(CoreView { pc: nnn, ..s }),
        Instruction::Call { nnn } => if s.sp >= STACK_DEPTH {
            Err(Chip8Error::StackOverflow)
        } else {
            Ok(
                CoreView {
                    stack: s.stack.update(s.sp as int, adv(s.pc)),
                    sp: (s.sp + 1) as u8,
                    pc: nnn,
                    ..s
                },
            )
        },
        Instruction::SkipEqImm { x, nn } => Ok(
            s.with_pc(if s.regs[x as int] == nn { adv_skip(s.pc) } else { adv(s.pc) }),
        ),
        Instruction::SkipNeImm { x, nn } => Ok(
            s.with_pc(if s.regs[x as int] != nn { adv_skip(s.pc) } else { adv(s.pc) }),
        ),
        Instruction::SkipEqReg { x, y } => Ok(
            s.with_pc(
                if s.regs[x as int] == s.regs[y as int] { adv_skip(s.pc) } else { adv(s.pc) },
            ),
        ),
        Instruction::SkipNeReg { x, y } => Ok(
            s.with_pc(
                if s.regs[x as int] != s.regs[y as int] { adv_skip(s.pc) } else { adv(s.pc) },
            ),
        ),
        Instruction::LoadImm { x, nn } => Ok(
            CoreView { regs: s.regs.update(x as int, nn), pc: adv(s.pc), ..s },
        ),
        Instruction::AddImm { x, nn } => Ok(
            CoreView {
                regs: s.regs.update(x as int, ((s.regs[x as int] + nn) % 256) as u8),
                pc: adv(s.pc),
                ..s
            },
        ),
        Instruction::Assign { x, y } => Ok(
            CoreView { regs: s.regs.update(x as int, s.regs[y as int]), pc: adv(s.pc), ..s },
        ),
        Instruction::Or { x, y } => Ok(
            CoreView {
                regs: s.regs.update(x as int, s.regs[x as int] | s.regs[y as int]),
                pc: adv(s.pc),
                ..s
            },
        ),
        Instruction::And { x, y } => Ok(
            CoreView {
                regs: s.regs.update(x as int, s.regs[x as int] & s.regs[y as int]),
                pc: adv(s.pc),
                ..s
            },
        ),
        Instruction::Xor { x, y } => Ok(
            CoreView {
                regs: s.regs.update(x as int, s.regs[x as int] ^ s.regs[y as int]),
                pc: adv(s.pc),
                ..s
            },
        ),
        Instruction::AddReg { x, y } => Ok(
            CoreView {
                regs: s.regs.update(
                    x as int,
                    ((s.regs[x as int] + s.regs[y as int]) % 256) as u8,
                ).update(15, if s.regs[x as int] + s.regs[y as int] > 255 { 1u8 } else { 0u8 }),
                pc: adv(s.pc),
                ..s
            },
        ),
        Instruction::SubReg { x, y } => Ok(
            CoreView {
                regs: s.regs.update(
                    x as int,
                    ((s.regs[x as int] - s.regs[y as int] + 256) % 256) as u8,
                ).update(15, if s.regs[x as int] >= s.regs[y as int] { 1u8 } else { 0u8 }),
                pc: adv(s.pc),
                ..s
            },
        ),
        Instruction::ShiftRight { x } => Ok(
            CoreView {
                regs: s.regs.update(x as int, s.regs[x as int] >> 1).update(
                    15,
                    s.regs[x as int] & 1,
                ),
                pc: adv(s.pc),
                ..s
            },
        ),
        Instruction::SubFrom { x, y } => Ok(
            CoreView {
                regs: s.regs.update(
                    x as int,
                    ((s.regs[y as int] - s.regs[x as int] + 256) % 256) as u8,
                ).update(15, if s.regs[y as int] >= s.regs[x as int] { 1u8 } else { 0u8 }),
                pc: adv(s.pc),
                ..s
            },
        ),
        Instruction::ShiftLeft { x } => Ok(
            CoreView {
                regs: s.regs.update(x as int, s.regs[x as int] << 1).update(
                    15,
                    s.regs[x as int] >> 7,
                ),
                pc: adv(s.pc),
                ..s
            },
        ),
        Instruction::LoadIndex { nnn } => Ok(CoreView { index: nnn, pc: adv(s.pc), ..s }),
        Instruction::JumpOffset { nnn } => Ok(
            CoreView { pc: ((nnn + s.regs[0]) % 0x10000) as u16, ..s },
        ),
        Instruction::Random { x, nn } => Ok(
            CoreView {
                regs: s.regs.update(x as int, ((next_rng(s.rng) & 0xFF) as u8) & nn),
                rng: next_rng(s.rng),
                pc: adv(s.pc),
                ..s
            },
        ),
        Instruction::Draw { x, y, n } => if s.index + n > MEM_SIZE {
            Err(Chip8Error::AddressOutOfRange)
        } else {
            Ok(
                CoreView {
                    screen: screen_after_draw(
                        s.screen,
                        s.mem,
                        s.index as int,
                        (s.regs[x as int] % 64) as int,
                        (s.regs[y as int] % 32) as int,
                        n as int,
                    ),
                    regs: s.regs.update(
                        15,
                        if draw_collision(
                            s.screen,
                            s.mem,
                            s.index as int,
                            (s.regs[x as int] % 64) as int,
                            (s.regs[y as int] % 32) as int,
                            n as int,
                        ) {
                            1u8
                        } else {
                            0u8
                        },
                    ),
                    pc: adv(s.pc),
                    ..s
                },
            )
        },
        Instruction::SkipKeyPressed { x } => Ok(
            s.with_pc(
                if s.keys[(s.regs[x as int] & 0x0F) as int] { adv_skip(s.pc) } else { adv(s.pc) },
            ),
        ),
        Instruction::SkipKeyNotPressed { x } => Ok(
            s.with_pc(
                if !s.keys[(s.regs[x as int] & 0x0F) as int] { adv_skip(s.pc) } else { adv(s.pc) },
            ),
        ),
        Instruction::ReadDelay { x } => Ok(
            CoreView { regs: s.regs.update(x as int, s.delay), pc: adv(s.pc), ..s },
        ),
        Instruction::WaitKey { x } => match first_pressed(s.keys) {
            Some(k) => Ok(
                CoreView { regs: s.regs.update(x as int, k as u8), pc: adv(s.pc), ..s },
            ),
            None => Ok(s),
        },
        Instruction::SetDelay { x } => Ok(
            CoreView { delay: s.regs[x as int], pc: adv(s.pc), ..s },
        ),
        Instruction::SetSound { x } => Ok(
            CoreView { sound: s.regs[x as int], pc: adv(s.pc), ..s },
        ),
        Instruction::AddIndex { x } => Ok(
            CoreView {
                index: ((s.index + s.regs[x as int]) % 0x10000) as u16,
                pc: adv(s.pc),
                ..s
            },
        ),
        Instruction::GlyphIndex { x } => Ok(
            CoreView { index: (s.regs[x as int] * 5) as u16, pc: adv(s.pc), ..s },
        ),
        Instruction::StoreBcd { x } => if s.index + 3 > MEM_SIZE {
            Err(Chip8Error::AddressOutOfRange)
        } else {
            Ok(
                CoreView {
                    mem: s.mem.update(s.index as int, bcd_hundreds(s.regs[x as int])).update(
                        s.index + 1,
                        bcd_tens(s.regs[x as int]),
                    ).update(s.index + 2, bcd_ones(s.regs[x as int])),
                    pc: adv(s.pc),
                    ..s
                },
            )
        },
        Instruction::StoreRegs { x } => if s.index + x + 1 > MEM_SIZE {
            Err(Chip8Error::AddressOutOfRange)
        } else {
            Ok(
                CoreView {
                    mem: Seq::new(
                        MEM_SIZE as nat,
                        |j: int|
                            if s.index <= j <= s.index + x {
                                s.regs[j - s.index]
                            } else {
                                s.mem[j]
                            },
                    ),
                    pc: adv(s.pc),
                    ..s
                },
            )
        },
        Instruction::LoadRegs { x } => if s.index + x + 1 > MEM_SIZE {
            Err(Chip8Error::AddressOutOfRange)
        } else {
            Ok(
                CoreView {
                    regs: Seq::new(
                        NUM_REGS as nat,
                        |j: int| if j <= x { s.mem[s.index + j] } else { s.regs[j] },
                    ),
                    pc: adv(s.pc),
                    ..s
                },
            )
        },
        Instruction::Unknown => Err(Chip8Error::UnknownOpcode),
    }
}

/// Before any sprite bit is applied, the partial draw leaves the display
/// as it was, and nothing has collided.
pub proof fn lemma_draw_init(screen: Seq<bool>, mem: Seq<u8>, i: int, xs: int, ys: int)
    requires
        screen.len() == NUM_PIXELS,
        0 <= xs < 64,
        0 <= ys < 32,
    ensures
        screen_after_draw_upto(screen, mem, i, xs, ys, 0, 0) == screen,
        !draw_collision_upto(screen, mem, i, xs, ys, 0, 0),
{
    assert forall|a: int, b: int|
        0 <= a < 64 && 0 <= b < 32 implies !#[trigger] draw_contrib(
        mem,
        i,
        xs,
        ys,
        0,
        0,
        a,
        b,
    ) by {}
    assert forall|k: int| 0 <= k < NUM_PIXELS implies screen_after_draw_upto(
        screen,
        mem,
        i,
        xs,
        ys,
        0,
        0,
    )[k] == screen[k] by {
        lemma_fundamental_div_mod(k, 32);
        lemma_mod_bound(k, 32);
        assert(0 <= k / 32 < 64 && 0 <= k % 32 < 32);
    }
    assert(screen_after_draw_upto(screen, mem, i, xs, ys, 0, 0) =~= screen);
    if draw_collision_upto(screen, mem, i, xs, ys, 0, 0) {
        let (a, b) = choose|a: int, b: int|
            0 <= a < 64 && 0 <= b < 32 && screen[pixel_index(a, b)] && #[trigger] draw_contrib(
                mem,
                i,
                xs,
                ys,
                0,
                0,
                a,
                b,
            );
        assert(false);
    }
}

/// Applying one more sprite bit: stepping the column bound from `col` to
/// `col + 1` XORs exactly the pixel that bit lands on — every other pixel
/// keeps its value — and extends the collision condition by exactly that
/// pixel. This is the inner-loop step of the draw instruction.
pub proof fn lemma_draw_advance_col(
    screen: Seq<bool>,
    mem: Seq<u8>,
    i: int,
    xs: int,
    ys: int,
    row: int,
    col: int,
)
    requires
        screen.len() == NUM_PIXELS,
        0 <= xs < 64,
        0 <= ys < 32,
        0 <= row < 16,
        0 <= col < 8,
        0 <= i,
    ensures
        ({
            let px = wrap_x(xs, col);
            let py = wrap_y(ys, row);
            let idx = pixel_index(px, py);
            let bit = sprite_bit(mem[i + row], col);
            &&& screen_after_draw_upto(screen, mem, i, xs, ys, row, col)[idx] == screen[idx]
            &&& !bit ==> screen_after_draw_upto(screen, mem, i, xs, ys, row, col + 1)
                == screen_after_draw_upto(screen, mem, i, xs, ys, row, col)
            &&& bit ==> screen_after_draw_upto(screen, mem, i, xs, ys, row, col + 1)
                == screen_after_draw_upto(screen, mem, i, xs, ys, row, col).update(
                idx,
                !screen[idx],
            )
            &&& draw_collision_upto(screen, mem, i, xs, ys, row, col + 1) == (draw_collision_upto(
                screen,
                mem,
                i,
                xs,
                ys,
                row,
                col,
            ) || (screen[idx] && bit))
        }),
{
    let px = wrap_x(xs, col);
    let py = wrap_y(ys, row);
    let idx = pixel_index(px, py);
    let bit = sprite_bit(mem[i + row], col);
    assert(0 <= px < 64 && 0 <= py < 32);
    lemma_fundamental_div_mod_converse(idx, 32, px, py);
    assert forall|a: int, b: int|
        0 <= a < 64 && 0 <= b < 32 implies #[trigger] draw_contrib(
        mem,
        i,
        xs,
        ys,
        row,
        col + 1,
        a,
        b,
    ) == (draw_contrib(mem, i, xs, ys, row, col, a, b) || (a == px && b == py && bit)) by {}
    assert(!draw_contrib(mem, i, xs, ys, row, col, px, py));
    assert(screen_after_draw_upto(screen, mem, i, xs, ys, row, col)[idx] == screen[idx]);
    assert forall|k: int| 0 <= k < NUM_PIXELS implies screen_after_draw_upto(
        screen,
        mem,
        i,
        xs,
        ys,
        row,
        col + 1,
    )[k] == (if k == idx && bit {
        !screen[idx]
    } else {
        screen_after_draw_upto(screen, mem, i, xs, ys, row, col)[k]
    }) by {
        lemma_fundamental_div_mod(k, 32);
        lemma_mod_bound(k, 32);
        assert(0 <= k / 32 < 64 && 0 <= k % 32 < 32);
        assert(draw_contrib(mem, i, xs, ys, row, col + 1, k / 32, k % 32) == (draw_contrib(
            mem,
            i,
            xs,
            ys,
            row,
            col,
            k / 32,
            k % 32,
        ) || (k / 32 == px && k % 32 == py && bit)));
        assert((k / 32 == px && k % 32 == py) <==> k == idx);
    }
    if !bit {
        assert(screen_after_draw_upto(screen, mem, i, xs, ys, row, col + 1)
            =~= screen_after_draw_upto(screen, mem, i, xs, ys, row, col));
    } else {
        assert(screen_after_draw_upto(screen, mem, i, xs, ys, row, col + 1)
            =~= screen_after_draw_upto(screen, mem, i, xs, ys, row, col).update(idx, !screen[idx]));
    }
    if draw_collision_upto(screen, mem, i, xs, ys, row, col + 1) {
        let (a, b) = choose|a: int, b: int|
            0 <= a < 64 && 0 <= b < 32 && screen[pixel_index(a, b)] && #[trigger] draw_contrib(
                mem,
                i,
                xs,
                ys,
                row,
                col + 1,
                a,
                b,
            );
        assert(draw_collision_upto(screen, mem, i, xs, ys, row, col) || (screen[idx] && bit));
    }
    if draw_collision_upto(screen, mem, i, xs, ys, row, col) {
        let (a, b) = choose|a: int, b: int|
            0 <= a < 64 && 0 <= b < 32 && screen[pixel_index(a, b)] && #[trigger] draw_contrib(
                mem,
                i,
                xs,
                ys,
                row,
                col,
                a,
                b,
            );
        assert(draw_contrib(mem, i, xs, ys, row, col + 1, a, b));
        assert(draw_collision_upto(screen, mem, i, xs, ys, row, col + 1));
    }
    if screen[idx] && bit {
        assert(draw_contrib(mem, i, xs, ys, row, col + 1, px, py));
        assert(draw_collision_upto(screen, mem, i, xs, ys, row, col + 1));
    }
}

/// Rolling over to the next sprite row: a row fully applied (all eight
/// columns) is the same partial draw as the next row with no column yet
/// applied.
pub proof fn lemma_draw_row_roll(
    screen: Seq<bool>,
    mem: Seq<u8>,
    i: int,
    xs: int,
    ys: int,
    row: int,
    rownext: int,
)
    requires
        screen.len() == NUM_PIXELS,
        0 <= xs < 64,
        0 <= ys < 32,
        rownext == row + 1,
    ensures
        screen_after_draw_upto(screen, mem, i, xs, ys, row, 8) == screen_after_draw_upto(
            screen,
            mem,
            i,
            xs,
            ys,
            rownext,
            0,
        ),
        draw_collision_upto(screen, mem, i, xs, ys, row, 8) == draw_collision_upto(
            screen,
            mem,
            i,
            xs,
            ys,
            rownext,
            0,
        ),
{
    assert forall|a: int, b: int|
        0 <= a < 64 && 0 <= b < 32 implies #[trigger] draw_contrib(mem, i, xs, ys, row, 8, a, b)
        == draw_contrib(mem, i, xs, ys, rownext, 0, a, b) by {}
    assert forall|k: int| 0 <= k < NUM_PIXELS implies screen_after_draw_upto(
        screen,
        mem,
        i,
        xs,
        ys,
        row,
        8,
    )[k] == screen_after_draw_upto(screen, mem, i, xs, ys, rownext, 0)[k] by {
        lemma_fundamental_div_mod(k, 32);
        lemma_mod_bound(k, 32);
        assert(0 <= k / 32 < 64 && 0 <= k % 32 < 32);
    }
    assert(screen_after_draw_upto(screen, mem, i, xs, ys, row, 8) =~= screen_after_draw_upto(
        screen,
        mem,
        i,
        xs,
        ys,
        rownext,
        0,
    ));
    if draw_collision_upto(screen, mem, i, xs, ys, row, 8) {
        let (a, b) = choose|a: int, b: int|
            0 <= a < 64 && 0 <= b < 32 && screen[pixel_index(a, b)] && #[trigger] draw_contrib(
                mem,
                i,
                xs,
                ys,
                row,
                8,
                a,
                b,
            );
        assert(draw_contrib(mem, i, xs, ys, rownext, 0, a, b));
        assert(draw_collision_upto(screen, mem, i, xs, ys, rownext, 0));
    }
    if draw_collision_upto(screen, mem, i, xs, ys, rownext, 0) {
        let (a, b) = choose|a: int, b: int|
            0 <= a < 64 && 0 <= b < 32 && screen[pixel_index(a, b)] && #[trigger] draw_contrib(
                mem,
                i,
                xs,
                ys,
                rownext,
                0,
                a,
                b,
            );
        assert(draw_contrib(mem, i, xs, ys, row, 8, a, b));
        assert(draw_collision_upto(screen, mem, i, xs, ys, row, 8));
    }
}

/// One whole engine step at state `s`: fetch the two bytes at the program
/// counter (failing when the fetch would read past the end of memory),
/// decode them, and execute the instruction.
pub open spec fn spec_step(s: CoreView) -> Result<CoreView, Chip8Error> {
    if s.pc + 1 >= MEM_SIZE {
        Err(Chip8Error::AddressOutOfRange)
    } else {
        spec_exec_instr(s, spec_decode(s.mem[s.pc as int], s.mem[s.pc as int + 1]))
    }
}

} // verus!
