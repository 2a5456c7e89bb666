//! General laws of the machine, stated once and proved from the model.
//!
//! Each proof function here is a statement about every state the machine
//! can be in, not about one chosen input: the XOR draw discipline, the
//! call-stack discipline, and the timer clamp.

use crate::decode::Instruction;
use crate::model::{
    adv, draw_collision, draw_contrib, pixel_index, screen_after_draw, spec_exec_instr,
    sprite_bit, tick_spec, Chip8Error, CoreView, NUM_PIXELS, STACK_DEPTH,
};
use vstd::arithmetic::div_mod::lemma_fundamental_div_mod_converse;
use vstd::prelude::*;

verus! {

/// The display after `n` timer ticks from value `t`: `tick_spec` iterated.
pub open spec fn ticks(t: u8, n: nat) -> u8
    decreases n,
{
    if n == 0 {
        t
    } else {
        tick_spec(ticks(t, (n - 1) as nat))
    }
}

/// A timer started at `m` and ticked `n` times reads `max(m - n, 0)`: it
/// decrements once per tick while positive and is clamped at zero — it is
/// never negative, and after at least `m` ticks it reads exactly zero.
pub proof fn lemma_ticks_value(m: u8, n: nat)
    ensures
        ticks(m, n) == if n >= m {
            0u8
        } else {
            (m - n) as u8
        },
    decreases n,
{
    if n > 0 {
        lemma_ticks_value(m, (n - 1) as nat);
    }
}

/// A timer started at `m` reads zero after any `n >= m` ticks.
pub proof fn lemma_timer_reaches_zero(m: u8, n: nat)
    requires
        n >= m,
    ensures
        ticks(m, n) == 0,
{
    lemma_ticks_value(m, n);
}

/// Drawing the same sprite twice at the same position restores every
/// pixel: the XOR blit is its own inverse.
pub proof fn lemma_draw_twice_restores(
    screen: Seq<bool>,
    mem: Seq<u8>,
    i: int,
    xs: int,
    ys: int,
    n: int,
)
    requires
        screen.len() == NUM_PIXELS,
    ensures
        screen_after_draw(screen_after_draw(screen, mem, i, xs, ys, n), mem, i, xs, ys, n)
            == screen,
{
    let once = screen_after_draw(screen, mem, i, xs, ys, n);
    assert(screen_after_draw(once, mem, i, xs, ys, n) =~= screen);
}

/// The draw scenario of an all-set one-row sprite: the first draw on an
/// unset display collides with nothing, the second draw collides — some
/// set pixel is turned unset — and the display is back to all-unset.
pub proof fn lemma_draw_full_row_twice_collides(
    screen: Seq<bool>,
    mem: Seq<u8>,
    i: int,
    xs: int,
    ys: int,
)
    requires
        screen.len() == NUM_PIXELS,
        forall|k: int| 0 <= k < NUM_PIXELS ==> !screen[k],
        0 <= xs < 64,
        0 <= ys < 32,
        0 <= i,
        mem[i] == 0xFF,
    ensures
        !draw_collision(screen, mem, i, xs, ys, 1),
        draw_collision(screen_after_draw(screen, mem, i, xs, ys, 1), mem, i, xs, ys, 1),
        screen_after_draw(screen_after_draw(screen, mem, i, xs, ys, 1), mem, i, xs, ys, 1)
            == screen,
{
    lemma_draw_twice_restores(screen, mem, i, xs, ys, 1);
    let once = screen_after_draw(screen, mem, i, xs, ys, 1);
    let idx = pixel_index(xs, ys);
    lemma_fundamental_div_mod_converse(idx, 32, xs, ys);
    assert(0xFFu8 & (0x80u8 >> 0u8) != 0) by (bit_vector);
    assert(sprite_bit(mem[i], 0));
    assert(draw_contrib(mem, i, xs, ys, 1, 0, xs, ys));
    assert(once[idx]);
    assert(draw_collision(once, mem, i, xs, ys, 1));
    if draw_collision(screen, mem, i, xs, ys, 1) {
        let (a, b) = choose|a: int, b: int|
            0 <= a < 64 && 0 <= b < 32 && screen[pixel_index(a, b)] && #[trigger] draw_contrib(
                mem,
                i,
                xs,
                ys,
                1,
                0,
                a,
                b,
            );
        assert(0 <= pixel_index(a, b) < NUM_PIXELS);
        assert(false);
    }
}

/// The call half of the stack discipline: a call instruction succeeds
/// exactly when the stack holds fewer than 16 return addresses — so 16
/// nested calls from an empty stack all succeed — and a 17th, on a full
/// stack, fails with `StackOverflow` and changes nothing. A successful
/// call pushes the return address, deepens the stack by one and jumps.
pub proof fn lemma_call_stack_discipline(s: CoreView, nnn: u16)
    requires
        s.wf(),
    ensures
        s.sp < STACK_DEPTH ==> (spec_exec_instr(s, (Instruction::Call { nnn })) matches Ok(post)
            && post.sp == s.sp + 1 && post.stack == s.stack.update(s.sp as int, adv(s.pc))
            && post.pc == nnn && post.regs == s.regs && post.mem == s.mem && post.screen
            == s.screen),
        s.sp >= STACK_DEPTH ==> spec_exec_instr(s, (Instruction::Call { nnn })) == Err::<
            CoreView,
            Chip8Error,
        >(Chip8Error::StackOverflow),
{
}

/// The return half of the stack discipline: a return succeeds exactly
/// when the stack is not empty — so the 16 returns matching 16 calls all
/// succeed — and one more, on an empty stack, fails with `StackUnderflow`
/// and changes nothing. A successful return pops the youngest return
/// address into the program counter.
pub proof fn lemma_return_stack_discipline(s: CoreView)
    requires
        s.wf(),
    ensures
        s.sp > 0 ==> (spec_exec_instr(s, Instruction::Return) matches Ok(post) && post.sp == s.sp
            - 1 && post.pc == s.stack[s.sp - 1] && post.stack == s.stack && post.regs == s.regs
            && post.mem == s.mem && post.screen == s.screen),
        s.sp == 0 ==> spec_exec_instr(s, Instruction::Return) == Err::<CoreView, Chip8Error>(
            Chip8Error::StackUnderflow,
        ),
{
}

/// A call followed by its return lands two bytes past the call site with
/// the stack depth restored: the round trip of the calling convention.
pub proof fn lemma_call_return_round_trip(s: CoreView, nnn: u16)
    requires
        s.wf(),
        s.sp < STACK_DEPTH,
    ensures
        spec_exec_instr(s, (Instruction::Call { nnn })) is Ok,
        (spec_exec_instr(
            spec_exec_instr(s, (Instruction::Call { nnn }))->Ok_0,
            Instruction::Return,
        ) matches Ok(back) && back.pc == adv(s.pc) && back.sp == s.sp && back.regs == s.regs
            && back.mem == s.mem && back.screen == s.screen),
{
    let called = spec_exec_instr(s, (Instruction::Call { nnn }))->Ok_0;
    assert(called.sp == s.sp + 1);
    assert(called.stack[s.sp as int] == adv(s.pc));
}

} // verus!
