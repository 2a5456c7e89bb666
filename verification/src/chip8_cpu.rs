//! The executable machine.
//!
//! `System` owns the whole machine state. Its view (`System@`) is the
//! `CoreView` of the model module, and every operation is specified against
//! that view: `run_op_at` and `step` against `spec_step`, the host-facing
//! operations (`load_program`, `tick`, `set_key`, the memory and register
//! accessors) against their own exact contracts.

use crate::decode::{decode, lemma_low_nibble_bound, Instruction};
use crate::model::{
    adv, adv_skip, bcd_hundreds, bcd_ones, bcd_tens, draw_collision, draw_collision_upto,
    first_pressed, font_seq, initial_view, lemma_draw_advance_col, lemma_draw_init,
    lemma_draw_row_roll, lemma_first_pressed_from_skip, next_rng, pixel_index,
    screen_after_draw, screen_after_draw_upto, spec_exec_instr, spec_step, sprite_bit,
    tick_spec, wrap_x, wrap_y, Chip8Error, CoreView, FONT_LEN, MAX_PROGRAM_LEN, MEM_SIZE,
    NUM_KEYS, NUM_PIXELS, NUM_REGS, PROGRAM_START, RNG_SEED, SCREEN_HEIGHT, SCREEN_WIDTH,
    STACK_DEPTH,
};
use vstd::prelude::*;

verus! {

/// The machine: memory, registers, display, call stack, timers, keypad and
/// the pseudo-random source. The fields that the host may inspect are
/// public; the keypad is written through `set_key` and the random source is
/// internal.
pub struct System {
    /// 4096 bytes of memory; glyph sprites live below `FONT_LEN`, programs
    /// from `PROGRAM_START` upward.
    pub memory: Vec<u8>,
    /// The 16 general-purpose registers.
    pub registers: Vec<u8>,
    /// The 16-bit index register.
    pub index_register: u16,
    /// The program counter.
    pub program_counter: u16,
    /// The display, one flag per pixel; pixel `(x, y)` is at `x * 32 + y`.
    pub screen: Vec<bool>,
    /// The delay timer.
    pub delay_timer: u8,
    /// The sound timer.
    pub sound_timer: u8,
    key: Vec<bool>,
    /// The call stack of return addresses.
    pub stack: Vec<u16>,
    /// The stack pointer: the number of live stack slots.
    pub stack_pointer: u8,
    rng_state: u16,
}

impl View for System {
    type V = CoreView;

    closed spec fn view(&self) -> CoreView {
        CoreView {
            mem: self.memory@,
            regs: self.registers@,
            index: self.index_register,
            pc: self.program_counter,
            screen: self.screen@,
            delay: self.delay_timer,
            sound: self.sound_timer,
            keys: self.key@,
            stack: self.stack@,
            sp: self.stack_pointer,
            rng: self.rng_state,
        }
    }
}

impl System {
    /// Well-formedness of the machine: fixed component sizes and a stack
    /// pointer within the stack.
    pub open spec fn wf(&self) -> bool {
        self@.wf()
    }
}

/// A vector of `n` copies of `val`.
fn filled_vec<T: Copy>(n: usize, val: T) -> (v: Vec<T>)
    ensures
        v@ == Seq::new(n as nat, |i: int| val),
{
    let mut v: Vec<T> = Vec::new();
    while v.len() < n
        invariant
            v@.len() <= n,
            forall|i: int| 0 <= i < v@.len() ==> v@[i] == val,
        decreases n - v@.len(),
    {
        v.push(val);
    }
    proof {
        assert(v@ =~= Seq::new(n as nat, |i: int| val));
    }
    v
}

impl Default for System {
    /// The machine at power-on: everything zeroed, the program counter at
    /// `PROGRAM_START`.
    fn default() -> (s: System)
        ensures
            s@ == initial_view(),
            s.wf(),
    {
        let s = System {
            memory: filled_vec(MEM_SIZE, 0u8),
            registers: filled_vec(NUM_REGS, 0u8),
            index_register: 0,
            program_counter: PROGRAM_START as u16,
            screen: filled_vec(NUM_PIXELS, false),
            delay_timer: 0,
            sound_timer: 0,
            key: filled_vec(NUM_KEYS, false),
            stack: filled_vec(STACK_DEPTH, 0u16),
            stack_pointer: 0,
            rng_state: RNG_SEED,
        };
        proof {
            assert(s@ =~= initial_view());
        }
        s
    }
}

/// The glyph byte at offset `i` of the built-in fontset.
fn font_byte(i: usize) -> (r: u8)
    requires
        i < FONT_LEN,
    ensures
        r == font_seq()[i as int],
{
    let font: [u8; 80] = [
        0xF0, 0x90, 0x90, 0x90, 0xF0, // 0
        0x20, 0x60, 0x20, 0x20, 0x70, // 1
        0xF0, 0x10, 0xF0, 0x80, 0xF0, // 2
        0xF0, 0x10, 0xF0, 0x10, 0xF0, // 3
        0x90, 0x90, 0xF0, 0x10, 0x10, // 4
        0xF0, 0x80, 0xF0, 0x10, 0xF0, // 5
        0xF0, 0x80, 0xF0, 0x90, 0xF0, // 6
        0xF0, 0x10, 0x20, 0x40, 0x40, // 7
        0xF0, 0x90, 0xF0, 0x90, 0xF0, // 8
        0xF0, 0x90, 0xF0, 0x10, 0xF0, // 9
        0xF0, 0x90, 0xF0, 0x90, 0x90, // A
        0xE0, 0x90, 0xE0, 0x90, 0xE0, // B
        0xF0, 0x80, 0x80, 0x80, 0xF0, // C
        0xE0, 0x90, 0x90, 0x90, 0xE0, // D
        0xF0, 0x80, 0xF0, 0x80, 0xF0, // E
        0xF0, 0x80, 0xF0, 0x80, 0x80, // F
    ];
    font[i]
}

/// The decimal digits of a byte: hundreds, tens, ones.
pub fn encode_to_bcd(value: u8) -> (r: (u8, u8, u8))
    ensures
        r.0 == bcd_hundreds(value),
        r.1 == bcd_tens(value),
        r.2 == bcd_ones(value),
{
    let hundreds = value / 100;
    let rest = value % 100;
    let tens = rest / 10;
    let ones = rest % 10;
    proof {
        assert(value % 100 % 10 == value % 10) by (bit_vector);
    }
    (hundreds, tens, ones)
}

impl System {
    /// Write the 16 built-in glyph sprites into the first `FONT_LEN` bytes
    /// of memory; nothing else changes.
    pub fn setup_fontset(&mut self)
        requires
            old(self).wf(),
        ensures
            final(self).wf(),
            final(self)@ == (CoreView {
                mem: Seq::new(
                    MEM_SIZE as nat,
                    |j: int| if j < FONT_LEN { font_seq()[j] } else { old(self)@.mem[j] },
                ),
                ..old(self)@
            }),
    {
        let mut i: usize = 0;
        while i < FONT_LEN
            invariant
                self.wf(),
                i <= FONT_LEN,
                forall|j: int| 0 <= j < i ==> self@.mem[j] == font_seq()[j],
                forall|j: int| i <= j < MEM_SIZE ==> self@.mem[j] == old(self)@.mem[j],
                self@ == (CoreView { mem: self@.mem, ..old(self)@ }),
            decreases FONT_LEN - i,
        {
            let b = font_byte(i);
            self.memory[i] = b;
            i += 1;
        }
        proof {
            assert(self@.mem =~= Seq::new(
                MEM_SIZE as nat,
                |j: int| if j < FONT_LEN { font_seq()[j] } else { old(self)@.mem[j] },
            ));
            assert(self@ =~= CoreView {
                mem: Seq::new(
                    MEM_SIZE as nat,
                    |j: int| if j < FONT_LEN { font_seq()[j] } else { old(self)@.mem[j] },
                ),
                ..old(self)@
            });
        }
    }

    /// Copy a program into memory starting at `PROGRAM_START`, byte for
    /// byte and unchanged. A program longer than the space above
    /// `PROGRAM_START` is rejected whole and nothing changes.
    pub fn load_program(&mut self, program: &Vec<u8>) -> (r: Result<(), Chip8Error>)
        requires
            old(self).wf(),
        ensures
            final(self).wf(),
            program@.len() <= MAX_PROGRAM_LEN ==> r == Ok::<(), Chip8Error>(()) && final(self)@
                == (CoreView {
                mem: Seq::new(
                    MEM_SIZE as nat,
                    |j: int|
                        if PROGRAM_START <= j < PROGRAM_START + program@.len() {
                            program@[j - PROGRAM_START]
                        } else {
                            old(self)@.mem[j]
                        },
                ),
                ..old(self)@
            }),
            program@.len() > MAX_PROGRAM_LEN ==> r == Err::<(), Chip8Error>(
                Chip8Error::AddressOutOfRange,
            ) && final(self)@ == old(self)@,
    {
        if program.len() > MAX_PROGRAM_LEN {
            return Err(Chip8Error::AddressOutOfRange);
        }
        let mut i: usize = 0;
        while i < program.len()
            invariant
                self.wf(),
                i <= program@.len(),
                program@.len() <= MAX_PROGRAM_LEN,
                forall|j: int|
                    PROGRAM_START <= j < PROGRAM_START + i ==> self@.mem[j] == program@[j
                        - PROGRAM_START],
                forall|j: int|
                    0 <= j < MEM_SIZE && !(PROGRAM_START <= j < PROGRAM_START + i)
                        ==> self@.mem[j] == old(self)@.mem[j],
                self@ == (CoreView { mem: self@.mem, ..old(self)@ }),
            decreases program@.len() - i,
        {
            let b = program[i];
            self.memory[PROGRAM_START + i] = b;
            i += 1;
        }
        proof {
            assert(self@.mem =~= Seq::new(
                MEM_SIZE as nat,
                |j: int|
                    if PROGRAM_START <= j < PROGRAM_START + program@.len() {
                        program@[j - PROGRAM_START]
                    } else {
                        old(self)@.mem[j]
                    },
            ));
            assert(self@ =~= CoreView {
                mem: Seq::new(
                    MEM_SIZE as nat,
                    |j: int|
                        if PROGRAM_START <= j < PROGRAM_START + program@.len() {
                            program@[j - PROGRAM_START]
                        } else {
                            old(self)@.mem[j]
                        },
                ),
                ..old(self)@
            });
        }
        Ok(())
    }

    /// One timer tick: each timer decrements when positive and holds at
    /// zero otherwise; nothing else changes.
    pub fn tick(&mut self)
        requires
            old(self).wf(),
        ensures
            final(self).wf(),
            final(self)@ == (CoreView {
                delay: tick_spec(old(self)@.delay),
                sound: tick_spec(old(self)@.sound),
                ..old(self)@
            }),
    {
        if self.delay_timer > 0 {
            self.delay_timer = self.delay_timer - 1;
        }
        if self.sound_timer > 0 {
            self.sound_timer = self.sound_timer - 1;
        }
        proof {
            assert(self@ =~= CoreView {
                delay: tick_spec(old(self)@.delay),
                sound: tick_spec(old(self)@.sound),
                ..old(self)@
            });
        }
    }

    /// Whether the sound timer is running: the host sounds a tone while
    /// this is true.
    pub fn sound_active(&self) -> (r: bool)
        ensures
            r == (self@.sound > 0),
    {
        self.sound_timer > 0
    }

    /// Press or release one keypad key. A key index of 16 or more is
    /// rejected and nothing changes.
    pub fn set_key(&mut self, key: u8, pressed: bool) -> (r: Result<(), Chip8Error>)
        requires
            old(self).wf(),
        ensures
            final(self).wf(),
            key < NUM_KEYS ==> r == Ok::<(), Chip8Error>(()) && final(self)@ == (CoreView {
                keys: old(self)@.keys.update(key as int, pressed),
                ..old(self)@
            }),
            key >= NUM_KEYS ==> r == Err::<(), Chip8Error>(Chip8Error::IndexOutOfRange) && final(self)@
                == old(self)@,
    {
        if key as usize >= NUM_KEYS {
            return Err(Chip8Error::IndexOutOfRange);
        }
        self.key[key as usize] = pressed;
        proof {
            assert(self@ =~= CoreView {
                keys: old(self)@.keys.update(key as int, pressed),
                ..old(self)@
            });
        }
        Ok(())
    }

    /// Whether one keypad key is currently pressed. A key index of 16 or
    /// more is rejected.
    pub fn key_pressed(&self, key: u8) -> (r: Result<bool, Chip8Error>)
        requires
            self.wf(),
        ensures
            key < NUM_KEYS ==> r == Ok::<bool, Chip8Error>(self@.keys[key as int]),
            key >= NUM_KEYS ==> r == Err::<bool, Chip8Error>(Chip8Error::IndexOutOfRange),
    {
        if key as usize >= NUM_KEYS {
            return Err(Chip8Error::IndexOutOfRange);
        }
        Ok(self.key[key as usize])
    }

    /// Read one byte of memory. An address past 4095 is rejected.
    pub fn read_byte(&self, address: u16) -> (r: Result<u8, Chip8Error>)
        requires
            self.wf(),
        ensures
            address < MEM_SIZE ==> r == Ok::<u8, Chip8Error>(self@.mem[address as int]),
            address >= MEM_SIZE ==> r == Err::<u8, Chip8Error>(Chip8Error::AddressOutOfRange),
    {
        if address as usize >= MEM_SIZE {
            return Err(Chip8Error::AddressOutOfRange);
        }
        Ok(self.memory[address as usize])
    }

    /// Write one byte of memory. An address past 4095 is rejected and
    /// nothing changes.
    pub fn write_byte(&mut self, address: u16, value: u8) -> (r: Result<(), Chip8Error>)
        requires
            old(self).wf(),
        ensures
            final(self).wf(),
            address < MEM_SIZE ==> r == Ok::<(), Chip8Error>(()) && final(self)@ == (CoreView {
                mem: old(self)@.mem.update(address as int, value),
                ..old(self)@
            }),
            address >= MEM_SIZE ==> r == Err::<(), Chip8Error>(Chip8Error::AddressOutOfRange)
                && final(self)@ == old(self)@,
    {
        if address as usize >= MEM_SIZE {
            return Err(Chip8Error::AddressOutOfRange);
        }
        self.memory[address as usize] = value;
        proof {
            assert(self@ =~= CoreView {
                mem: old(self)@.mem.update(address as int, value),
                ..old(self)@
            });
        }
        Ok(())
    }

    /// Read `length` consecutive bytes of memory starting at `address`. A
    /// range that reaches past 4095 is rejected.
    pub fn read_slice(&self, address: u16, length: u16) -> (r: Result<Vec<u8>, Chip8Error>)
        requires
            self.wf(),
        ensures
            address + length <= MEM_SIZE ==> (r matches Ok(v) && v@ == self@.mem.subrange(
                address as int,
                address + length,
            )),
            address + length > MEM_SIZE ==> r == Err::<Vec<u8>, Chip8Error>(
                Chip8Error::AddressOutOfRange,
            ),
    {
        if address as usize + length as usize > MEM_SIZE {
            return Err(Chip8Error::AddressOutOfRange);
        }
        let mut v: Vec<u8> = Vec::new();
        let mut i: usize = 0;
        while i < length as usize
            invariant
                self.wf(),
                i <= length,
                address + length <= MEM_SIZE,
                v@.len() == i,
                forall|j: int| 0 <= j < i ==> v@[j] == self@.mem[address + j],
            decreases length - i,
        {
            let b = self.memory[address as usize + i];
            v.push(b);
            i += 1;
        }
        proof {
            assert(v@ =~= self@.mem.subrange(address as int, address + length));
        }
        Ok(v)
    }

    /// Read one general-purpose register. A register index of 16 or more
    /// is rejected.
    pub fn get_register(&self, index: u8) -> (r: Result<u8, Chip8Error>)
        requires
            self.wf(),
        ensures
            index < NUM_REGS ==> r == Ok::<u8, Chip8Error>(self@.regs[index as int]),
            index >= NUM_REGS ==> r == Err::<u8, Chip8Error>(Chip8Error::IndexOutOfRange),
    {
        if index as usize >= NUM_REGS {
            return Err(Chip8Error::IndexOutOfRange);
        }
        Ok(self.registers[index as usize])
    }

    /// Write one general-purpose register. A register index of 16 or more
    /// is rejected and nothing changes. Register 15 has no special
    /// protection here: it is a data register; only instruction execution
    /// treats it as the flag.
    pub fn set_register(&mut self, index: u8, value: u8) -> (r: Result<(), Chip8Error>)
        requires
            old(self).wf(),
        ensures
            final(self).wf(),
            index < NUM_REGS ==> r == Ok::<(), Chip8Error>(()) && final(self)@ == (CoreView {
                regs: old(self)@.regs.update(index as int, value),
                ..old(self)@
            }),
            index >= NUM_REGS ==> r == Err::<(), Chip8Error>(Chip8Error::IndexOutOfRange) && final(self)@
                == old(self)@,
    {
        if index as usize >= NUM_REGS {
            return Err(Chip8Error::IndexOutOfRange);
        }
        self.registers[index as usize] = value;
        proof {
            assert(self@ =~= CoreView {
                regs: old(self)@.regs.update(index as int, value),
                ..old(self)@
            });
        }
        Ok(())
    }

    /// Read one pixel of the display.
    pub fn get_pixel(&self, x: usize, y: usize) -> (r: bool)
        requires
            self.wf(),
            x < SCREEN_WIDTH,
            y < SCREEN_HEIGHT,
        ensures
            r == self@.screen[pixel_index(x as int, y as int)],
    {
        self.screen[x * 32 + y]
    }
}

// The instruction handlers. Each one performs the whole effect of its
// instruction — including the program-counter move — on a machine whose
// program counter stands at `address`, and is specified by the matching
// arm of `spec_exec_instr`.
impl System {
    /// `00E0`: clear the display.
    fn clear_screen(&mut self, address: u16)
        requires
            old(self).wf(),
            address <= 4094,
        ensures
            final(self).wf(),
            spec_exec_instr(old(self)@.with_pc(address), Instruction::ClearScreen)
                == Ok::<CoreView, Chip8Error>(final(self)@),
    {
        self.screen = filled_vec(NUM_PIXELS, false);
        self.program_counter = address + 2;
        proof {
            let s0 = old(self)@.with_pc(address);
            assert(self@ =~= (CoreView {
                screen: Seq::new(NUM_PIXELS as nat, |i: int| false),
                pc: adv(s0.pc),
                ..s0
            }));
        }
    }

    /// `00EE`: pop a return address, or report `StackUnderflow` on an
    /// empty stack.
    fn return_from_call(&mut self, address: u16) -> (r: Result<(), Chip8Error>)
        requires
            old(self).wf(),
            address <= 4094,
        ensures
            final(self).wf(),
            (match r {
                Ok(()) => spec_exec_instr(old(self)@.with_pc(address), Instruction::Return)
                    == Ok::<CoreView, Chip8Error>(final(self)@),
                Err(e) => spec_exec_instr(old(self)@.with_pc(address), Instruction::Return)
                    == Err::<CoreView, Chip8Error>(e) && final(self)@ == old(self)@,
            }),
    {
        if self.stack_pointer == 0 {
            return Err(Chip8Error::StackUnderflow);
        }
        let sp = self.stack_pointer - 1;
        let target = self.stack[sp as usize];
        self.stack_pointer = sp;
        self.program_counter = target;
        proof {
            let s0 = old(self)@.with_pc(address);
            assert(self@ =~= (CoreView {
                pc: s0.stack[s0.sp - 1],
                sp: (s0.sp - 1) as u8,
                ..s0
            }));
        }
        Ok(())
    }

    /// `1NNN`: set the program counter to `nnn`.
    fn jump(&mut self, nnn: u16, address: u16)
        requires
            old(self).wf(),
            address <= 4094,
        ensures
            final(self).wf(),
            spec_exec_instr(old(self)@.with_pc(address), (Instruction::Jump { nnn }))
                == Ok::<CoreView, Chip8Error>(final(self)@),
    {
        self.program_counter = nnn;
        proof {
            let s0 = old(self)@.with_pc(address);
            assert(self@ =~= (CoreView { pc: nnn, ..s0 }));
        }
    }

    /// `2NNN`: push the return address and jump to `nnn`, or report
    /// `StackOverflow` on a full stack.
    fn call(&mut self, nnn: u16, address: u16) -> (r: Result<(), Chip8Error>)
        requires
            old(self).wf(),
            address <= 4094,
        ensures
            final(self).wf(),
            (match r {
                Ok(()) => spec_exec_instr(old(self)@.with_pc(address), (Instruction::Call { nnn }))
                    == Ok::<CoreView, Chip8Error>(final(self)@),
                Err(e) => spec_exec_instr(old(self)@.with_pc(address), (Instruction::Call { nnn }))
                    == Err::<CoreView, Chip8Error>(e) && final(self)@ == old(self)@,
            }),
    {
        if self.stack_pointer as usize >= STACK_DEPTH {
            return Err(Chip8Error::StackOverflow);
        }
        self.stack[self.stack_pointer as usize] = address + 2;
        self.stack_pointer = self.stack_pointer + 1;
        self.program_counter = nnn;
        proof {
            let s0 = old(self)@.with_pc(address);
            assert(self@ =~= (CoreView {
                stack: s0.stack.update(s0.sp as int, adv(s0.pc)),
                sp: (s0.sp + 1) as u8,
                pc: nnn,
                ..s0
            }));
        }
        Ok(())
    }

    /// `3XNN`: skip the next instruction when `VX == nn`.
    fn skip_if_equal(&mut self, x: u8, nn: u8, address: u16)
        requires
            old(self).wf(),
            x < 16,
            address <= 4094,
        ensures
            final(self).wf(),
            spec_exec_instr(old(self)@.with_pc(address), (Instruction::SkipEqImm { x, nn }))
                == Ok::<CoreView, Chip8Error>(final(self)@),
    {
        if self.registers[x as usize] == nn {
            self.program_counter = address + 4;
        } else {
            self.program_counter = address + 2;
        }
        proof {
            let s0 = old(self)@.with_pc(address);
            assert(self@ =~= s0.with_pc(
                if s0.regs[x as int] == nn { adv_skip(s0.pc) } else { adv(s0.pc) },
            ));
        }
    }

    /// `4XNN`: skip the next instruction when `VX != nn`.
    fn skip_if_not_equal(&mut self, x: u8, nn: u8, address: u16)
        requires
            old(self).wf(),
            x < 16,
            address <= 4094,
        ensures
            final(self).wf(),
            spec_exec_instr(old(self)@.with_pc(address), (Instruction::SkipNeImm { x, nn }))
                == Ok::<CoreView, Chip8Error>(final(self)@),
    {
        if self.registers[x as usize] != nn {
            self.program_counter = address + 4;
        } else {
            self.program_counter = address + 2;
        }
        proof {
            let s0 = old(self)@.with_pc(address);
            assert(self@ =~= s0.with_pc(
                if s0.regs[x as int] != nn { adv_skip(s0.pc) } else { adv(s0.pc) },
            ));
        }
    }

    /// `5XY0`: skip the next instruction when `VX == VY`.
    fn skip_if_registers_equal(&mut self, x: u8, y: u8, address: u16)
        requires
            old(self).wf(),
            x < 16,
            y < 16,
            address <= 4094,
        ensures
            final(self).wf(),
            spec_exec_instr(old(self)@.with_pc(address), (Instruction::SkipEqReg { x, y }))
                == Ok::<CoreView, Chip8Error>(final(self)@),
    {
        if self.registers[x as usize] == self.registers[y as usize] {
            self.program_counter = address + 4;
        } else {
            self.program_counter = address + 2;
        }
        proof {
            let s0 = old(self)@.with_pc(address);
            assert(self@ =~= s0.with_pc(
                if s0.regs[x as int] == s0.regs[y as int] { adv_skip(s0.pc) } else { adv(s0.pc) },
            ));
        }
    }

    /// `9XY0`: skip the next instruction when `VX != VY`.
    fn skip_if_registers_not_equal(&mut self, x: u8, y: u8, address: u16)
        requires
            old(self).wf(),
            x < 16,
            y < 16,
            address <= 4094,
        ensures
            final(self).wf(),
            spec_exec_instr(old(self)@.with_pc(address), (Instruction::SkipNeReg { x, y }))
                == Ok::<CoreView, Chip8Error>(final(self)@),
    {
        if self.registers[x as usize] != self.registers[y as usize] {
            self.program_counter = address + 4;
        } else {
            self.program_counter = address + 2;
        }
        proof {
            let s0 = old(self)@.with_pc(address);
            assert(self@ =~= s0.with_pc(
                if s0.regs[x as int] != s0.regs[y as int] { adv_skip(s0.pc) } else { adv(s0.pc) },
            ));
        }
    }

    /// `6XNN`: load the immediate into register `x`.
    fn set_register_to(&mut self, x: u8, nn: u8, address: u16)
        requires
            old(self).wf(),
            x < 16,
            address <= 4094,
        ensures
            final(self).wf(),
            spec_exec_instr(old(self)@.with_pc(address), (Instruction::LoadImm { x, nn }))
                == Ok::<CoreView, Chip8Error>(final(self)@),
    {
        self.registers[x as usize] = nn;
        self.program_counter = address + 2;
        proof {
            let s0 = old(self)@.with_pc(address);
            assert(self@ =~= (CoreView {
                regs: s0.regs.update(x as int, nn),
                pc: adv(s0.pc),
                ..s0
            }));
        }
    }

    /// `7XNN`: add the immediate to register `x`, wrapping; the flag
    /// register is untouched.
    fn add_value_to_register(&mut self, x: u8, nn: u8, address: u16)
        requires
            old(self).wf(),
            x < 16,
            address <= 4094,
        ensures
            final(self).wf(),
            spec_exec_instr(old(self)@.with_pc(address), (Instruction::AddImm { x, nn }))
                == Ok::<CoreView, Chip8Error>(final(self)@),
    {
        let vx = self.registers[x as usize];
        let sum = vx as u16 + nn as u16;
        self.registers[x as usize] = (sum % 256) as u8;
        self.program_counter = address + 2;
        proof {
            let s0 = old(self)@.with_pc(address);
            assert(self@ =~= (CoreView {
                regs: s0.regs.update(x as int, ((s0.regs[x as int] + nn) % 256) as u8),
                pc: adv(s0.pc),
                ..s0
            }));
        }
    }

    /// `8XY0`: copy register `y` into register `x`.
    fn alu_assign(&mut self, x: u8, y: u8, address: u16)
        requires
            old(self).wf(),
            x < 16,
            y < 16,
            address <= 4094,
        ensures
            final(self).wf(),
            spec_exec_instr(old(self)@.with_pc(address), (Instruction::Assign { x, y }))
                == Ok::<CoreView, Chip8Error>(final(self)@),
    {
        let vy = self.registers[y as usize];
        self.registers[x as usize] = vy;
        self.program_counter = address + 2;
        proof {
            let s0 = old(self)@.with_pc(address);
            assert(self@ =~= (CoreView {
                regs: s0.regs.update(x as int, s0.regs[y as int]),
                pc: adv(s0.pc),
                ..s0
            }));
        }
    }

    /// `8XY1`: bitwise OR of registers `x` and `y` into `x`.
    fn alu_or(&mut self, x: u8, y: u8, address: u16)
        requires
            old(self).wf(),
            x < 16,
            y < 16,
            address <= 4094,
        ensures
            final(self).wf(),
            spec_exec_instr(old(self)@.with_pc(address), (Instruction::Or { x, y }))
                == Ok::<CoreView, Chip8Error>(final(self)@),
    {
        let vx = self.registers[x as usize];
        let vy = self.registers[y as usize];
        self.registers[x as usize] = vx | vy;
        self.program_counter = address + 2;
        proof {
            let s0 = old(self)@.with_pc(address);
            assert(self@ =~= (CoreView {
                regs: s0.regs.update(x as int, s0.regs[x as int] | s0.regs[y as int]),
                pc: adv(s0.pc),
                ..s0
            }));
        }
    }

    /// `8XY2`: bitwise AND of registers `x` and `y` into `x`.
    fn alu_and(&mut self, x: u8, y: u8, address: u16)
        requires
            old(self).wf(),
            x < 16,
            y < 16,
            address <= 4094,
        ensures
            final(self).wf(),
            spec_exec_instr(old(self)@.with_pc(address), (Instruction::And { x, y }))
                == Ok::<CoreView, Chip8Error>(final(self)@),
    {
        let vx = self.registers[x as usize];
        let vy = self.registers[y as usize];
        self.registers[x as usize] = vx & vy;
        self.program_counter = address + 2;
        proof {
            let s0 = old(self)@.with_pc(address);
            assert(self@ =~= (CoreView {
                regs: s0.regs.update(x as int, s0.regs[x as int] & s0.regs[y as int]),
                pc: adv(s0.pc),
                ..s0
            }));
        }
    }

    /// `8XY3`: bitwise XOR of registers `x` and `y` into `x`.
    fn alu_xor(&mut self, x: u8, y: u8, address: u16)
        requires
            old(self).wf(),
            x < 16,
            y < 16,
            address <= 4094,
        ensures
            final(self).wf(),
            spec_exec_instr(old(self)@.with_pc(address), (Instruction::Xor { x, y }))
                == Ok::<CoreView, Chip8Error>(final(self)@),
    {
        let vx = self.registers[x as usize];
        let vy = self.registers[y as usize];
        self.registers[x as usize] = vx ^ vy;
        self.program_counter = address + 2;
        proof {
            let s0 = old(self)@.with_pc(address);
            assert(self@ =~= (CoreView {
                regs: s0.regs.update(x as int, s0.regs[x as int] ^ s0.regs[y as int]),
                pc: adv(s0.pc),
                ..s0
            }));
        }
    }

    /// `8XY4`: add register `y` to register `x`, wrapping; the flag
    /// register reports the carry.
    fn alu_add(&mut self, x: u8, y: u8, address: u16)
        requires
            old(self).wf(),
            x < 16,
            y < 16,
            address <= 4094,
        ensures
            final(self).wf(),
            spec_exec_instr(old(self)@.with_pc(address), (Instruction::AddReg { x, y }))
                == Ok::<CoreView, Chip8Error>(final(self)@),
    {
        let vx = self.registers[x as usize];
        let vy = self.registers[y as usize];
        let sum = vx as u16 + vy as u16;
        self.registers[x as usize] = (sum % 256) as u8;
        self.registers[15] = if sum > 255 {
            1
        } else {
            0
        };
        self.program_counter = address + 2;
        proof {
            let s0 = old(self)@.with_pc(address);
            assert(self@ =~= (CoreView {
                regs: s0.regs.update(
                    x as int,
                    ((s0.regs[x as int] + s0.regs[y as int]) % 256) as u8,
                ).update(15, if s0.regs[x as int] + s0.regs[y as int] > 255 { 1u8 } else { 0u8 }),
                pc: adv(s0.pc),
                ..s0
            }));
        }
    }

    /// `8XY5`: subtract register `y` from register `x`, wrapping; the
    /// flag register reports the absence of a borrow.
    fn alu_sub(&mut self, x: u8, y: u8, address: u16)
        requires
            old(self).wf(),
            x < 16,
            y < 16,
            address <= 4094,
        ensures
            final(self).wf(),
            spec_exec_instr(old(self)@.with_pc(address), (Instruction::SubReg { x, y }))
                == Ok::<CoreView, Chip8Error>(final(self)@),
    {
        let vx = self.registers[x as usize];
        let vy = self.registers[y as usize];
        let diff = (vx as u16 + 256 - vy as u16) % 256;
        self.registers[x as usize] = diff as u8;
        self.registers[15] = if vx >= vy {
            1
        } else {
            0
        };
        self.program_counter = address + 2;
        proof {
            let s0 = old(self)@.with_pc(address);
            assert(self@ =~= (CoreView {
                regs: s0.regs.update(
                    x as int,
                    ((s0.regs[x as int] - s0.regs[y as int] + 256) % 256) as u8,
                ).update(15, if s0.regs[x as int] >= s0.regs[y as int] { 1u8 } else { 0u8 }),
                pc: adv(s0.pc),
                ..s0
            }));
        }
    }

    /// `8XY6`: shift register `x` right by one; the flag register takes
    /// the bit shifted out.
    fn alu_shift_right(&mut self, x: u8, address: u16)
        requires
            old(self).wf(),
            x < 16,
            address <= 4094,
        ensures
            final(self).wf(),
            spec_exec_instr(old(self)@.with_pc(address), (Instruction::ShiftRight { x }))
                == Ok::<CoreView, Chip8Error>(final(self)@),
    {
        let vx = self.registers[x as usize];
        self.registers[x as usize] = vx >> 1;
        self.registers[15] = vx & 1;
        self.program_counter = address + 2;
        proof {
            let s0 = old(self)@.with_pc(address);
            assert(self@ =~= (CoreView {
                regs: s0.regs.update(x as int, s0.regs[x as int] >> 1).update(
                    15,
                    s0.regs[x as int] & 1,
                ),
                pc: adv(s0.pc),
                ..s0
            }));
        }
    }

    /// `8XY7`: set register `x` to `VY - VX`, wrapping; the flag register
    /// reports the absence of a borrow.
    fn alu_sub_from(&mut self, x: u8, y: u8, address: u16)
        requires
            old(self).wf(),
            x < 16,
            y < 16,
            address <= 4094,
        ensures
            final(self).wf(),
            spec_exec_instr(old(self)@.with_pc(address), (Instruction::SubFrom { x, y }))
                == Ok::<CoreView, Chip8Error>(final(self)@),
    {
        let vx = self.registers[x as usize];
        let vy = self.registers[y as usize];
        let diff = (vy as u16 + 256 - vx as u16) % 256;
        self.registers[x as usize] = diff as u8;
        self.registers[15] = if vy >= vx {
            1
        } else {
            0
        };
        self.program_counter = address + 2;
        proof {
            let s0 = old(self)@.with_pc(address);
            assert(self@ =~= (CoreView {
                regs: s0.regs.update(
                    x as int,
                    ((s0.regs[y as int] - s0.regs[x as int] + 256) % 256) as u8,
                ).update(15, if s0.regs[y as int] >= s0.regs[x as int] { 1u8 } else { 0u8 }),
                pc: adv(s0.pc),
                ..s0
            }));
        }
    }

    /// `8XYE`: shift register `x` left by one; the flag register takes
    /// the bit shifted out.
    fn alu_shift_left(&mut self, x: u8, address: u16)
        requires
            old(self).wf(),
            x < 16,
            address <= 4094,
        ensures
            final(self).wf(),
            spec_exec_instr(old(self)@.with_pc(address), (Instruction::ShiftLeft { x }))
                == Ok::<CoreView, Chip8Error>(final(self)@),
    {
        let vx = self.registers[x as usize];
        self.registers[x as usize] = vx << 1;
        self.registers[15] = vx >> 7;
        self.program_counter = address + 2;
        proof {
            let s0 = old(self)@.with_pc(address);
            assert(self@ =~= (CoreView {
                regs: s0.regs.update(x as int, s0.regs[x as int] << 1).update(
                    15,
                    s0.regs[x as int] >> 7,
                ),
                pc: adv(s0.pc),
                ..s0
            }));
        }
    }

    /// `ANNN`: load the index register.
    fn set_index_register(&mut self, nnn: u16, address: u16)
        requires
            old(self).wf(),
            address <= 4094,
        ensures
            final(self).wf(),
            spec_exec_instr(old(self)@.with_pc(address), (Instruction::LoadIndex { nnn }))
                == Ok::<CoreView, Chip8Error>(final(self)@),
    {
        self.index_register = nnn;
        self.program_counter = address + 2;
        proof {
            let s0 = old(self)@.with_pc(address);
            assert(self@ =~= (CoreView { index: nnn, pc: adv(s0.pc), ..s0 }));
        }
    }

    /// `BNNN`: jump to `nnn` plus register 0.
    fn jump_with_offset(&mut self, nnn: u16, address: u16)
        requires
            old(self).wf(),
            nnn < 4096,
            address <= 4094,
        ensures
            final(self).wf(),
            spec_exec_instr(old(self)@.with_pc(address), (Instruction::JumpOffset { nnn }))
                == Ok::<CoreView, Chip8Error>(final(self)@),
    {
        let v0 = self.registers[0];
        self.program_counter = nnn + v0 as u16;
        proof {
            let s0 = old(self)@.with_pc(address);
            assert(self@ =~= (CoreView { pc: ((nnn + s0.regs[0]) as u16), ..s0 }));
        }
    }

    /// `CXNN`: draw a byte from the pseudo-random source, mask it with
    /// `nn` and store it in register `x`.
    fn randomize_register(&mut self, x: u8, nn: u8, address: u16)
        requires
            old(self).wf(),
            x < 16,
            address <= 4094,
        ensures
            final(self).wf(),
            spec_exec_instr(old(self)@.with_pc(address), (Instruction::Random { x, nn }))
                == Ok::<CoreView, Chip8Error>(final(self)@),
    {
        let s = self.rng_state;
        let a = s ^ (s << 7);
        let b = a ^ (a >> 9);
        let next = b ^ (b << 8);
        self.rng_state = next;
        self.registers[x as usize] = ((next & 0xFF) as u8) & nn;
        self.program_counter = address + 2;
        proof {
            let s0 = old(self)@.with_pc(address);
            assert(next == next_rng(s0.rng));
            assert(self@ =~= (CoreView {
                regs: s0.regs.update(
                    x as int,
                    ((next_rng(s0.rng) & 0xFF) as u8) & nn,
                ),
                rng: next_rng(s0.rng),
                pc: adv(s0.pc),
                ..s0
            }));
        }
    }

    /// `EX9E`: skip the next instruction when the key named by the low
    /// nibble of register `x` is pressed.
    fn skip_if_key_pressed(&mut self, x: u8, address: u16)
        requires
            old(self).wf(),
            x < 16,
            address <= 4094,
        ensures
            final(self).wf(),
            spec_exec_instr(old(self)@.with_pc(address), (Instruction::SkipKeyPressed { x }))
                == Ok::<CoreView, Chip8Error>(final(self)@),
    {
        let k = self.registers[x as usize] & 0x0F;
        proof {
            lemma_low_nibble_bound(self.registers@[x as int]);
        }
        if self.key[k as usize] {
            self.program_counter = address + 4;
        } else {
            self.program_counter = address + 2;
        }
        proof {
            let s0 = old(self)@.with_pc(address);
            assert(self@ =~= s0.with_pc(
                if s0.keys[(s0.regs[x as int] & 0x0F) as int] { adv_skip(s0.pc) } else { adv(s0.pc) },
            ));
        }
    }

    /// `EXA1`: skip the next instruction when that key is not pressed.
    fn skip_if_key_not_pressed(&mut self, x: u8, address: u16)
        requires
            old(self).wf(),
            x < 16,
            address <= 4094,
        ensures
            final(self).wf(),
            spec_exec_instr(old(self)@.with_pc(address), (Instruction::SkipKeyNotPressed { x }))
                == Ok::<CoreView, Chip8Error>(final(self)@),
    {
        let k = self.registers[x as usize] & 0x0F;
        proof {
            lemma_low_nibble_bound(self.registers@[x as int]);
        }
        if !self.key[k as usize] {
            self.program_counter = address + 4;
        } else {
            self.program_counter = address + 2;
        }
        proof {
            let s0 = old(self)@.with_pc(address);
            assert(self@ =~= s0.with_pc(
                if !s0.keys[(s0.regs[x as int] & 0x0F) as int] {
                    adv_skip(s0.pc)
                } else {
                    adv(s0.pc)
                },
            ));
        }
    }

    /// `FX07`: read the delay timer into register `x`.
    fn read_delay_timer(&mut self, x: u8, address: u16)
        requires
            old(self).wf(),
            x < 16,
            address <= 4094,
        ensures
            final(self).wf(),
            spec_exec_instr(old(self)@.with_pc(address), (Instruction::ReadDelay { x }))
                == Ok::<CoreView, Chip8Error>(final(self)@),
    {
        let d = self.delay_timer;
        self.registers[x as usize] = d;
        self.program_counter = address + 2;
        proof {
            let s0 = old(self)@.with_pc(address);
            assert(self@ =~= (CoreView {
                regs: s0.regs.update(x as int, s0.delay),
                pc: adv(s0.pc),
                ..s0
            }));
        }
    }

    /// `FX0A`: block until a key is pressed. When one is, the lowest
    /// pressed key goes into register `x` and execution advances; until
    /// then the program counter stays on this instruction, so the next
    /// step observes the keypad again.
    fn wait_for_key(&mut self, x: u8, address: u16)
        requires
            old(self).wf(),
            x < 16,
            address <= 4094,
        ensures
            final(self).wf(),
            spec_exec_instr(old(self)@.with_pc(address), (Instruction::WaitKey { x }))
                == Ok::<CoreView, Chip8Error>(final(self)@),
    {
        let ghost s0 = old(self)@.with_pc(address);
        let mut k: usize = 0;
        while k < NUM_KEYS && !self.key[k]
            invariant
                self.wf(),
                k <= NUM_KEYS,
                forall|j: int| 0 <= j < k ==> !self@.keys[j],
            decreases NUM_KEYS - k,
        {
            k += 1;
        }
        proof {
            lemma_first_pressed_from_skip(s0.keys, 0, k as int);
        }
        if k < NUM_KEYS {
            self.registers[x as usize] = k as u8;
            self.program_counter = address + 2;
            proof {
                assert(first_pressed(s0.keys) == Some(k as int));
                assert(self@ =~= (CoreView {
                    regs: s0.regs.update(x as int, k as u8),
                    pc: adv(s0.pc),
                    ..s0
                }));
            }
        } else {
            self.program_counter = address;
            proof {
                assert(first_pressed(s0.keys) is None);
                assert(self@ =~= s0);
            }
        }
    }

    /// `FX15`: load register `x` into the delay timer.
    fn set_delay_timer(&mut self, x: u8, address: u16)
        requires
            old(self).wf(),
            x < 16,
            address <= 4094,
        ensures
            final(self).wf(),
            spec_exec_instr(old(self)@.with_pc(address), (Instruction::SetDelay { x }))
                == Ok::<CoreView, Chip8Error>(final(self)@),
    {
        self.delay_timer = self.registers[x as usize];
        self.program_counter = address + 2;
        proof {
            let s0 = old(self)@.with_pc(address);
            assert(self@ =~= (CoreView { delay: s0.regs[x as int], pc: adv(s0.pc), ..s0 }));
        }
    }

    /// `FX18`: load register `x` into the sound timer.
    fn set_sound_timer(&mut self, x: u8, address: u16)
        requires
            old(self).wf(),
            x < 16,
            address <= 4094,
        ensures
            final(self).wf(),
            spec_exec_instr(old(self)@.with_pc(address), (Instruction::SetSound { x }))
                == Ok::<CoreView, Chip8Error>(final(self)@),
    {
        self.sound_timer = self.registers[x as usize];
        self.program_counter = address + 2;
        proof {
            let s0 = old(self)@.with_pc(address);
            assert(self@ =~= (CoreView { sound: s0.regs[x as int], pc: adv(s0.pc), ..s0 }));
        }
    }

    /// `FX1E`: add register `x` to the index register, wrapping in 16
    /// bits; the flag register is untouched.
    fn add_to_index(&mut self, x: u8, address: u16)
        requires
            old(self).wf(),
            x < 16,
            address <= 4094,
        ensures
            final(self).wf(),
            spec_exec_instr(old(self)@.with_pc(address), (Instruction::AddIndex { x }))
                == Ok::<CoreView, Chip8Error>(final(self)@),
    {
        let sum = self.index_register as u32 + self.registers[x as usize] as u32;
        self.index_register = (sum % 0x10000) as u16;
        self.program_counter = address + 2;
        proof {
            let s0 = old(self)@.with_pc(address);
            assert(self@ =~= (CoreView {
                index: ((s0.index + s0.regs[x as int]) % 0x10000) as u16,
                pc: adv(s0.pc),
                ..s0
            }));
        }
    }

    /// `FX29`: point the index register at the glyph sprite for the value
    /// in register `x` — each glyph is five bytes long.
    fn set_glyph_index(&mut self, x: u8, address: u16)
        requires
            old(self).wf(),
            x < 16,
            address <= 4094,
        ensures
            final(self).wf(),
            spec_exec_instr(old(self)@.with_pc(address), (Instruction::GlyphIndex { x }))
                == Ok::<CoreView, Chip8Error>(final(self)@),
    {
        let vx = self.registers[x as usize];
        self.index_register = vx as u16 * 5;
        self.program_counter = address + 2;
        proof {
            let s0 = old(self)@.with_pc(address);
            assert(self@ =~= (CoreView {
                index: (s0.regs[x as int] * 5) as u16,
                pc: adv(s0.pc),
                ..s0
            }));
        }
    }

    /// `FX33`: store the decimal digits of register `x` at the index
    /// register, or report `AddressOutOfRange` when the three bytes would
    /// reach past the end of memory.
    fn store_bcd(&mut self, x: u8, address: u16) -> (r: Result<(), Chip8Error>)
        requires
            old(self).wf(),
            x < 16,
            address <= 4094,
        ensures
            final(self).wf(),
            (match r {
                Ok(()) => spec_exec_instr(old(self)@.with_pc(address), (Instruction::StoreBcd { x }))
                    == Ok::<CoreView, Chip8Error>(final(self)@),
                Err(e) => spec_exec_instr(old(self)@.with_pc(address), (Instruction::StoreBcd { x }))
                    == Err::<CoreView, Chip8Error>(e) && final(self)@ == old(self)@,
            }),
    {
        if self.index_register as usize + 3 > MEM_SIZE {
            return Err(Chip8Error::AddressOutOfRange);
        }
        let i = self.index_register as usize;
        let v = self.registers[x as usize];
        let (hundreds, tens, ones) = encode_to_bcd(v);
        self.memory[i] = hundreds;
        self.memory[i + 1] = tens;
        self.memory[i + 2] = ones;
        self.program_counter = address + 2;
        proof {
            let s0 = old(self)@.with_pc(address);
            assert(self@ =~= (CoreView {
                mem: s0.mem.update(s0.index as int, bcd_hundreds(s0.regs[x as int])).update(
                    s0.index + 1,
                    bcd_tens(s0.regs[x as int]),
                ).update(s0.index + 2, bcd_ones(s0.regs[x as int])),
                pc: adv(s0.pc),
                ..s0
            }));
        }
        Ok(())
    }

    /// `FX55`: store registers 0 through `x` inclusive into memory at the
    /// index register, or report `AddressOutOfRange` when the range would
    /// reach past the end of memory.
    fn reg_store(&mut self, x: u8, address: u16) -> (r: Result<(), Chip8Error>)
        requires
            old(self).wf(),
            x < 16,
            address <= 4094,
        ensures
            final(self).wf(),
            (match r {
                Ok(()) => spec_exec_instr(old(self)@.with_pc(address), (Instruction::StoreRegs { x }))
                    == Ok::<CoreView, Chip8Error>(final(self)@),
                Err(e) => spec_exec_instr(old(self)@.with_pc(address), (Instruction::StoreRegs { x }))
                    == Err::<CoreView, Chip8Error>(e) && final(self)@ == old(self)@,
            }),
    {
        if self.index_register as usize + x as usize + 1 > MEM_SIZE {
            return Err(Chip8Error::AddressOutOfRange);
        }
        let ghost base = old(self)@;
        let ghost s0 = old(self)@.with_pc(address);
        let i = self.index_register as usize;
        let mut k: usize = 0;
        while k <= x as usize
            invariant
                self.wf(),
                s0 == base.with_pc(address),
                x < 16,
                address <= 4094,
                k <= x as usize + 1,
                i == s0.index,
                i + x as usize + 1 <= MEM_SIZE,
                forall|j: int| i <= j < i + k ==> self@.mem[j] == s0.regs[j - i],
                forall|j: int|
                    0 <= j < MEM_SIZE && !(i <= j < i + k) ==> self@.mem[j] == s0.mem[j],
                self@ == (CoreView { mem: self@.mem, ..base }),
            decreases x as usize + 1 - k,
        {
            let v = self.registers[k];
            self.memory[i + k] = v;
            k += 1;
        }
        self.program_counter = address + 2;
        proof {
            assert(self@.mem =~= Seq::new(
                MEM_SIZE as nat,
                |j: int|
                    if s0.index <= j <= s0.index + x {
                        s0.regs[j - s0.index]
                    } else {
                        s0.mem[j]
                    },
            ));
            assert(self@ =~= (CoreView {
                mem: Seq::new(
                    MEM_SIZE as nat,
                    |j: int|
                        if s0.index <= j <= s0.index + x {
                            s0.regs[j - s0.index]
                        } else {
                            s0.mem[j]
                        },
                ),
                pc: adv(s0.pc),
                ..s0
            }));
        }
        Ok(())
    }

    /// `FX65`: load registers 0 through `x` inclusive from memory at the
    /// index register, each register from its own offset, or report
    /// `AddressOutOfRange` when the range would reach past the end of
    /// memory.
    fn reg_load(&mut self, x: u8, address: u16) -> (r: Result<(), Chip8Error>)
        requires
            old(self).wf(),
            x < 16,
            address <= 4094,
        ensures
            final(self).wf(),
            (match r {
                Ok(()) => spec_exec_instr(old(self)@.with_pc(address), (Instruction::LoadRegs { x }))
                    == Ok::<CoreView, Chip8Error>(final(self)@),
                Err(e) => spec_exec_instr(old(self)@.with_pc(address), (Instruction::LoadRegs { x }))
                    == Err::<CoreView, Chip8Error>(e) && final(self)@ == old(self)@,
            }),
    {
        if self.index_register as usize + x as usize + 1 > MEM_SIZE {
            return Err(Chip8Error::AddressOutOfRange);
        }
        let ghost base = old(self)@;
        let ghost s0 = old(self)@.with_pc(address);
        let i = self.index_register as usize;
        let mut k: usize = 0;
        while k <= x as usize
            invariant
                self.wf(),
                s0 == base.with_pc(address),
                x < 16,
                address <= 4094,
                k <= x as usize + 1,
                i == s0.index,
                i + x as usize + 1 <= MEM_SIZE,
                forall|j: int| 0 <= j < k ==> self@.regs[j] == s0.mem[i + j],
                forall|j: int| k <= j < NUM_REGS ==> self@.regs[j] == s0.regs[j],
                self@ == (CoreView { regs: self@.regs, ..base }),
            decreases x as usize + 1 - k,
        {
            let v = self.memory[i + k];
            self.registers[k] = v;
            k += 1;
        }
        self.program_counter = address + 2;
        proof {
            assert(self@.regs =~= Seq::new(
                NUM_REGS as nat,
                |j: int| if j <= x { s0.mem[s0.index + j] } else { s0.regs[j] },
            ));
            assert(self@ =~= (CoreView {
                regs: Seq::new(
                    NUM_REGS as nat,
                    |j: int| if j <= x { s0.mem[s0.index + j] } else { s0.regs[j] },
                ),
                pc: adv(s0.pc),
                ..s0
            }));
        }
        Ok(())
    }

    /// `DXYN`: XOR the `n`-byte sprite at the index register onto the
    /// display at the wrapped coordinates taken from registers `x` and
    /// `y`; the flag register reports whether any set pixel was turned
    /// unset. Reports `AddressOutOfRange` when the sprite bytes would
    /// reach past the end of memory.
    fn draw(&mut self, x: u8, y: u8, n: u8, address: u16) -> (r: Result<(), Chip8Error>)
        requires
            old(self).wf(),
            x < 16,
            y < 16,
            n < 16,
            address <= 4094,
        ensures
            final(self).wf(),
            (match r {
                Ok(()) => spec_exec_instr(old(self)@.with_pc(address), (Instruction::Draw { x, y, n }))
                    == Ok::<CoreView, Chip8Error>(final(self)@),
                Err(e) => spec_exec_instr(old(self)@.with_pc(address), (Instruction::Draw { x, y, n }))
                    == Err::<CoreView, Chip8Error>(e) && final(self)@ == old(self)@,
            }),
    {
        if self.index_register as usize + n as usize > MEM_SIZE {
            return Err(Chip8Error::AddressOutOfRange);
        }
        let ghost base = old(self)@;
        let ghost s0 = old(self)@.with_pc(address);
        let i = self.index_register as usize;
        let xs = self.registers[x as usize] % 64;
        let ys = self.registers[y as usize] % 32;
        let ghost ii = i as int;
        let ghost xi = xs as int;
        let ghost yi = ys as int;
        self.registers[15] = 0;
        proof {
            lemma_draw_init(s0.screen, s0.mem, ii, xi, yi);
            assert(self@.regs =~= s0.regs.update(
                15,
                if draw_collision_upto(s0.screen, s0.mem, ii, xi, yi, 0, 0) {
                    1u8
                } else {
                    0u8
                },
            ));
        }
        let mut row: usize = 0;
        while row < n as usize
            invariant
                self.wf(),
                s0 == base.with_pc(address),
                s0.wf(),
                x < 16,
                y < 16,
                n < 16,
                address <= 4094,
                row <= n as usize,
                ii == s0.index,
                ii + n <= MEM_SIZE,
                0 <= xi < 64,
                0 <= yi < 32,
                i == ii,
                xi == xs as int,
                yi == ys as int,
                xi == s0.regs[x as int] % 64,
                yi == s0.regs[y as int] % 32,
                self@.screen == screen_after_draw_upto(s0.screen, s0.mem, ii, xi, yi, row as int, 0),
                self@.regs == s0.regs.update(
                    15,
                    if draw_collision_upto(s0.screen, s0.mem, ii, xi, yi, row as int, 0) {
                        1u8
                    } else {
                        0u8
                    },
                ),
                self@ == (CoreView { screen: self@.screen, regs: self@.regs, ..base }),
            decreases n as int - row,
        {
            let line = self.memory[i + row];
            let mut col: usize = 0;
            while col < 8
                invariant
                    self.wf(),
                    s0 == base.with_pc(address),
                    s0.wf(),
                    x < 16,
                    y < 16,
                    n < 16,
                    address <= 4094,
                    row < n as usize,
                    col <= 8,
                    ii == s0.index,
                    ii + n <= MEM_SIZE,
                    0 <= xi < 64,
                    0 <= yi < 32,
                    i == ii,
                    xi == xs as int,
                    yi == ys as int,
                    xi == s0.regs[x as int] % 64,
                    yi == s0.regs[y as int] % 32,
                    line == s0.mem[ii + row as int],
                    self@.screen == screen_after_draw_upto(
                        s0.screen,
                        s0.mem,
                        ii,
                        xi,
                        yi,
                        row as int,
                        col as int,
                    ),
                    self@.regs == s0.regs.update(
                        15,
                        if draw_collision_upto(
                            s0.screen,
                            s0.mem,
                            ii,
                            xi,
                            yi,
                            row as int,
                            col as int,
                        ) {
                            1u8
                        } else {
                            0u8
                        },
                    ),
                    self@ == (CoreView { screen: self@.screen, regs: self@.regs, ..base }),
                decreases 8 - col,
            {
                proof {
                    lemma_draw_advance_col(s0.screen, s0.mem, ii, xi, yi, row as int, col as int);
                }
                let bit_set = line & (0x80u8 >> (col as u8)) != 0;
                let mut px = xs + (col as u8);
                if px >= 64 {
                    px -= 64;
                }
                let mut py = ys + (row as u8);
                if py >= 32 {
                    py -= 32;
                }
                let idx = (px as usize) * 32 + (py as usize);
                proof {
                    assert(px as int == wrap_x(xi, col as int));
                    assert(py as int == wrap_y(yi, row as int));
                    assert(idx as int == pixel_index(px as int, py as int));
                    assert(bit_set == sprite_bit(s0.mem[ii + row as int], col as int));
                    assert(idx < NUM_PIXELS);
                }
                if bit_set {
                    let old_pixel = self.screen[idx];
                    proof {
                        assert(old_pixel == s0.screen[idx as int]);
                    }
                    if old_pixel {
                        self.registers[15] = 1;
                        proof {
                            assert(self@.regs =~= s0.regs.update(15, 1u8));
                        }
                    }
                    self.screen[idx] = !old_pixel;
                }
                proof {
                    assert(self@.screen == screen_after_draw_upto(
                        s0.screen,
                        s0.mem,
                        ii,
                        xi,
                        yi,
                        row as int,
                        col as int + 1,
                    ));
                    assert(self@.regs == s0.regs.update(
                        15,
                        if draw_collision_upto(
                            s0.screen,
                            s0.mem,
                            ii,
                            xi,
                            yi,
                            row as int,
                            col as int + 1,
                        ) {
                            1u8
                        } else {
                            0u8
                        },
                    ));
                }
                col += 1;
            }
            proof {
                lemma_draw_row_roll(s0.screen, s0.mem, ii, xi, yi, row as int, row as int + 1);
            }
            row += 1;
        }
        self.program_counter = address + 2;
        proof {
            assert(self@ =~= (CoreView {
                screen: screen_after_draw(
                    s0.screen,
                    s0.mem,
                    s0.index as int,
                    (s0.regs[x as int] % 64) as int,
                    (s0.regs[y as int] % 32) as int,
                    n as int,
                ),
                regs: s0.regs.update(
                    15,
                    if draw_collision(
                        s0.screen,
                        s0.mem,
                        s0.index as int,
                        (s0.regs[x as int] % 64) as int,
                        (s0.regs[y as int] % 32) as int,
                        n as int,
                    ) {
                        1u8
                    } else {
                        0u8
                    },
                ),
                pc: adv(s0.pc),
                ..s0
            }));
        }
        Ok(())
    }
}

impl System {
    /// Execute the one instruction whose two bytes stand at `address`, as
    /// if the program counter stood there: fetch, decode, execute, and
    /// move the program counter as the instruction prescribes. Every
    /// fault of the instruction table — an unknown opcode, a memory range
    /// past 4095, a call on a full stack, a return on an empty one — is
    /// returned and leaves the machine unchanged.
    pub fn run_op_at(&mut self, address: u16) -> (r: Result<(), Chip8Error>)
        requires
            old(self).wf(),
        ensures
            final(self).wf(),
            (match spec_step(old(self)@.with_pc(address)) {
                Ok(post) => r is Ok && final(self)@ == post,
                Err(e) => r == Err::<(), Chip8Error>(e) && final(self)@ == old(self)@,
            }),
    {
        let ghost s0 = old(self)@.with_pc(address);
        if address as usize + 1 >= MEM_SIZE {
            return Err(Chip8Error::AddressOutOfRange);
        }
        let hi = self.memory[address as usize];
        let lo = self.memory[address as usize + 1];
        let instr = decode(hi, lo);
        proof {
            assert(hi == s0.mem[s0.pc as int]);
            assert(lo == s0.mem[s0.pc as int + 1]);
        }
        match instr {
            Instruction::ClearScreen => {
                self.clear_screen(address);
                Ok(())
            },
            Instruction::Return => self.return_from_call(address),
            Instruction::Jump { nnn } => {
                self.jump(nnn, address);
                Ok(())
            },
            Instruction::Call { nnn } => self.call(nnn, address),
            Instruction::SkipEqImm { x, nn } => {
                self.skip_if_equal(x, nn, address);
                Ok(())
            },
            Instruction::SkipNeImm { x, nn } => {
                self.skip_if_not_equal(x, nn, address);
                Ok(())
            },
            Instruction::SkipEqReg { x, y } => {
                self.skip_if_registers_equal(x, y, address);
                Ok(())
            },
            Instruction::SkipNeReg { x, y } => {
                self.skip_if_registers_not_equal(x, y, address);
                Ok(())
            },
            Instruction::LoadImm { x, nn } => {
                self.set_register_to(x, nn, address);
                Ok(())
            },
            Instruction::AddImm { x, nn } => {
                self.add_value_to_register(x, nn, address);
                Ok(())
            },
            Instruction::Assign { x, y } => {
                self.alu_assign(x, y, address);
                Ok(())
            },
            Instruction::Or { x, y } => {
                self.alu_or(x, y, address);
                Ok(())
            },
            Instruction::And { x, y } => {
                self.alu_and(x, y, address);
                Ok(())
            },
            Instruction::Xor { x, y } => {
                self.alu_xor(x, y, address);
                Ok(())
            },
            Instruction::AddReg { x, y } => {
                self.alu_add(x, y, address);
                Ok(())
            },
            Instruction::SubReg { x, y } => {
                self.alu_sub(x, y, address);
                Ok(())
            },
            Instruction::ShiftRight { x } => {
                self.alu_shift_right(x, address);
                Ok(())
            },
            Instruction::SubFrom { x, y } => {
                self.alu_sub_from(x, y, address);
                Ok(())
            },
            Instruction::ShiftLeft { x } => {
                self.alu_shift_left(x, address);
                Ok(())
            },
            Instruction::LoadIndex { nnn } => {
                self.set_index_register(nnn, address);
                Ok(())
            },
            Instruction::JumpOffset { nnn } => {
                self.jump_with_offset(nnn, address);
                Ok(())
            },
            Instruction::Random { x, nn } => {
                self.randomize_register(x, nn, address);
                Ok(())
            },
            Instruction::Draw { x, y, n } => self.draw(x, y, n, address),
            Instruction::SkipKeyPressed { x } => {
                self.skip_if_key_pressed(x, address);
                Ok(())
            },
            Instruction::SkipKeyNotPressed { x } => {
                self.skip_if_key_not_pressed(x, address);
                Ok(())
            },
            Instruction::ReadDelay { x } => {
                self.read_delay_timer(x, address);
                Ok(())
            },
            Instruction::WaitKey { x } => {
                self.wait_for_key(x, address);
                Ok(())
            },
            Instruction::SetDelay { x } => {
                self.set_delay_timer(x, address);
                Ok(())
            },
            Instruction::SetSound { x } => {
                self.set_sound_timer(x, address);
                Ok(())
            },
            Instruction::AddIndex { x } => {
                self.add_to_index(x, address);
                Ok(())
            },
            Instruction::GlyphIndex { x } => {
                self.set_glyph_index(x, address);
                Ok(())
            },
            Instruction::StoreBcd { x } => self.store_bcd(x, address),
            Instruction::StoreRegs { x } => self.reg_store(x, address),
            Instruction::LoadRegs { x } => self.reg_load(x, address),
            Instruction::Unknown => Err(Chip8Error::UnknownOpcode),
        }
    }

    /// One engine step at the current program counter: the operation the
    /// host driver calls once per instruction.
    pub fn step(&mut self) -> (r: Result<(), Chip8Error>)
        requires
            old(self).wf(),
        ensures
            final(self).wf(),
            (match spec_step(old(self)@) {
                Ok(post) => r is Ok && final(self)@ == post,
                Err(e) => r == Err::<(), Chip8Error>(e) && final(self)@ == old(self)@,
            }),
    {
        let pc = self.program_counter;
        proof {
            assert(old(self)@.with_pc(pc) =~= old(self)@);
        }
        self.run_op_at(pc)
    }
}

} // verus!
