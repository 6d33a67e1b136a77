//! The interpreter core: memory, registers, call stack, program counter and
//! the fetch-decode-execute engine, together with the countdown timers and
//! the display buffer it owns.
//!
//! The engine is synchronous and deterministic up to its injected
//! collaborators: key state comes through the [`Keypad`] capability, the
//! random byte for the masked-random instruction through a thread-local
//! randomness source, and the wall clock as a `now_ms` argument.

use vstd::prelude::*;

use crate::display::{cleared_grid, draw_collides, grid_after_draw, Display};
use crate::font;
use crate::timer::Timer;

verus! {

/// Where the font table starts in memory.
pub const FONT_ADDR: usize = 0x050;

/// Where a loaded ROM starts in memory, and where the program counter points
/// after a load.
pub const ROM_ADDR: usize = 0x200;

const TIMER_HZ: u8 = 60;

/// Which member of the instruction-set family is being interpreted. The
/// variant is chosen once at construction and changes the semantics of four
/// opcode families; it never changes the memory layout.
#[derive(Clone, Copy, PartialEq, Eq, Structural, Debug)]
pub enum ChipType {
    Chip8,
    SuperChip,
}

/// The fatal conditions that abort interpretation. Unknown opcodes are not
/// among them: they execute as no-ops.
#[derive(Clone, Copy, PartialEq, Eq, Structural, Debug)]
pub enum ChipError {
    /// A fetch or an index-register access reached past the 4096 memory
    /// bytes.
    MemoryOutOfBounds,
    /// A subroutine call arrived while the call stack was full.
    StackOverflow,
    /// A return arrived while the call stack was empty.
    StackUnderflow,
}

/// The keypad capability the core consumes and never implements: a host maps
/// its physical input device onto the sixteen hexadecimal keys.
pub trait Keypad {
    /// Whether the hexadecimal key `key` is currently held down.
    fn is_key_down(&mut self, key: u8) -> bool;

    /// Block until some hexadecimal key is pressed, and report its value.
    fn poll_or_await_key_press(&mut self) -> u8;
}

/// A raw 16-bit opcode split into the pieces the dispatcher reads: the four
/// nibbles, the low byte and the low 12 bits. Produced fresh by [`Chip::decode`]
/// and never mutated.
pub struct DecodedInstruction {
    pub nibbles: [u8; 4],
    pub nn: u8,
    pub nnn: usize,
}

impl DecodedInstruction {
    /// Every nibble is below 16 and the address field below 4096.
    pub open spec fn wf(self) -> bool {
        &&& forall|k: int| 0 <= k < 4 ==> self.nibbles@[k] < 16
        &&& self.nnn < 4096
    }

    /// The opcode's leading nibble, which selects the operation family.
    pub open spec fn op(self) -> u8 {
        self.nibbles@[0]
    }

    /// The register index in the second nibble.
    pub open spec fn x(self) -> u8 {
        self.nibbles@[1]
    }

    /// The register index in the third nibble.
    pub open spec fn y(self) -> u8 {
        self.nibbles@[2]
    }

    /// The trailing nibble.
    pub open spec fn n(self) -> u8 {
        self.nibbles@[3]
    }
}

/// The decoder's defining relation: `d` holds exactly the nibble, byte and
/// address fields of the opcode `op`.
pub open spec fn decodes(op: u16, d: DecodedInstruction) -> bool {
    &&& d.nibbles@[0] == op / 4096
    &&& d.nibbles@[1] == (op / 256) % 16
    &&& d.nibbles@[2] == (op / 16) % 16
    &&& d.nibbles@[3] == op % 16
    &&& d.nn == op % 256
    &&& d.nnn == op % 4096
}

/// The 16-bit word stored big-endian at `pc` in memory.
pub open spec fn word_at(mem: Seq<u8>, pc: int) -> u16 {
    (mem[pc] * 256 + mem[pc + 1]) as u16
}

/// The interpreter state: 4096 memory bytes, 16 registers, the index
/// register, the program counter, a 32-entry call stack with its level
/// counter, the display buffer, the two timers and the variant flag.
pub struct Chip {
    pub memory: Vec<u8>,
    pub registers: Vec<u8>,
    pub stack: Vec<usize>,
    pub stack_level: usize,
    pub display: Display,
    pub delay_timer: Timer,
    pub sound_timer: Timer,
    pub i: usize,
    pub pc: usize,
    pub chip_type: ChipType,
}

/// The call transition: push the current program counter at the current
/// level, go one level deeper, and jump to `address`.
pub open spec fn call_t(pc: usize, stack: Seq<usize>, level: int, address: usize) -> (
    usize,
    Seq<usize>,
    int,
) {
    (address, stack.update(level, pc), level + 1)
}

/// The return transition: come back one level and restore the program
/// counter saved there. The slot itself is not cleared, only abandoned.
pub open spec fn ret_t(pc: usize, stack: Seq<usize>, level: int) -> (usize, Seq<usize>, int) {
    (stack[level - 1], stack, level - 1)
}

/// The state after calling at each address of `addrs` in order.
pub open spec fn after_calls(pc: usize, stack: Seq<usize>, level: int, addrs: Seq<usize>) -> (
    usize,
    Seq<usize>,
    int,
)
    decreases addrs.len(),
{
    if addrs.len() == 0 {
        (pc, stack, level)
    } else {
        let t = call_t(pc, stack, level, addrs[0]);
        after_calls(t.0, t.1, t.2, addrs.subrange(1, addrs.len() as int))
    }
}

/// The state after returning `n` times.
pub open spec fn after_returns(pc: usize, stack: Seq<usize>, level: int, n: int) -> (
    usize,
    Seq<usize>,
    int,
)
    decreases n,
{
    if n <= 0 {
        (pc, stack, level)
    } else {
        let t = ret_t(pc, stack, level);
        after_returns(t.0, t.1, t.2, n - 1)
    }
}

impl Chip {
    /// Fixed sizes, a stack level within capacity, and well-formed owned
    /// components.
    pub open spec fn wf(self) -> bool {
        &&& self.memory@.len() == 4096
        &&& self.registers@.len() == 16
        &&& self.stack@.len() == 32
        &&& self.stack_level <= 32
        &&& self.display.wf()
        &&& self.delay_timer.wf()
        &&& self.sound_timer.wf()
    }

    /// A fresh interpreter: zeroed memory with the font table copied in at
    /// [`FONT_ADDR`], zeroed registers and stack, cleared display, both
    /// timers at zero referenced to `now_ms`, and the program counter at 0.
    pub fn new(chip_type: ChipType, now_ms: u64) -> (r: Chip)
        ensures
            r.wf(),
            forall|a: int|
                0 <= a < 4096 ==> r.memory@[a] == (if 0x50 <= a < 0xA0 {
                    font::font_seq()[a - 0x50]
                } else {
                    0u8
                }),
            forall|k: int| 0 <= k < 16 ==> r.registers@[k] == 0,
            forall|k: int| 0 <= k < 32 ==> r.stack@[k] == 0,
            r.stack_level == 0,
            r.display.display@ == cleared_grid(),
            r.delay_timer.value == 0 && r.delay_timer.last_decremented_ms == now_ms
                && r.delay_timer.ms_per_cycle == 16,
            r.sound_timer.value == 0 && r.sound_timer.last_decremented_ms == now_ms
                && r.sound_timer.ms_per_cycle == 16,
            r.i == 0,
            r.pc == 0,
            r.chip_type == chip_type,
    {
        let mut memory: Vec<u8> = Vec::new();
        while memory.len() < 4096
            invariant
                memory@.len() <= 4096,
                forall|a: int| 0 <= a < memory@.len() ==> memory@[a] == 0,
            decreases 4096 - memory@.len(),
        {
            memory.push(0);
        }
        let font_bytes = font::get_font();
        let mut k: usize = 0;
        while k < 80
            invariant
                k <= 80,
                memory@.len() == 4096,
                font_bytes@ == font::font_seq(),
                forall|a: int|
                    0 <= a < 4096 ==> memory@[a] == (if 0x50 <= a < 0x50 + k {
                        font::font_seq()[a - 0x50]
                    } else {
                        0u8
                    }),
            decreases 80 - k,
        {
            memory.set(0x50 + k, font_bytes[k]);
            k += 1;
        }
        let mut registers: Vec<u8> = Vec::new();
        while registers.len() < 16
            invariant
                registers@.len() <= 16,
                forall|j: int| 0 <= j < registers@.len() ==> registers@[j] == 0,
            decreases 16 - registers@.len(),
        {
            registers.push(0);
        }
        let mut stack: Vec<usize> = Vec::new();
        while stack.len() < 32
            invariant
                stack@.len() <= 32,
                forall|j: int| 0 <= j < stack@.len() ==> stack@[j] == 0,
            decreases 32 - stack@.len(),
        {
            stack.push(0);
        }
        Chip {
            memory,
            registers,
            stack,
            stack_level: 0,
            display: Display::new(),
            delay_timer: Timer::new(TIMER_HZ, now_ms),
            sound_timer: Timer::new(TIMER_HZ, now_ms),
            i: 0,
            pc: 0,
            chip_type,
        }
    }

    /// Copy a ROM verbatim into memory starting at [`ROM_ADDR`] and point the
    /// program counter there.
    pub fn load_rom(&mut self, rom: &Vec<u8>)
        requires
            old(self).wf(),
            rom@.len() <= 4096 - 0x200,
        ensures
            final(self).wf(),
            forall|a: int|
                0 <= a < 4096 ==> final(self).memory@[a] == (if 0x200 <= a < 0x200 + rom@.len() {
                    rom@[a - 0x200]
                } else {
                    old(self).memory@[a]
                }),
            final(self).pc == 0x200,
            final(self).registers@ == old(self).registers@,
            final(self).stack@ == old(self).stack@,
            final(self).stack_level == old(self).stack_level,
            final(self).display.display@ == old(self).display.display@,
            final(self).delay_timer == old(self).delay_timer,
            final(self).sound_timer == old(self).sound_timer,
            final(self).i == old(self).i,
            final(self).chip_type == old(self).chip_type,
    {
        let mut offset: usize = 0;
        while offset < rom.len()
            invariant
                offset <= rom@.len(),
                rom@.len() <= 4096 - 0x200,
                self.memory@.len() == 4096,
                forall|a: int|
                    0 <= a < 4096 ==> self.memory@[a] == (if 0x200 <= a < 0x200 + offset {
                        rom@[a - 0x200]
                    } else {
                        old(self).memory@[a]
                    }),
                self.registers@ == old(self).registers@,
                self.stack@ == old(self).stack@,
                self.stack_level == old(self).stack_level,
                self.display == old(self).display,
                self.delay_timer == old(self).delay_timer,
                self.sound_timer == old(self).sound_timer,
                self.i == old(self).i,
                self.pc == old(self).pc,
                self.chip_type == old(self).chip_type,
            decreases rom@.len() - offset,
        {
            let byte = rom[offset];
            self.memory.set(ROM_ADDR + offset, byte);
            offset += 1;
        }
        self.pc = ROM_ADDR;
    }

    /// Read the two bytes at the program counter, combine them big-endian
    /// into an opcode, and advance the counter by two. A counter whose second
    /// byte lies past memory is a fatal bounds violation.
    pub fn fetch(&mut self) -> (r: Result<u16, ChipError>)
        requires
            old(self).wf(),
        ensures
            final(self).wf(),
            old(self).pc + 1 < 4096 ==> {
                &&& r == Ok::<u16, ChipError>(word_at(old(self).memory@, old(self).pc as int))
                &&& final(self).pc == old(self).pc + 2
                &&& same_core(*old(self), *final(self))
                &&& final(self).stack@ == old(self).stack@
                &&& final(self).stack_level == old(self).stack_level
            },
            old(self).pc + 1 >= 4096 ==> {
                &&& r == Err::<u16, ChipError>(ChipError::MemoryOutOfBounds)
                &&& same_state(*old(self), *final(self))
            },
    {
        if self.pc >= 4095 {
            return Err(ChipError::MemoryOutOfBounds);
        }
        let first_byte = self.memory[self.pc] as u16;
        let second_byte = self.memory[1 + self.pc] as u16;
        let combined_bytes = first_byte * 256 + second_byte;
        self.pc = self.pc + 2;
        Ok(combined_bytes)
    }

    /// Split an opcode into its four nibbles, its low byte and its low 12
    /// bits. Pure: the interpreter state is not read.
    pub fn decode(&self, instruction: u16) -> (r: DecodedInstruction)
        ensures
            decodes(instruction, r),
            r.wf(),
    {
        let first_nibble = (instruction >> 12) as u8;
        let second_nibble = ((instruction & 0x0F00) >> 8) as u8;
        let third_nibble = ((instruction & 0x00F0) >> 4) as u8;
        let fourth_nibble = (instruction & 0x000F) as u8;
        let nn = (instruction & 0x00FF) as u8;
        let nnn = (instruction & 0x0FFF) as usize;
        proof {
            assert(instruction >> 12 == instruction / 4096 && instruction / 4096 < 16) by (bit_vector);
            assert((instruction & 0x0F00) >> 8 == (instruction / 256) % 16) by (bit_vector);
            assert((instruction & 0x00F0) >> 4 == (instruction / 16) % 16) by (bit_vector);
            assert(instruction & 0x000F == instruction % 16) by (bit_vector);
            assert(instruction & 0x00FF == instruction % 256) by (bit_vector);
            assert(instruction & 0x0FFF == instruction % 4096) by (bit_vector);
        }
        DecodedInstruction {
            nibbles: [first_nibble, second_nibble, third_nibble, fourth_nibble],
            nn,
            nnn,
        }
    }

    /// Push the current program counter and jump to `address`; a call at full
    /// capacity is a fatal overflow and leaves the state unchanged.
    pub fn call_at(&mut self, address: usize) -> (r: Result<(), ChipError>)
        requires
            old(self).wf(),
        ensures
            final(self).wf(),
            old(self).stack_level < 32 ==> {
                &&& r == Ok::<(), ChipError>(())
                &&& (final(self).pc, final(self).stack@, final(self).stack_level as int) == call_t(
                    old(self).pc,
                    old(self).stack@,
                    old(self).stack_level as int,
                    address,
                )
                &&& same_core(*old(self), *final(self))
            },
            old(self).stack_level >= 32 ==> {
                &&& r == Err::<(), ChipError>(ChipError::StackOverflow)
                &&& same_state(*old(self), *final(self))
            },
    {
        if self.stack_level >= 32 {
            return Err(ChipError::StackOverflow);
        }
        self.stack.set(self.stack_level, self.pc);
        self.stack_level = self.stack_level + 1;
        self.pc = address;
        Ok(())
    }

    /// Pop the call stack into the program counter; a return from an empty
    /// stack is a fatal underflow and leaves the state unchanged.
    pub fn handle_return(&mut self) -> (r: Result<(), ChipError>)
        requires
            old(self).wf(),
        ensures
            final(self).wf(),
            old(self).stack_level > 0 ==> {
                &&& r == Ok::<(), ChipError>(())
                &&& (final(self).pc, final(self).stack@, final(self).stack_level as int) == ret_t(
                    old(self).pc,
                    old(self).stack@,
                    old(self).stack_level as int,
                )
                &&& same_core(*old(self), *final(self))
            },
            old(self).stack_level == 0 ==> {
                &&& r == Err::<(), ChipError>(ChipError::StackUnderflow)
                &&& same_state(*old(self), *final(self))
            },
    {
        if self.stack_level == 0 {
            return Err(ChipError::StackUnderflow);
        }
        self.stack_level = self.stack_level - 1;
        self.pc = self.stack[self.stack_level];
        Ok(())
    }

    /// Refresh both timers against the injected current time.
    pub fn check_timers(&mut self, now_ms: u64)
        requires
            old(self).wf(),
        ensures
            final(self).wf(),
            final(self).delay_timer == old(self).delay_timer.refreshed(now_ms),
            final(self).sound_timer == old(self).sound_timer.refreshed(now_ms),
            final(self).memory@ == old(self).memory@,
            final(self).registers@ == old(self).registers@,
            final(self).stack@ == old(self).stack@,
            final(self).stack_level == old(self).stack_level,
            final(self).display.display@ == old(self).display.display@,
            final(self).i == old(self).i,
            final(self).pc == old(self).pc,
            final(self).chip_type == old(self).chip_type,
    {
        self.delay_timer.check_decrement(now_ms);
        self.sound_timer.check_decrement(now_ms);
    }

    /// Store `random_value & seed` into register `x`: the deterministic tail
    /// of the masked-random instruction, verified for every byte the
    /// randomness source may hand back.
    pub fn apply_random_byte(&mut self, x: u8, seed: u8, random_value: u8)
        requires
            old(self).wf(),
            x < 16,
        ensures
            final(self).wf(),
            final(self).registers@ == old(self).registers@.update(x as int, random_value & seed),
            same_core_but_regs(*old(self), *final(self)),
            final(self).pc == old(self).pc,
            final(self).stack@ == old(self).stack@,
            final(self).stack_level == old(self).stack_level,
    {
        self.registers.set(x as usize, random_value & seed);
    }

    /// Draw a random byte and store it ANDed with `seed` into register `x`.
    fn set_vx_rand(&mut self, x: u8, seed: u8)
        requires
            old(self).wf(),
            x < 16,
        ensures
            final(self).wf(),
            exists|b: u8| final(self).registers@ == old(self).registers@.update(x as int, b & seed),
            same_core_but_regs(*old(self), *final(self)),
            final(self).pc == old(self).pc,
            final(self).stack@ == old(self).stack@,
            final(self).stack_level == old(self).stack_level,
    {
        let random_value = random_byte();
        self.apply_random_byte(x, seed, random_value);
    }

    /// Composite the sprite of `height` rows read from memory at the index
    /// register onto the display at the coordinates held in `Vx` and `Vy`,
    /// leaving the collision flag in `VF`. A sprite whose rows reach past
    /// memory is a fatal bounds violation.
    #[verifier::loop_isolation(false)]
    fn draw(&mut self, x: u8, y: u8, height: u8) -> (r: Result<(), ChipError>)
        requires
            old(self).wf(),
            x < 16,
            y < 16,
        ensures
            final(self).wf(),
            height > 0 && old(self).i + height > 4096 ==> {
                &&& r == Err::<(), ChipError>(ChipError::MemoryOutOfBounds)
                &&& same_state(*old(self), *final(self))
            },
            !(height > 0 && old(self).i + height > 4096) ==> {
                let g0 = old(self).display.display@;
                let xc = old(self).registers@[x as int] as int;
                let yc = old(self).registers@[y as int] as int;
                let s = old(self).memory@.subrange(old(self).i as int, old(self).i + height);
                &&& r == Ok::<(), ChipError>(())
                &&& final(self).display.display@ == grid_after_draw(g0, xc, yc, height as int, s)
                &&& final(self).registers@ == old(self).registers@.update(
                    15,
                    if draw_collides(g0, xc, yc, height as int, s) {
                        1u8
                    } else {
                        0u8
                    },
                )
                &&& final(self).memory@ == old(self).memory@
                &&& final(self).stack@ == old(self).stack@
                &&& final(self).stack_level == old(self).stack_level
                &&& final(self).delay_timer == old(self).delay_timer
                &&& final(self).sound_timer == old(self).sound_timer
                &&& final(self).i == old(self).i
                &&& final(self).pc == old(self).pc
                &&& final(self).chip_type == old(self).chip_type
            },
    {
        if height > 0 && self.i > 4096 - height as usize {
            return Err(ChipError::MemoryOutOfBounds);
        }
        let x_index = self.registers[x as usize] as usize;
        let y_index = self.registers[y as usize] as usize;
        let mut sprite: Vec<u8> = Vec::new();
        let mut row: usize = 0;
        while row < height as usize
            invariant
                row <= height as usize,
                sprite@.len() == row,
                forall|j: int| 0 <= j < row ==> sprite@[j] == self.memory@[self.i + j],
            decreases height as usize - row,
        {
            let byte = self.memory[self.i + row];
            sprite.push(byte);
            row += 1;
        }
        proof {
            if height > 0 {
                assert(sprite@ =~= self.memory@.subrange(self.i as int, self.i + height as int));
            }
        }
        let flipped = self.display.draw_sprite(x_index, y_index, height, sprite);
        self.registers.set(
            0xF,
            if flipped {
                1
            } else {
                0
            },
        );
        proof {
            if height == 0 {
                let g0 = old(self).display.display@;
                let xc = old(self).registers@[x as int] as int;
                let yc = old(self).registers@[y as int] as int;
                let s2 = old(self).memory@.subrange(old(self).i as int, old(self).i + height);
                assert(grid_after_draw(g0, xc, yc, 0, sprite@) =~= grid_after_draw(g0, xc, yc, 0, s2));
                assert(!draw_collides(g0, xc, yc, 0, sprite@));
                assert(!draw_collides(g0, xc, yc, 0, s2));
            }
        }
        Ok(())
    }

    /// Store the hundreds, tens and ones digits of `Vx` at the index
    /// register's address and the two after it; a window past memory is a
    /// fatal bounds violation.
    fn store_bcd(&mut self, x: u8) -> (r: Result<(), ChipError>)
        requires
            old(self).wf(),
            x < 16,
        ensures
            final(self).wf(),
            old(self).i + 2 >= 4096 ==> {
                &&& r == Err::<(), ChipError>(ChipError::MemoryOutOfBounds)
                &&& same_state(*old(self), *final(self))
            },
            old(self).i + 2 < 4096 ==> {
                let vx = old(self).registers@[x as int];
                &&& r == Ok::<(), ChipError>(())
                &&& final(self).memory@ == old(self).memory@.update(
                    old(self).i as int,
                    (vx / 100) as u8,
                ).update(old(self).i + 1, ((vx / 10) % 10) as u8).update(
                    old(self).i + 2,
                    (vx % 10) as u8,
                )
                &&& same_core_but_mem(*old(self), *final(self))
                &&& final(self).pc == old(self).pc
                &&& final(self).stack@ == old(self).stack@
                &&& final(self).stack_level == old(self).stack_level
            },
    {
        if self.i >= 4094 {
            return Err(ChipError::MemoryOutOfBounds);
        }
        let number = self.registers[x as usize];
        let hundreds = number / 100;
        let tens = (number / 10) % 10;
        let ones = number % 10;
        self.memory.set(self.i, hundreds);
        self.memory.set(1 + self.i, tens);
        self.memory.set(2 + self.i, ones);
        Ok(())
    }

    /// Copy registers 0 through `x` into memory starting at the index
    /// register; on the original variant the index register then advances by
    /// `x`. A window past memory is a fatal bounds violation.
    #[verifier::loop_isolation(false)]
    fn store_registers(&mut self, x: u8) -> (r: Result<(), ChipError>)
        requires
            old(self).wf(),
            x < 16,
        ensures
            final(self).wf(),
            old(self).i + x >= 4096 ==> {
                &&& r == Err::<(), ChipError>(ChipError::MemoryOutOfBounds)
                &&& same_state(*old(self), *final(self))
            },
            old(self).i + x < 4096 ==> {
                &&& r == Ok::<(), ChipError>(())
                &&& final(self).memory@ == stored_block(
                    old(self).memory@,
                    old(self).registers@,
                    old(self).i as int,
                    x as int,
                )
                &&& final(self).i as int == (if old(self).chip_type == ChipType::Chip8 {
                    old(self).i + x
                } else {
                    old(self).i as int
                })
                &&& final(self).registers@ == old(self).registers@
                &&& final(self).stack@ == old(self).stack@
                &&& final(self).stack_level == old(self).stack_level
                &&& final(self).display.display@ == old(self).display.display@
                &&& final(self).delay_timer == old(self).delay_timer
                &&& final(self).sound_timer == old(self).sound_timer
                &&& final(self).pc == old(self).pc
                &&& final(self).chip_type == old(self).chip_type
            },
    {
        if self.i >= 4096 - x as usize {
            return Err(ChipError::MemoryOutOfBounds);
        }
        let mut k: usize = 0;
        while k <= x as usize
            invariant
                k <= x as usize + 1,
                self.memory@.len() == 4096,
                forall|a: int|
                    0 <= a < 4096 ==> self.memory@[a] == (if old(self).i <= a < old(self).i + k {
                        old(self).registers@[a - old(self).i]
                    } else {
                        old(self).memory@[a]
                    }),
                self.registers@ == old(self).registers@,
                self.stack@ == old(self).stack@,
                self.stack_level == old(self).stack_level,
                self.display == old(self).display,
                self.delay_timer == old(self).delay_timer,
                self.sound_timer == old(self).sound_timer,
                self.i == old(self).i,
                self.pc == old(self).pc,
                self.chip_type == old(self).chip_type,
            decreases x as usize + 1 - k,
        {
            let v = self.registers[k];
            self.memory.set(self.i + k, v);
            k += 1;
        }
        proof {
            assert(self.memory@ =~= stored_block(
                old(self).memory@,
                old(self).registers@,
                old(self).i as int,
                x as int,
            ));
        }
        if self.chip_type == ChipType::Chip8 {
            self.i = self.i + x as usize;
        }
        Ok(())
    }

    /// Load registers 0 through `x` from memory starting at the index
    /// register; on the original variant the index register then advances by
    /// `x`. A window past memory is a fatal bounds violation.
    #[verifier::loop_isolation(false)]
    fn load_registers(&mut self, x: u8) -> (r: Result<(), ChipError>)
        requires
            old(self).wf(),
            x < 16,
        ensures
            final(self).wf(),
            old(self).i + x >= 4096 ==> {
                &&& r == Err::<(), ChipError>(ChipError::MemoryOutOfBounds)
                &&& same_state(*old(self), *final(self))
            },
            old(self).i + x < 4096 ==> {
                &&& r == Ok::<(), ChipError>(())
                &&& final(self).registers@ == loaded_block(
                    old(self).memory@,
                    old(self).registers@,
                    old(self).i as int,
                    x as int,
                )
                &&& final(self).i as int == (if old(self).chip_type == ChipType::Chip8 {
                    old(self).i + x
                } else {
                    old(self).i as int
                })
                &&& final(self).memory@ == old(self).memory@
                &&& final(self).stack@ == old(self).stack@
                &&& final(self).stack_level == old(self).stack_level
                &&& final(self).display.display@ == old(self).display.display@
                &&& final(self).delay_timer == old(self).delay_timer
                &&& final(self).sound_timer == old(self).sound_timer
                &&& final(self).pc == old(self).pc
                &&& final(self).chip_type == old(self).chip_type
            },
    {
        if self.i >= 4096 - x as usize {
            return Err(ChipError::MemoryOutOfBounds);
        }
        let mut k: usize = 0;
        while k <= x as usize
            invariant
                k <= x as usize + 1,
                self.registers@.len() == 16,
                forall|j: int|
                    0 <= j < 16 ==> self.registers@[j] == (if j < k {
                        old(self).memory@[old(self).i + j]
                    } else {
                        old(self).registers@[j]
                    }),
                self.memory@ == old(self).memory@,
                self.stack@ == old(self).stack@,
                self.stack_level == old(self).stack_level,
                self.display == old(self).display,
                self.delay_timer == old(self).delay_timer,
                self.sound_timer == old(self).sound_timer,
                self.i == old(self).i,
                self.pc == old(self).pc,
                self.chip_type == old(self).chip_type,
            decreases x as usize + 1 - k,
        {
            let v = self.memory[self.i + k];
            self.registers.set(k, v);
            k += 1;
        }
        proof {
            assert(self.registers@ =~= loaded_block(
                old(self).memory@,
                old(self).registers@,
                old(self).i as int,
                x as int,
            ));
        }
        if self.chip_type == ChipType::Chip8 {
            self.i = self.i + x as usize;
        }
        Ok(())
    }
}

impl Chip {
    /// Dispatch one decoded instruction against the state, the injected
    /// keypad and the injected clock. The result is exactly
    /// [`exec_result`]: fatal conditions report their error and leave the
    /// state unchanged; every other instruction, unknown patterns included,
    /// succeeds. On success each component of the state lands on its
    /// transition function: memory on [`mem_after`], registers on
    /// [`regs_rel`], the stack and its level on [`stack_after`] and
    /// [`level_after`], the display on [`display_after`], the timers on
    /// [`delay_after`] and [`sound_after`], the index register on
    /// [`i_after`] and the program counter on [`pc_rel`].
    pub fn execute<K: Keypad>(
        &mut self,
        decoded_instruction: DecodedInstruction,
        keypad: &mut K,
        now_ms: u64,
    ) -> (r: Result<(), ChipError>)
        requires
            old(self).wf(),
            decoded_instruction.wf(),
            old(self).pc + 2 <= usize::MAX,
        ensures
            final(self).wf(),
            r == exec_result(*old(self), decoded_instruction),
            final(self).memory@ == mem_after(*old(self), decoded_instruction),
            regs_rel(*old(self), *final(self), decoded_instruction),
            final(self).stack@ == stack_after(*old(self), decoded_instruction, old(self).pc),
            final(self).stack_level as int == level_after(*old(self), decoded_instruction),
            final(self).display.display@ == display_after(*old(self), decoded_instruction),
            final(self).delay_timer == delay_after(*old(self), decoded_instruction, now_ms),
            final(self).sound_timer == sound_after(*old(self), decoded_instruction, now_ms),
            final(self).i as int == i_after(*old(self), decoded_instruction),
            pc_rel(*old(self), *final(self), decoded_instruction, old(self).pc),
            final(self).chip_type == old(self).chip_type,
    {
        let n0 = decoded_instruction.nibbles[0];
        let n1 = decoded_instruction.nibbles[1];
        let n2 = decoded_instruction.nibbles[2];
        let n3 = decoded_instruction.nibbles[3];
        let nn = decoded_instruction.nn;
        let nnn = decoded_instruction.nnn;
        match (n0, n1, n2, n3) {
            (0, 0, 0xE, 0) => {
                self.display.clear();
                Ok(())
            },
            (0, 0, 0xE, 0xE) => self.handle_return(),
            (0, _, _, _) => Ok(()),
            (1, _, _, _) => {
                self.pc = nnn;
                Ok(())
            },
            (2, _, _, _) => self.call_at(nnn),
            (3, x, _, _) => {
                if self.registers[x as usize] == nn {
                    self.pc = self.pc + 2;
                }
                Ok(())
            },
            (4, x, _, _) => {
                if self.registers[x as usize] != nn {
                    self.pc = self.pc + 2;
                }
                Ok(())
            },
            (5, x, y, 0) => {
                if self.registers[x as usize] == self.registers[y as usize] {
                    self.pc = self.pc + 2;
                }
                Ok(())
            },
            (6, x, _, _) => {
                self.registers.set(x as usize, nn);
                Ok(())
            },
            (7, x, _, _) => {
                let sum = self.registers[x as usize] as u16 + nn as u16;
                self.registers.set(x as usize, (sum % 256) as u8);
                Ok(())
            },
            (8, x, y, 0) => {
                let vy = self.registers[y as usize];
                self.registers.set(x as usize, vy);
                Ok(())
            },
            (8, x, y, 1) => {
                let v = self.registers[x as usize] | self.registers[y as usize];
                self.registers.set(x as usize, v);
                if self.chip_type == ChipType::Chip8 {
                    self.registers.set(0xF, 0);
                }
                Ok(())
            },
            (8, x, y, 2) => {
                let v = self.registers[x as usize] & self.registers[y as usize];
                self.registers.set(x as usize, v);
                if self.chip_type == ChipType::Chip8 {
                    self.registers.set(0xF, 0);
                }
                Ok(())
            },
            (8, x, y, 3) => {
                let v = self.registers[x as usize] ^ self.registers[y as usize];
                self.registers.set(x as usize, v);
                if self.chip_type == ChipType::Chip8 {
                    self.registers.set(0xF, 0);
                }
                Ok(())
            },
            (8, x, y, 4) => {
                let sum = self.registers[x as usize] as u16 + self.registers[y as usize] as u16;
                self.registers.set(
                    0xF,
                    if sum > 255 {
                        1
                    } else {
                        0
                    },
                );
                self.registers.set(x as usize, (sum % 256) as u8);
                Ok(())
            },
            (8, x, y, 5) => {
                let vx = self.registers[x as usize];
                let vy = self.registers[y as usize];
                if vx >= vy {
                    self.registers.set(0xF, 1);
                    self.registers.set(x as usize, vx - vy);
                } else {
                    self.registers.set(0xF, 0);
                    let positive_diff = vy - vx;
                    self.registers.set(x as usize, 255 - positive_diff + 1);
                }
                Ok(())
            },
            (8, x, y, 6) => {
                if self.chip_type == ChipType::Chip8 {
                    let vy = self.registers[y as usize];
                    self.registers.set(x as usize, vy);
                }
                let vx = self.registers[x as usize];
                let lsb = vx & 1;
                proof {
                    assert(vx >> 1u8 == vx / 2 && (vx & 1) == vx % 2) by (bit_vector);
                    assert(old(self).registers@.update(x as int, vx).update(x as int, vx / 2)
                        =~= old(self).registers@.update(x as int, vx / 2));
                }
                self.registers.set(x as usize, vx >> 1);
                self.registers.set(0xF, lsb);
                Ok(())
            },
            (8, x, y, 7) => {
                let vx = self.registers[x as usize];
                let vy = self.registers[y as usize];
                if vy >= vx {
                    self.registers.set(0xF, 1);
                    self.registers.set(x as usize, vy - vx);
                } else {
                    self.registers.set(0xF, 0);
                    let positive_diff = vx - vy;
                    self.registers.set(x as usize, 255 - positive_diff + 1);
                }
                Ok(())
            },
            (8, x, y, 0xE) => {
                if self.chip_type == ChipType::Chip8 {
                    let vy = self.registers[y as usize];
                    self.registers.set(x as usize, vy);
                }
                let vx = self.registers[x as usize];
                let msb = (vx >> 7) & 1;
                proof {
                    assert((vx << 1u8) == (vx * 2) % 256 && ((vx >> 7u8) & 1) == vx / 128)
                        by (bit_vector);
                    assert(old(self).registers@.update(x as int, vx).update(
                        x as int,
                        ((vx * 2) % 256) as u8,
                    ) =~= old(self).registers@.update(x as int, ((vx * 2) % 256) as u8));
                }
                self.registers.set(x as usize, vx << 1);
                self.registers.set(0xF, msb);
                Ok(())
            },
            (9, x, y, 0) => {
                if self.registers[x as usize] != self.registers[y as usize] {
                    self.pc = self.pc + 2;
                }
                Ok(())
            },
            (0xA, _, _, _) => {
                self.i = nnn;
                Ok(())
            },
            (0xB, x, _, _) => {
                let register_index = if self.chip_type == ChipType::SuperChip {
                    x as usize
                } else {
                    0
                };
                self.pc = self.registers[register_index] as usize + nnn;
                Ok(())
            },
            (0xC, x, _, _) => {
                self.set_vx_rand(x, nn);
                proof {
                    let b = choose|b: u8|
                        self.registers@ == old(self).registers@.update(x as int, b & nn);
                    assert(self.registers@ == old(self).registers@.update(
                        decoded_instruction.x() as int,
                        b & decoded_instruction.nn,
                    ));
                }
                Ok(())
            },
            (0xD, x, y, n) => self.draw(x, y, n),
            (0xE, x, 0x9, 0xE) => {
                let vx = self.registers[x as usize];
                if keypad.is_key_down(vx) {
                    self.pc = self.pc + 2;
                }
                Ok(())
            },
            (0xE, x, 0xA, 0x1) => {
                let vx = self.registers[x as usize];
                if !keypad.is_key_down(vx) {
                    self.pc = self.pc + 2;
                }
                Ok(())
            },
            (0xF, x, 0x0, 0x7) => {
                let v = self.delay_timer.get();
                self.registers.set(x as usize, v);
                Ok(())
            },
            (0xF, x, 0x0, 0xA) => {
                let key = keypad.poll_or_await_key_press();
                self.registers.set(x as usize, key);
                proof {
                    assert(self.registers@ == old(self).registers@.update(
                        decoded_instruction.x() as int,
                        key,
                    ));
                }
                Ok(())
            },
            (0xF, x, 0x1, 0x5) => {
                let vx = self.registers[x as usize];
                self.delay_timer.set(vx, now_ms);
                Ok(())
            },
            (0xF, x, 0x1, 0x8) => {
                let vx = self.registers[x as usize];
                self.sound_timer.set(vx, now_ms);
                Ok(())
            },
            (0xF, x, 0x1, 0xE) => {
                let vx = self.registers[x as usize] as usize;
                if self.i <= usize::MAX - vx {
                    self.i = self.i + vx;
                } else {
                    self.i = usize::MAX;
                }
                Ok(())
            },
            (0xF, x, 0x2, 0x9) => {
                let vx = self.registers[x as usize] as usize;
                self.i = FONT_ADDR + vx * font::FONT_SIZE;
                Ok(())
            },
            (0xF, x, 0x3, 0x3) => self.store_bcd(x),
            (0xF, x, 0x5, 0x5) => self.store_registers(x),
            (0xF, x, 0x6, 0x5) => self.load_registers(x),
            _ => Ok(()),
        }
    }
}

/// The post-fetch part of one tick under the already-decoded instruction
/// `d`: the result and every component of the state land on the same
/// transition functions as [`Chip::execute`], with the program counter the
/// fetch left behind as `pc0`, and, when the instruction succeeds, both
/// timers refreshed against the injected clock afterwards.
pub open spec fn step_rel_with(
    pre: Chip,
    post: Chip,
    d: DecodedInstruction,
    r: Result<(), ChipError>,
    now_ms: u64,
) -> bool {
    let pc0 = (pre.pc + 2) as usize;
    &&& r == exec_result(pre, d)
    &&& post.memory@ == mem_after(pre, d)
    &&& regs_rel(pre, post, d)
    &&& post.stack@ == stack_after(pre, d, pc0)
    &&& post.stack_level as int == level_after(pre, d)
    &&& post.display.display@ == display_after(pre, d)
    &&& post.delay_timer == (if exec_err(pre, d) is Some {
        pre.delay_timer
    } else {
        delay_after(pre, d, now_ms).refreshed(now_ms)
    })
    &&& post.sound_timer == (if exec_err(pre, d) is Some {
        pre.sound_timer
    } else {
        sound_after(pre, d, now_ms).refreshed(now_ms)
    })
    &&& post.i as int == i_after(pre, d)
    &&& pc_rel(pre, post, d, pc0)
    &&& post.chip_type == pre.chip_type
}

/// One whole tick: when the program counter can read a two-byte opcode, the
/// machine behaves as [`step_rel_with`] under the decoding of that opcode;
/// when it cannot, the tick fails with the bounds error and changes nothing.
pub open spec fn step_rel(pre: Chip, post: Chip, r: Result<(), ChipError>, now_ms: u64) -> bool {
    if pre.pc + 1 < 4096 {
        exists|d: DecodedInstruction|
            #[trigger] decodes(word_at(pre.memory@, pre.pc as int), d) && d.wf() && step_rel_with(
                pre,
                post,
                d,
                r,
                now_ms,
            )
    } else {
        r == Err::<(), ChipError>(ChipError::MemoryOutOfBounds) && same_state(pre, post)
    }
}

impl Chip {
    /// One tick: fetch the opcode at the program counter, decode it, execute
    /// it, and refresh both timers — in that order, fully synchronously. A
    /// fatal condition aborts the tick with its error.
    pub fn step<K: Keypad>(&mut self, keypad: &mut K, now_ms: u64) -> (r: Result<(), ChipError>)
        requires
            old(self).wf(),
        ensures
            final(self).wf(),
            step_rel(*old(self), *final(self), r, now_ms),
    {
        let instruction = match self.fetch() {
            Ok(w) => w,
            Err(e) => {
                return Err(e);
            },
        };
        let decoded_instruction = self.decode(instruction);
        let ghost mid = *self;
        let result = self.execute(decoded_instruction, keypad, now_ms);
        proof {
            lemma_transitions_ignore_pc(*old(self), mid, decoded_instruction, now_ms, self.pc);
        }
        match result {
            Ok(()) => {},
            Err(e) => {
                proof {
                    assert(decodes(
                        word_at(old(self).memory@, old(self).pc as int),
                        decoded_instruction,
                    ) && decoded_instruction.wf() && step_rel_with(
                        *old(self),
                        *self,
                        decoded_instruction,
                        Err(e),
                        now_ms,
                    ));
                }
                return Err(e);
            },
        }
        self.check_timers(now_ms);
        proof {
            assert(decodes(word_at(old(self).memory@, old(self).pc as int), decoded_instruction)
                && decoded_instruction.wf() && step_rel_with(
                *old(self),
                *self,
                decoded_instruction,
                Ok(()),
                now_ms,
            ));
        }
        Ok(())
    }
}

/// None of the per-instruction transition functions reads the program
/// counter, so two states that differ only there transition alike.
proof fn lemma_transitions_ignore_pc(
    pre: Chip,
    mid: Chip,
    d: DecodedInstruction,
    now_ms: u64,
    pc0: usize,
)
    requires
        mid.memory@ == pre.memory@,
        mid.registers@ == pre.registers@,
        mid.stack@ == pre.stack@,
        mid.stack_level == pre.stack_level,
        mid.display.display@ == pre.display.display@,
        mid.delay_timer == pre.delay_timer,
        mid.sound_timer == pre.sound_timer,
        mid.i == pre.i,
        mid.chip_type == pre.chip_type,
    ensures
        exec_err(mid, d) == exec_err(pre, d),
        exec_result(mid, d) == exec_result(pre, d),
        mem_after(mid, d) == mem_after(pre, d),
        regs_after(mid, d) == regs_after(pre, d),
        stack_after(mid, d, pc0) == stack_after(pre, d, pc0),
        level_after(mid, d) == level_after(pre, d),
        display_after(mid, d) == display_after(pre, d),
        delay_after(mid, d, now_ms) == delay_after(pre, d, now_ms),
        sound_after(mid, d, now_ms) == sound_after(pre, d, now_ms),
        i_after(mid, d) == i_after(pre, d),
        pc_after(mid, d, pc0) == pc_after(pre, d, pc0),
        forall|post: Chip| regs_rel(mid, post, d) == #[trigger] regs_rel(pre, post, d),
        forall|post: Chip| pc_rel(mid, post, d, pc0) == #[trigger] pc_rel(pre, post, d, pc0),
{
    if exec_err(pre, d) is None {
        if op_store_regs(d) {
            assert(stored_block(mid.memory@, mid.registers@, mid.i as int, d.x() as int)
                =~= stored_block(pre.memory@, pre.registers@, pre.i as int, d.x() as int));
        }
        if op_load_regs(d) {
            assert(loaded_block(mid.memory@, mid.registers@, mid.i as int, d.x() as int)
                =~= loaded_block(pre.memory@, pre.registers@, pre.i as int, d.x() as int));
        }
    }
}

/// Relies on rand::random: one byte from the thread-local generator. Nothing
/// is assumed about its value.
#[verifier::external_body]
fn random_byte() -> u8 {
    rand::random::<u8>()
}

/// Everything except the register file and the program-flow state is
/// unchanged.
pub open spec fn same_core_but_regs(pre: Chip, post: Chip) -> bool {
    &&& post.memory@ == pre.memory@
    &&& post.display.display@ == pre.display.display@
    &&& post.delay_timer == pre.delay_timer
    &&& post.sound_timer == pre.sound_timer
    &&& post.i == pre.i
    &&& post.chip_type == pre.chip_type
}

/// Everything except memory and the program-flow state is unchanged.
pub open spec fn same_core_but_mem(pre: Chip, post: Chip) -> bool {
    &&& post.registers@ == pre.registers@
    &&& post.display.display@ == pre.display.display@
    &&& post.delay_timer == pre.delay_timer
    &&& post.sound_timer == pre.sound_timer
    &&& post.i == pre.i
    &&& post.chip_type == pre.chip_type
}

/// Value of register `x` before the instruction.
pub open spec fn vx_of(pre: Chip, d: DecodedInstruction) -> u8 {
    pre.registers@[d.x() as int]
}

/// Value of register `y` before the instruction.
pub open spec fn vy_of(pre: Chip, d: DecodedInstruction) -> u8 {
    pre.registers@[d.y() as int]
}

/// The clear-screen instruction.
pub open spec fn op_clear(d: DecodedInstruction) -> bool {
    d.op() == 0 && d.x() == 0 && d.y() == 0xE && d.n() == 0
}

/// The return-from-subroutine instruction.
pub open spec fn op_return(d: DecodedInstruction) -> bool {
    d.op() == 0 && d.x() == 0 && d.y() == 0xE && d.n() == 0xE
}

/// The binary-coded-decimal store.
pub open spec fn op_bcd(d: DecodedInstruction) -> bool {
    d.op() == 0xF && d.y() == 3 && d.n() == 3
}

/// The register-block store to memory.
pub open spec fn op_store_regs(d: DecodedInstruction) -> bool {
    d.op() == 0xF && d.y() == 5 && d.n() == 5
}

/// The register-block load from memory.
pub open spec fn op_load_regs(d: DecodedInstruction) -> bool {
    d.op() == 0xF && d.y() == 6 && d.n() == 5
}

/// The skip-if-key-down instruction.
pub open spec fn op_skip_key(d: DecodedInstruction) -> bool {
    d.op() == 0xE && d.y() == 9 && d.n() == 0xE
}

/// The skip-if-key-up instruction.
pub open spec fn op_skip_not_key(d: DecodedInstruction) -> bool {
    d.op() == 0xE && d.y() == 0xA && d.n() == 1
}

/// The masked-random instruction.
pub open spec fn op_random(d: DecodedInstruction) -> bool {
    d.op() == 0xC
}

/// The await-key instruction.
pub open spec fn op_await_key(d: DecodedInstruction) -> bool {
    d.op() == 0xF && d.y() == 0 && d.n() == 0xA
}

/// The fatal outcome of executing `d` in state `pre`, if any: a return on an
/// empty stack underflows, a call on a full stack overflows, and a draw,
/// decimal store or register-block transfer whose index-register window
/// reaches past memory is a bounds violation. Every other instruction,
/// including every unknown pattern, succeeds.
pub open spec fn exec_err(pre: Chip, d: DecodedInstruction) -> Option<ChipError> {
    if op_return(d) {
        if pre.stack_level == 0 {
            Some(ChipError::StackUnderflow)
        } else {
            None
        }
    } else if d.op() == 2 {
        if pre.stack_level >= 32 {
            Some(ChipError::StackOverflow)
        } else {
            None
        }
    } else if d.op() == 0xD {
        if d.n() > 0 && pre.i + d.n() > 4096 {
            Some(ChipError::MemoryOutOfBounds)
        } else {
            None
        }
    } else if op_bcd(d) {
        if pre.i + 2 >= 4096 {
            Some(ChipError::MemoryOutOfBounds)
        } else {
            None
        }
    } else if op_store_regs(d) || op_load_regs(d) {
        if pre.i + d.x() >= 4096 {
            Some(ChipError::MemoryOutOfBounds)
        } else {
            None
        }
    } else {
        None
    }
}

/// [`exec_err`] as the `Result` the executor returns.
pub open spec fn exec_result(pre: Chip, d: DecodedInstruction) -> Result<(), ChipError> {
    match exec_err(pre, d) {
        Some(e) => Err(e),
        None => Ok(()),
    }
}

/// Byte addition modulo 256.
pub open spec fn add8(a: u8, b: u8) -> u8 {
    ((a + b) % 256) as u8
}

/// Byte subtraction modulo 256.
pub open spec fn sub8(a: u8, b: u8) -> u8 {
    ((a - b) % 256) as u8
}

/// Memory with registers 0 through `x` stored at addresses `i` through
/// `i + x`.
pub open spec fn stored_block(mem: Seq<u8>, regs: Seq<u8>, i: int, x: int) -> Seq<u8> {
    Seq::new(
        mem.len(),
        |a: int|
            if i <= a <= i + x {
                regs[a - i]
            } else {
                mem[a]
            },
    )
}

/// Registers with entries 0 through `x` loaded from addresses `i` through
/// `i + x`.
pub open spec fn loaded_block(mem: Seq<u8>, regs: Seq<u8>, i: int, x: int) -> Seq<u8> {
    Seq::new(
        regs.len(),
        |k: int|
            if k <= x {
                mem[i + k]
            } else {
                regs[k]
            },
    )
}

/// The register file after the deterministic instructions. The skip, jump,
/// call and store instructions leave it alone; the arithmetic family writes
/// `Vx` and, for most members, the flag register `VF`: the add sets `VF` to
/// the carry out of `(Vx + Vy) mod 256`, the two subtractions set it to 1
/// exactly when no borrow occurs, the shifts receive the bit shifted out of
/// the source — which on the original variant is `Vy`, copied into `Vx`
/// first, and on the newer variant `Vx` itself — and on the original variant
/// the three bitwise instructions force `VF` to 0. A draw leaves the
/// collision flag in `VF`.
pub open spec fn regs_after(pre: Chip, d: DecodedInstruction) -> Seq<u8> {
    if exec_err(pre, d) is Some {
        pre.registers@
    } else {
        let regs = pre.registers@;
        let x = d.x() as int;
        let vx = vx_of(pre, d);
        let vy = vy_of(pre, d);
        if d.op() == 6 {
            regs.update(x, d.nn)
        } else if d.op() == 7 {
            regs.update(x, add8(vx, d.nn))
        } else if d.op() == 8 {
            if d.n() == 0 {
                regs.update(x, vy)
            } else if d.n() == 1 {
                if pre.chip_type == ChipType::Chip8 {
                    regs.update(x, vx | vy).update(15, 0u8)
                } else {
                    regs.update(x, vx | vy)
                }
            } else if d.n() == 2 {
                if pre.chip_type == ChipType::Chip8 {
                    regs.update(x, vx & vy).update(15, 0u8)
                } else {
                    regs.update(x, vx & vy)
                }
            } else if d.n() == 3 {
                if pre.chip_type == ChipType::Chip8 {
                    regs.update(x, vx ^ vy).update(15, 0u8)
                } else {
                    regs.update(x, vx ^ vy)
                }
            } else if d.n() == 4 {
                regs.update(
                    15,
                    if vx + vy > 255 {
                        1u8
                    } else {
                        0u8
                    },
                ).update(x, add8(vx, vy))
            } else if d.n() == 5 {
                regs.update(
                    15,
                    if vx >= vy {
                        1u8
                    } else {
                        0u8
                    },
                ).update(x, sub8(vx, vy))
            } else if d.n() == 6 {
                let src = if pre.chip_type == ChipType::Chip8 {
                    vy
                } else {
                    vx
                };
                regs.update(x, (src / 2) as u8).update(15, (src % 2) as u8)
            } else if d.n() == 7 {
                regs.update(
                    15,
                    if vy >= vx {
                        1u8
                    } else {
                        0u8
                    },
                ).update(x, sub8(vy, vx))
            } else if d.n() == 0xE {
                let src = if pre.chip_type == ChipType::Chip8 {
                    vy
                } else {
                    vx
                };
                regs.update(x, ((src * 2) % 256) as u8).update(15, (src / 128) as u8)
            } else {
                regs
            }
        } else if d.op() == 0xD {
            regs.update(
                15,
                if draw_collides(
                    pre.display.display@,
                    vx as int,
                    vy as int,
                    d.n() as int,
                    pre.memory@.subrange(pre.i as int, pre.i + d.n()),
                ) {
                    1u8
                } else {
                    0u8
                },
            )
        } else if d.op() == 0xF && d.y() == 0 && d.n() == 7 {
            regs.update(x, pre.delay_timer.value)
        } else if op_load_regs(d) {
            loaded_block(pre.memory@, regs, pre.i as int, x)
        } else {
            regs
        }
    }
}

/// How the register file relates across one instruction: deterministic
/// instructions produce [`regs_after`]; the masked-random instruction stores
/// some byte ANDed with the immediate mask, and the await-key instruction
/// stores some key value — nothing more is promised of either.
pub open spec fn regs_rel(pre: Chip, post: Chip, d: DecodedInstruction) -> bool {
    if exec_err(pre, d) is Some {
        post.registers@ == pre.registers@
    } else if op_random(d) {
        exists|b: u8| post.registers@ == pre.registers@.update(d.x() as int, b & d.nn)
    } else if op_await_key(d) {
        exists|k: u8| post.registers@ == pre.registers@.update(d.x() as int, k)
    } else {
        post.registers@ == regs_after(pre, d)
    }
}

/// Memory after one instruction: the decimal store writes the hundreds, tens
/// and ones digits of `Vx` at the index register, the register-block store
/// writes registers 0 through `x` there, and nothing else writes memory.
pub open spec fn mem_after(pre: Chip, d: DecodedInstruction) -> Seq<u8> {
    if exec_err(pre, d) is Some {
        pre.memory@
    } else if op_bcd(d) {
        let vx = vx_of(pre, d);
        pre.memory@.update(pre.i as int, (vx / 100) as u8).update(
            pre.i + 1,
            ((vx / 10) % 10) as u8,
        ).update(pre.i + 2, (vx % 10) as u8)
    } else if op_store_regs(d) {
        stored_block(pre.memory@, pre.registers@, pre.i as int, d.x() as int)
    } else {
        pre.memory@
    }
}

/// The call stack after one instruction: only a call writes it, saving the
/// program counter `pc0` the instruction was executed under.
pub open spec fn stack_after(pre: Chip, d: DecodedInstruction, pc0: usize) -> Seq<usize> {
    if exec_err(pre, d) is None && d.op() == 2 {
        pre.stack@.update(pre.stack_level as int, pc0)
    } else {
        pre.stack@
    }
}

/// The stack level after one instruction: a call deepens it, a return pops
/// it.
pub open spec fn level_after(pre: Chip, d: DecodedInstruction) -> int {
    if exec_err(pre, d) is Some {
        pre.stack_level as int
    } else if d.op() == 2 {
        pre.stack_level + 1
    } else if op_return(d) {
        pre.stack_level - 1
    } else {
        pre.stack_level as int
    }
}

/// The display after one instruction: the clear instruction empties it and a
/// draw composites the sprite read from memory at the index register onto the
/// grid at the coordinates held in `Vx` and `Vy`.
pub open spec fn display_after(pre: Chip, d: DecodedInstruction) -> Seq<bool> {
    if exec_err(pre, d) is Some {
        pre.display.display@
    } else if op_clear(d) {
        cleared_grid()
    } else if d.op() == 0xD {
        grid_after_draw(
            pre.display.display@,
            vx_of(pre, d) as int,
            vy_of(pre, d) as int,
            d.n() as int,
            pre.memory@.subrange(pre.i as int, pre.i + d.n()),
        )
    } else {
        pre.display.display@
    }
}

/// The delay timer after one instruction: only the timer-write instruction
/// touches it, setting it from `Vx` against the injected clock.
pub open spec fn delay_after(pre: Chip, d: DecodedInstruction, now_ms: u64) -> Timer {
    if d.op() == 0xF && d.y() == 1 && d.n() == 5 {
        pre.delay_timer.set_to(vx_of(pre, d), now_ms)
    } else {
        pre.delay_timer
    }
}

/// The sound timer after one instruction.
pub open spec fn sound_after(pre: Chip, d: DecodedInstruction, now_ms: u64) -> Timer {
    if d.op() == 0xF && d.y() == 1 && d.n() == 8 {
        pre.sound_timer.set_to(vx_of(pre, d), now_ms)
    } else {
        pre.sound_timer
    }
}

/// The index register after one instruction. The add-to-index instruction
/// performs plain unbounded addition — the register is not masked to 12 bits
/// — saturating only at the machine word's limit; the font-address
/// instruction points it at glyph `Vx`; the register-block transfers advance
/// it by `x` on the original variant and leave it alone on the newer one.
pub open spec fn i_after(pre: Chip, d: DecodedInstruction) -> int {
    if exec_err(pre, d) is Some {
        pre.i as int
    } else if d.op() == 0xA {
        d.nnn as int
    } else if d.op() == 0xF && d.y() == 1 && d.n() == 0xE {
        if pre.i + vx_of(pre, d) <= usize::MAX {
            pre.i + vx_of(pre, d)
        } else {
            usize::MAX as int
        }
    } else if d.op() == 0xF && d.y() == 2 && d.n() == 9 {
        0x50 + vx_of(pre, d) * 5
    } else if (op_store_regs(d) || op_load_regs(d)) && pre.chip_type == ChipType::Chip8 {
        pre.i + d.x()
    } else {
        pre.i as int
    }
}

/// The program counter after the deterministic instructions, executed under
/// counter `pc0`: jumps and calls assign it, a return pops it, the four skip
/// instructions advance it by two more when their comparison holds, and the
/// offset jump adds the address to `V0` — or to `Vx` on the newer variant.
pub open spec fn pc_after(pre: Chip, d: DecodedInstruction, pc0: usize) -> int {
    if exec_err(pre, d) is Some {
        pc0 as int
    } else if d.op() == 1 {
        d.nnn as int
    } else if d.op() == 2 {
        d.nnn as int
    } else if op_return(d) {
        pre.stack@[pre.stack_level - 1] as int
    } else if d.op() == 3 {
        pc0 + (if vx_of(pre, d) == d.nn {
            2int
        } else {
            0int
        })
    } else if d.op() == 4 {
        pc0 + (if vx_of(pre, d) != d.nn {
            2int
        } else {
            0int
        })
    } else if d.op() == 5 && d.n() == 0 {
        pc0 + (if vx_of(pre, d) == vy_of(pre, d) {
            2int
        } else {
            0int
        })
    } else if d.op() == 9 && d.n() == 0 {
        pc0 + (if vx_of(pre, d) != vy_of(pre, d) {
            2int
        } else {
            0int
        })
    } else if d.op() == 0xB {
        let sel = if pre.chip_type == ChipType::SuperChip {
            d.x() as int
        } else {
            0int
        };
        pre.registers@[sel] + d.nnn
    } else {
        pc0 as int
    }
}

/// How the program counter relates across one instruction: the two key-skip
/// instructions consult the keypad, so they either advance by two more or do
/// not; every other instruction lands exactly on [`pc_after`].
pub open spec fn pc_rel(pre: Chip, post: Chip, d: DecodedInstruction, pc0: usize) -> bool {
    if exec_err(pre, d) is None && (op_skip_key(d) || op_skip_not_key(d)) {
        post.pc == pc0 || post.pc == pc0 + 2
    } else {
        post.pc as int == pc_after(pre, d, pc0)
    }
}

/// The parts of the state no control-flow operation touches: memory,
/// registers, display, timers, index register and variant flag.
pub open spec fn same_core(pre: Chip, post: Chip) -> bool {
    &&& post.memory@ == pre.memory@
    &&& post.registers@ == pre.registers@
    &&& post.display.display@ == pre.display.display@
    &&& post.delay_timer == pre.delay_timer
    &&& post.sound_timer == pre.sound_timer
    &&& post.i == pre.i
    &&& post.chip_type == pre.chip_type
}

/// Nothing observable changed.
pub open spec fn same_state(pre: Chip, post: Chip) -> bool {
    &&& same_core(pre, post)
    &&& post.stack@ == pre.stack@
    &&& post.stack_level == pre.stack_level
    &&& post.pc == pre.pc
}

/// After calling at every address of `addrs`, the level has grown by the
/// number of calls, the program counter sits at the last address, and the
/// stack holds the saved return points: the original counter first, then
/// each address but the last, with the slots outside that window untouched.
proof fn lemma_after_calls(pc: usize, stack: Seq<usize>, level: int, addrs: Seq<usize>)
    requires
        0 <= level,
        level + addrs.len() <= stack.len(),
    ensures
        ({
            let c = after_calls(pc, stack, level, addrs);
            &&& c.2 == level + addrs.len()
            &&& (addrs.len() == 0 ==> c.0 == pc)
            &&& (addrs.len() > 0 ==> c.0 == addrs.last())
            &&& c.1.len() == stack.len()
            &&& (forall|k: int| 0 <= k < level ==> c.1[k] == stack[k])
            &&& (forall|k: int| level + addrs.len() <= k < stack.len() ==> c.1[k] == stack[k])
            &&& (addrs.len() > 0 ==> c.1[level] == pc)
            &&& (forall|k: int|
                level + 1 <= k < level + addrs.len() ==> #[trigger] c.1[k] == addrs[k - level - 1])
        }),
    decreases addrs.len(),
{
    if addrs.len() > 0 {
        let stack1 = stack.update(level, pc);
        let rest = addrs.subrange(1, addrs.len() as int);
        lemma_after_calls(addrs[0], stack1, level + 1, rest);
        let c = after_calls(pc, stack, level, addrs);
        if addrs.len() > 1 {
            assert(rest.last() == addrs.last());
        }
        assert(c.1[level] == pc) by {
            assert(stack1[level] == pc);
        }
        assert forall|k: int| 0 <= k < level implies #[trigger] c.1[k] == stack[k] by {
            assert(c.1[k] == stack1[k]);
        }
        assert forall|k: int|
            level + addrs.len() <= k < stack.len() implies #[trigger] c.1[k] == stack[k] by {
            assert(c.1[k] == stack1[k]);
        }
        assert forall|k: int|
            level + 1 <= k < level + addrs.len() implies #[trigger] c.1[k] == addrs[k - level
            - 1] by {
            if k == level + 1 {
                assert(c.1[level + 1] == addrs[0]);
            } else {
                assert(c.1[k] == rest[k - (level + 1) - 1]);
                assert(rest[k - level - 2] == addrs[k - level - 1]);
            }
        }
    }
}

/// Returning never rewrites the stack contents: it only walks the level back
/// down, restoring at each step the counter saved one slot below.
proof fn lemma_after_returns(pc: usize, stack: Seq<usize>, level: int, j: int)
    requires
        0 <= j <= level,
    ensures
        ({
            let r = after_returns(pc, stack, level, j);
            &&& r.1 == stack
            &&& r.2 == level - j
            &&& (j >= 1 ==> r.0 == stack[level - j])
        }),
    decreases j,
{
    if j > 0 {
        lemma_after_returns(stack[level - 1], stack, level - 1, j - 1);
    }
}

/// The add instruction computes modular byte addition with a carry flag: for
/// any 8-bit values `a` in `Vx` and `b` in `Vy`, executing it stores
/// `(a + b) mod 256` in `Vx` and sets `VF` to 1 exactly when `a + b`
/// overflows a byte. Register 15 is the flag register itself, so the
/// statement excludes `x = 15`, where the sum overwrites the flag.
pub proof fn lemma_add_sets_sum_and_carry(pre: Chip, post: Chip, d: DecodedInstruction)
    requires
        pre.wf(),
        d.wf(),
        d.op() == 8,
        d.n() == 4,
        d.x() != 15,
        post.registers@ == regs_after(pre, d),
    ensures
        post.registers@[d.x() as int] as int == (vx_of(pre, d) + vy_of(pre, d)) % 256,
        post.registers@[15] == (if vx_of(pre, d) + vy_of(pre, d) > 255 {
            1u8
        } else {
            0u8
        }),
{
}

/// The shift-right instruction's variant split: on the original variant the
/// result depends on `Vy`, copied into `Vx` before shifting; on the newer
/// variant it depends only on `Vx`, with `Vy` ignored. In both cases `VF`
/// receives the bit shifted out of the source. Register 15 is the flag
/// register itself, so the statement excludes `x = 15`.
pub proof fn lemma_shift_right_variants(pre: Chip, post: Chip, d: DecodedInstruction)
    requires
        pre.wf(),
        d.wf(),
        d.op() == 8,
        d.n() == 6,
        d.x() != 15,
        post.registers@ == regs_after(pre, d),
    ensures
        pre.chip_type == ChipType::Chip8 ==> post.registers@[d.x() as int] == vy_of(pre, d) / 2
            && post.registers@[15] == vy_of(pre, d) % 2,
        pre.chip_type == ChipType::SuperChip ==> post.registers@[d.x() as int] == vx_of(pre, d) / 2
            && post.registers@[15] == vx_of(pre, d) % 2,
{
}

/// Nested calls unwind in exact reverse order: after calling at each address
/// of `addrs` in turn and then returning `j` times, the program counter holds
/// the `j`-th most recently saved address — an intermediate caller's address
/// for `j` below the call count, and the original counter once every call has
/// returned — and the stack level has dropped back by `j`.
pub proof fn lemma_nested_calls_unwind(
    pc: usize,
    stack: Seq<usize>,
    level: int,
    addrs: Seq<usize>,
    j: int,
)
    requires
        0 <= level,
        level + addrs.len() <= stack.len(),
        1 <= j <= addrs.len(),
    ensures
        ({
            let c = after_calls(pc, stack, level, addrs);
            let r = after_returns(c.0, c.1, c.2, j);
            &&& r.2 == level + addrs.len() - j
            &&& r.0 == (if j == addrs.len() {
                pc
            } else {
                addrs[addrs.len() - 1 - j]
            })
        }),
{
    let c = after_calls(pc, stack, level, addrs);
    lemma_after_calls(pc, stack, level, addrs);
    lemma_after_returns(c.0, c.1, c.2, j);
}

} // verus!
