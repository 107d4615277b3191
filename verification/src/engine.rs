//! The executable machine: construction, program loading, the fetch, decode
//! and execute cycle, timers and keypad.

use crate::display::Display;
use crate::error::Chip8Error;
use crate::machine::{
    flag, key_down, lowest_key_from, outcome, overlaid, wrap8, Machine, FLAG_REGISTER, FONT_SET,
    FONT_START, GLYPH_SIZE, MEMORY_SIZE, PROGRAM_START, STACK_LIMIT,
};
use crate::opcode::{decode, Instruction};
use crate::quirks::Quirks;
use rand::rngs::ThreadRng;
use rand::Rng;
use vstd::prelude::*;
use vstd::slice::slice_subrange;

verus! {

/// A CHIP-8 virtual machine. Its state is plain data, described by the
/// [`Machine`] that [`View`] gives for it.
#[derive(Clone, Debug)]
pub struct Chip8Engine {
    quirks: Quirks,
    stack: Vec<u16>,
    memory: [u8; 4096],
    registers: [u8; 16],
    index_register: u16,
    program_counter: u16,
    delay_timer: u8,
    sound_timer: u8,
    keypad: u16,
    previous_keypad: u16,
    awaiting_key: Option<u8>,
    display: Display,
}

impl View for Chip8Engine {
    type V = Machine;

    closed spec fn view(&self) -> Machine {
        Machine {
            quirks: self.quirks,
            memory: self.memory@,
            registers: self.registers@,
            index_register: self.index_register,
            program_counter: self.program_counter,
            stack: self.stack@,
            display: self.display@,
            delay_timer: self.delay_timer,
            sound_timer: self.sound_timer,
            keypad: self.keypad,
            previous_keypad: self.previous_keypad,
            awaiting_key: self.awaiting_key,
        }
    }
}

/// Writes `block` over `target` from position `start` on.
fn copy_block<const N: usize>(target: &mut [u8; N], start: usize, block: &[u8])
    requires
        start + block@.len() <= N,
    ensures
        final(target)@ == overlaid(old(target)@, start as int, block@),
{
    let ghost before = target@;
    let mut offset: usize = 0;
    while offset < block.len()
        invariant
            offset <= block@.len(),
            start + block@.len() <= N,
            target@.len() == N,
            before.len() == N,
            forall|position: int|
                0 <= position < N ==> #[trigger] target@[position] == if start <= position < start
                    + offset {
                    block@[position - start]
                } else {
                    before[position]
                },
        decreases block@.len() - offset,
    {
        target[start + offset] = block[offset];
        offset += 1;
    }
    proof {
        assert(target@ =~= overlaid(before, start as int, block@));
    }
}

/// 1 if the condition holds, else 0.
fn flag_of(condition: bool) -> (value: u8)
    ensures
        value == flag(condition),
{
    if condition {
        1
    } else {
        0
    }
}

/// The sum of two bytes modulo 256.
fn wrapping_sum(a: u8, b: u8) -> (sum: u8)
    ensures
        sum == wrap8(a + b),
{
    a.wrapping_add(b)
}

/// The difference of two bytes modulo 256.
fn wrapping_difference(a: u8, b: u8) -> (difference: u8)
    ensures
        difference == wrap8(a - b),
{
    a.wrapping_sub(b)
}

/// Whether key `key` is down in a keypad mask.
fn key_is_down(keypad: u16, key: u8) -> (down: bool)
    ensures
        down == key_down(keypad, key),
{
    key < 16 && keypad & (1u16 << key) != 0
}

/// The lowest key that is down in a keypad mask, if any.
fn lowest_key(keypad: u16) -> (key: Option<u8>)
    ensures
        key == lowest_key_from(keypad, 0),
{
    let mut candidate: u8 = 0;
    while candidate < 16
        invariant
            candidate <= 16,
            lowest_key_from(keypad, 0) == lowest_key_from(keypad, candidate),
        decreases 16 - candidate,
    {
        if key_is_down(keypad, candidate) {
            return Some(candidate);
        }
        candidate += 1;
    }
    None
}

/// The handle that `rand` gives to its thread-local generator. Nothing of
/// its inside is known here; it is only carried from one call to the next.
#[verifier::external_type_specification]
#[verifier::external_body]
pub struct ExThreadRng(rand::rngs::ThreadRng);

/// Calls `rand::thread_rng()`, which hands out the thread-local generator.
/// `rand` seeds it from the operating system on first use and gives up if
/// that fails. Nothing is claimed of the handle.
#[verifier::external_body]
fn thread_generator() -> (generator: ThreadRng) {
    rand::thread_rng()
}

/// Calls `Rng::gen_range(0..=255)` on the generator. The range is not empty,
/// which is all that `gen_range` asks for. `rand` documents the sample as
/// uniform over the range; that cannot be said in a contract, so nothing is
/// claimed of the byte: it may be any value and differs from call to call.
#[verifier::external_body]
fn random_byte(generator: &mut ThreadRng) -> (byte: u8) {
    generator.gen_range(0..=255)
}

impl Chip8Engine {
    /// The state is a well-formed [`Machine`].
    pub open spec fn well_formed(&self) -> bool {
        self@.well_formed()
    }

    /// Creates a machine with every quirk off.
    pub fn new() -> (engine: Chip8Engine)
        ensures
            engine.well_formed(),
            engine@ == Machine::initial(Quirks::baseline()),
    {
        Chip8Engine::with_quirks(Quirks::default())
    }

    /// Creates a machine with the given quirks: memory zeroed except for the
    /// font table at `0x50`, registers, timers, stack, keypad and display
    /// zeroed, and the program counter at `0x200`.
    pub fn with_quirks(quirks: Quirks) -> (engine: Chip8Engine)
        ensures
            engine.well_formed(),
            engine@ == Machine::initial(quirks),
    {
        let mut memory = [0u8; MEMORY_SIZE];
        let mut offset: usize = 0;
        while offset < 80
            invariant
                offset <= 80,
                forall|address: int|
                    0 <= address < 4096 ==> #[trigger] memory@[address] == if 0x50 <= address < 0x50
                        + offset {
                        FONT_SET@[address - 0x50]
                    } else {
                        0u8
                    },
            decreases 80 - offset,
        {
            memory[FONT_START + offset] = FONT_SET[offset];
            offset += 1;
        }
        let engine = Chip8Engine {
            quirks,
            stack: Vec::new(),
            memory,
            registers: [0u8; 16],
            index_register: 0,
            program_counter: PROGRAM_START as u16,
            delay_timer: 0,
            sound_timer: 0,
            keypad: 0,
            previous_keypad: 0,
            awaiting_key: None,
            display: Display::new(),
        };
        proof {
            let initial = Machine::initial(quirks);
            assert(engine@.memory =~= initial.memory);
            assert(engine@.registers =~= initial.registers);
            assert(engine@.display =~= initial.display);
            assert(engine@.stack =~= initial.stack);
        }
        engine
    }

    /// Copies a program into memory from `0x200` on. A program longer than
    /// the 3584 bytes available there is refused and nothing is written.
    /// Nothing but memory changes.
    pub fn load(&mut self, source: &[u8]) -> (r: Result<(), Chip8Error>)
        requires
            old(self).well_formed(),
        ensures
            final(self).well_formed(),
            source@.len() <= 3584 ==> r == Ok::<(), Chip8Error>(()) && final(self)@ == old(
                self,
            )@.loaded(source@),
            source@.len() > 3584 ==> r == Err::<(), Chip8Error>(
                Chip8Error::ProgramTooLarge { size: source@.len() as usize },
            ) && final(self)@ == old(self)@,
    {
        let length = source.len();
        if length > MEMORY_SIZE - PROGRAM_START {
            return Err(Chip8Error::ProgramTooLarge { size: length });
        }
        copy_block(&mut self.memory, PROGRAM_START, source);
        Ok(())
    }

    /// The address of the next instruction.
    pub fn program_counter(&self) -> (pc: u16)
        ensures
            pc == self@.program_counter,
    {
        self.program_counter
    }

    /// The index register `I`.
    pub fn index_register(&self) -> (i: u16)
        ensures
            i == self@.index_register,
    {
        self.index_register
    }

    /// The value of register `Vx`, or `None` if there is no such register.
    pub fn register(&self, x: usize) -> (value: Option<u8>)
        ensures
            value == if x < 16 {
                Some(self@.registers[x as int])
            } else {
                None
            },
    {
        if x < 16 {
            Some(self.registers[x])
        } else {
            None
        }
    }

    /// Sets register `Vx`. Returns whether there is such a register; if not,
    /// nothing changes.
    pub fn set_register(&mut self, x: usize, value: u8) -> (done: bool)
        ensures
            done == (x < 16),
            x < 16 ==> final(self)@ == old(self)@.with_register(x as u8, value),
            x >= 16 ==> final(self)@ == old(self)@,
            old(self).well_formed() ==> final(self).well_formed(),
    {
        if x < 16 {
            self.registers[x] = value;
            true
        } else {
            false
        }
    }

    /// A read-only view of the whole memory.
    pub fn memory(&self) -> (memory: &[u8; 4096])
        ensures
            memory@ == self@.memory,
    {
        &self.memory
    }

    /// The display buffer.
    pub fn display(&self) -> (display: &Display)
        ensures
            display@ == self@.display,
    {
        &self.display
    }

    /// The number of return addresses on the call stack.
    pub fn stack_depth(&self) -> (depth: usize)
        ensures
            depth == self@.stack.len(),
    {
        self.stack.len()
    }

    /// The delay timer.
    pub fn delay_timer(&self) -> (value: u8)
        ensures
            value == self@.delay_timer,
    {
        self.delay_timer
    }

    /// The sound timer.
    pub fn sound_timer(&self) -> (value: u8)
        ensures
            value == self@.sound_timer,
    {
        self.sound_timer
    }

    /// Whether a tone should be audible: the sound timer is above zero.
    pub fn sound_active(&self) -> (active: bool)
        ensures
            active == (self@.sound_timer > 0),
    {
        self.sound_timer > 0
    }

    /// The quirks this machine was built with.
    pub fn quirks(&self) -> (quirks: Quirks)
        ensures
            quirks == self@.quirks,
    {
        self.quirks
    }

    /// The keys that are down, bit `k` for key `k`, as last reported.
    pub fn keypad(&self) -> (keypad: u16)
        ensures
            keypad == self@.keypad,
    {
        self.keypad
    }

    /// Whether key `key` is down. There are no keys beyond `0xF`.
    pub fn is_key_down(&self, key: u8) -> (down: bool)
        ensures
            down == key_down(self@.keypad, key),
    {
        key_is_down(self.keypad, key)
    }

    /// Whether the machine is blocked until a key goes down. While it is,
    /// ticks do nothing.
    pub fn is_awaiting_key(&self) -> (blocked: bool)
        ensures
            blocked == self@.is_awaiting_key(),
    {
        self.awaiting_key.is_some()
    }

    /// Tells the machine which keys are down now, bit `k` for key `k`. A
    /// machine blocked on input resumes if a key went down with this update:
    /// the lowest such key is stored in the awaited register. Keys that were
    /// already held do not end the wait.
    pub fn set_keypad(&mut self, keypad: u16)
        requires
            old(self).well_formed(),
        ensures
            final(self).well_formed(),
            final(self)@ == old(self)@.keypad_updated(keypad),
    {
        let pressed = keypad & !self.keypad;
        self.previous_keypad = self.keypad;
        self.keypad = keypad;
        if let Some(x) = self.awaiting_key {
            if let Some(key) = lowest_key(pressed) {
                self.registers[x as usize] = key;
                self.awaiting_key = None;
            }
        }
    }

    /// Whether a key skip sees `key` as pressed.
    fn key_active(&self, key: u8) -> (active: bool)
        ensures
            active == self@.key_active(key),
    {
        if self.quirks.key_skip_is_edge_triggered {
            key_is_down(self.keypad & !self.previous_keypad, key)
        } else {
            key_is_down(self.keypad, key)
        }
    }

    /// Moves the program counter past one instruction.
    fn skip(&mut self)
        ensures
            final(self)@ == old(self)@.advanced(),
    {
        self.program_counter = self.program_counter.wrapping_add(2);
    }

    /// Turns every pixel off.
    fn clear_display(&mut self)
        ensures
            final(self)@ == old(self)@.executed(Instruction::ClearDisplay, 0),
    {
        self.display.clear();
        assert(self@.display =~= old(self)@.executed(Instruction::ClearDisplay, 0).display);
    }

    /// Sets the program counter.
    fn jump_to(&mut self, address: u16)
        ensures
            final(self)@ == (Machine { program_counter: address, ..old(self)@ }),
    {
        self.program_counter = address;
    }

    /// Sets the index register.
    fn set_index(&mut self, address: u16)
        ensures
            final(self)@ == (Machine { index_register: address, ..old(self)@ }),
    {
        self.index_register = address;
    }

    /// Skips the next instruction if the condition holds.
    fn skip_if(&mut self, condition: bool)
        ensures
            final(self)@ == if condition {
                old(self)@.advanced()
            } else {
                old(self)@
            },
    {
        if condition {
            self.skip();
        }
    }

    /// Writes `value` to `Vx`.
    fn write_register(&mut self, x: u8, value: u8)
        requires
            x < 16,
        ensures
            final(self)@ == old(self)@.with_register(x, value),
    {
        self.registers[x as usize] = value;
    }

    /// Writes `value` to `Vx` and then the flag to `VF`.
    fn write_result_and_flag(&mut self, x: u8, value: u8, flag: u8)
        requires
            x < 16,
        ensures
            final(self)@ == old(self)@.with_result_and_flag(x, value, flag),
    {
        self.registers[x as usize] = value;
        self.registers[FLAG_REGISTER] = flag;
    }

    /// Sets the index register as a block transfer of `count` bytes leaves
    /// it.
    fn finish_transfer(&mut self, count: u16)
        ensures
            final(self)@ == old(self)@.after_transfer(count as int),
    {
        if self.quirks.store_load_advances_index {
            self.index_register = self.index_register.wrapping_add(count);
        }
    }

    /// Pops the call stack into the program counter; fails on an empty
    /// stack.
    fn return_from_subroutine(&mut self) -> (r: Result<(), Chip8Error>)
        requires
            old(self).well_formed(),
        ensures
            final(self).well_formed(),
            r == outcome(old(self)@.execution_error(Instruction::Return)),
            final(self)@ == if r is Ok {
                old(self)@.executed(Instruction::Return, 0)
            } else {
                old(self)@
            },
    {
        let pc = self.program_counter;
        match self.stack.pop() {
            Some(address) => {
                self.program_counter = address;
                Ok(())
            },
            None => Err(Chip8Error::StackUnderflow { program_counter: pc, depth: 0 }),
        }
    }

    /// Pushes the program counter and jumps to `addr`; fails on a full
    /// stack.
    fn call_subroutine(&mut self, addr: u16) -> (r: Result<(), Chip8Error>)
        requires
            old(self).well_formed(),
        ensures
            final(self).well_formed(),
            r == outcome(old(self)@.execution_error(Instruction::Call { addr })),
            final(self)@ == if r is Ok {
                old(self)@.executed(Instruction::Call { addr }, 0)
            } else {
                old(self)@
            },
    {
        let pc = self.program_counter;
        let depth = self.stack.len();
        if depth >= STACK_LIMIT {
            return Err(Chip8Error::StackOverflow { program_counter: pc, depth });
        }
        self.stack.push(pc);
        self.program_counter = addr;
        Ok(())
    }

    /// The operand of a shift: `Vy` under the quirk, else `Vx`.
    fn shift_source(&self, x: u8, y: u8) -> (source: u8)
        requires
            x < 16,
            y < 16,
        ensures
            source == if self@.quirks.shift_uses_vy {
                self@.registers[y as int]
            } else {
                self@.registers[x as int]
            },
    {
        if self.quirks.shift_uses_vy {
            self.registers[y as usize]
        } else {
            self.registers[x as usize]
        }
    }

    /// Shifts right by one bit; `VF` receives the bit shifted out.
    fn shift_right(&mut self, x: u8, y: u8)
        requires
            x < 16,
            y < 16,
        ensures
            final(self)@ == old(self)@.executed(Instruction::ShiftRight { x, y }, 0),
    {
        let source = self.shift_source(x, y);
        assert(source >> 1 == source / 2 && source & 1 == source % 2) by (bit_vector);
        self.write_result_and_flag(x, source >> 1, source & 1);
    }

    /// Shifts left by one bit; `VF` receives the bit shifted out.
    fn shift_left(&mut self, x: u8, y: u8)
        requires
            x < 16,
            y < 16,
        ensures
            final(self)@ == old(self)@.executed(Instruction::ShiftLeft { x, y }, 0),
    {
        let source = self.shift_source(x, y);
        assert(source << 1 == (source * 2) % 256 && source >> 7 == source / 128) by (bit_vector);
        self.write_result_and_flag(x, source << 1, source >> 7);
    }

    /// Draws the `n`-row sprite at `I` with its corner at `(Vx, Vy)` taken
    /// modulo the display size; `VF` receives the collision flag.
    fn draw_sprite(&mut self, x: u8, y: u8, n: u8) -> (r: Result<(), Chip8Error>)
        requires
            old(self).well_formed(),
            x < 16,
            y < 16,
            n < 16,
        ensures
            final(self).well_formed(),
            r == outcome(old(self)@.execution_error(Instruction::Draw { x, y, n })),
            final(self)@ == if r is Ok {
                old(self)@.executed(Instruction::Draw { x, y, n }, 0)
            } else {
                old(self)@
            },
    {
        let start = self.index_register as usize;
        if start + n as usize > MEMORY_SIZE {
            return Err(
                Chip8Error::MemoryOutOfBounds { address: self.index_register, length: n as u16 },
            );
        }
        let sprite = slice_subrange(self.memory.as_slice(), start, start + n as usize);
        let collision = self.display.draw(
            sprite,
            self.registers[x as usize],
            self.registers[y as usize],
            self.quirks.sprites_wrap_at_edges,
        );
        self.registers[FLAG_REGISTER] = flag_of(collision);
        Ok(())
    }

    /// Writes the hundreds, tens and ones of `Vx` to `I`, `I+1`, `I+2`.
    fn store_bcd(&mut self, x: u8) -> (r: Result<(), Chip8Error>)
        requires
            old(self).well_formed(),
            x < 16,
        ensures
            final(self).well_formed(),
            r == outcome(old(self)@.execution_error(Instruction::StoreBcd { x })),
            final(self)@ == if r is Ok {
                old(self)@.executed(Instruction::StoreBcd { x }, 0)
            } else {
                old(self)@
            },
    {
        let start = self.index_register as usize;
        if start + 3 > MEMORY_SIZE {
            return Err(Chip8Error::MemoryOutOfBounds { address: self.index_register, length: 3 });
        }
        let value = self.registers[x as usize];
        self.memory[start] = value / 100;
        self.memory[start + 1] = (value / 10) % 10;
        self.memory[start + 2] = value % 10;
        Ok(())
    }

    /// Copies `V0..=Vx` to memory at `I`.
    fn store_registers(&mut self, x: u8) -> (r: Result<(), Chip8Error>)
        requires
            old(self).well_formed(),
            x < 16,
        ensures
            final(self).well_formed(),
            r == outcome(old(self)@.execution_error(Instruction::StoreRegisters { x })),
            final(self)@ == if r is Ok {
                old(self)@.executed(Instruction::StoreRegisters { x }, 0)
            } else {
                old(self)@
            },
    {
        let start = self.index_register as usize;
        let count = x as usize + 1;
        if start + count > MEMORY_SIZE {
            return Err(
                Chip8Error::MemoryOutOfBounds {
                    address: self.index_register,
                    length: count as u16,
                },
            );
        }
        let block = slice_subrange(self.registers.as_slice(), 0, count);
        copy_block(&mut self.memory, start, block);
        self.finish_transfer(count as u16);
        Ok(())
    }

    /// Copies memory at `I` to `V0..=Vx`.
    fn load_registers(&mut self, x: u8) -> (r: Result<(), Chip8Error>)
        requires
            old(self).well_formed(),
            x < 16,
        ensures
            final(self).well_formed(),
            r == outcome(old(self)@.execution_error(Instruction::LoadRegisters { x })),
            final(self)@ == if r is Ok {
                old(self)@.executed(Instruction::LoadRegisters { x }, 0)
            } else {
                old(self)@
            },
    {
        let start = self.index_register as usize;
        let count = x as usize + 1;
        if start + count > MEMORY_SIZE {
            return Err(
                Chip8Error::MemoryOutOfBounds {
                    address: self.index_register,
                    length: count as u16,
                },
            );
        }
        let block = slice_subrange(self.memory.as_slice(), start, start + count);
        copy_block(&mut self.registers, 0, block);
        self.finish_transfer(count as u16);
        Ok(())
    }

    /// Adds `Vx` to the index register: as a 16-bit sum under the quirk,
    /// else masked to 12 bits.
    fn add_to_index(&mut self, x: u8)
        requires
            x < 16,
        ensures
            final(self)@ == old(self)@.executed(Instruction::AddToIndex { x }, 0),
    {
        let offset = self.registers[x as usize] as u16;
        if self.quirks.index_overflow_wraps_to_4096 {
            self.index_register = self.index_register.wrapping_add(offset);
        } else {
            let sum: u32 = self.index_register as u32 + offset as u32;
            self.index_register = (sum % 0x1000) as u16;
        }
    }

    /// Carries out one decoded instruction on the state as the fetch left
    /// it, with `random` as the byte drawn for it. Fails, leaving the state
    /// untouched, exactly when [`Machine::execution_error`] names an error.
    pub fn execute(&mut self, instruction: Instruction, random: u8) -> (r: Result<(), Chip8Error>)
        requires
            old(self).well_formed(),
            instruction.well_formed(),
        ensures
            final(self).well_formed(),
            r == outcome(old(self)@.execution_error(instruction)),
            final(self)@ == if r is Ok {
                old(self)@.executed(instruction, random)
            } else {
                old(self)@
            },
    {
        match instruction {
            Instruction::ClearDisplay => self.clear_display(),
            Instruction::Return => {
                return self.return_from_subroutine();
            },
            Instruction::Jump { addr } => self.jump_to(addr),
            Instruction::Call { addr } => {
                return self.call_subroutine(addr);
            },
            Instruction::SkipIfEqual { x, kk } => self.skip_if(self.registers[x as usize] == kk),
            Instruction::SkipIfNotEqual { x, kk } => self.skip_if(self.registers[x as usize] != kk),
            Instruction::SkipIfRegistersEqual { x, y } => self.skip_if(
                self.registers[x as usize] == self.registers[y as usize],
            ),
            Instruction::SkipIfRegistersNotEqual { x, y } => self.skip_if(
                self.registers[x as usize] != self.registers[y as usize],
            ),
            Instruction::LoadImmediate { x, kk } => self.write_register(x, kk),
            Instruction::AddImmediate { x, kk } => self.write_register(
                x,
                wrapping_sum(self.registers[x as usize], kk),
            ),
            Instruction::Copy { x, y } => self.write_register(x, self.registers[y as usize]),
            Instruction::Or { x, y } => self.write_register(
                x,
                self.registers[x as usize] | self.registers[y as usize],
            ),
            Instruction::And { x, y } => self.write_register(
                x,
                self.registers[x as usize] & self.registers[y as usize],
            ),
            Instruction::Xor { x, y } => self.write_register(
                x,
                self.registers[x as usize] ^ self.registers[y as usize],
            ),
            Instruction::AddRegisters { x, y } => {
                let vx = self.registers[x as usize];
                let vy = self.registers[y as usize];
                let carry = vx as u16 + vy as u16 > 255;
                self.write_result_and_flag(x, wrapping_sum(vx, vy), flag_of(carry));
            },
            Instruction::Subtract { x, y } => {
                let vx = self.registers[x as usize];
                let vy = self.registers[y as usize];
                self.write_result_and_flag(x, wrapping_difference(vx, vy), flag_of(vx >= vy));
            },
            Instruction::SubtractReversed { x, y } => {
                let vx = self.registers[x as usize];
                let vy = self.registers[y as usize];
                self.write_result_and_flag(x, wrapping_difference(vy, vx), flag_of(vy >= vx));
            },
            Instruction::ShiftRight { x, y } => self.shift_right(x, y),
            Instruction::ShiftLeft { x, y } => self.shift_left(x, y),
            Instruction::LoadIndex { addr } => self.set_index(addr),
            Instruction::JumpWithOffset { x, addr } => {
                let offset = if self.quirks.jump_offset_uses_vx_high_nibble {
                    self.registers[x as usize]
                } else {
                    self.registers[0]
                };
                self.jump_to(addr + offset as u16);
            },
            Instruction::Random { x, kk } => self.write_register(x, random & kk),
            Instruction::Draw { x, y, n } => {
                return self.draw_sprite(x, y, n);
            },
            Instruction::SkipIfKeyPressed { x } => self.skip_if(
                self.key_active(self.registers[x as usize]),
            ),
            Instruction::SkipIfKeyNotPressed { x } => self.skip_if(
                !self.key_active(self.registers[x as usize]),
            ),
            Instruction::LoadDelayTimer { x } => self.write_register(x, self.delay_timer),
            Instruction::AwaitKey { x } => {
                self.awaiting_key = Some(x);
            },
            Instruction::SetDelayTimer { x } => {
                self.delay_timer = self.registers[x as usize];
            },
            Instruction::SetSoundTimer { x } => {
                self.sound_timer = self.registers[x as usize];
            },
            Instruction::AddToIndex { x } => self.add_to_index(x),
            Instruction::LoadFontAddress { x } => self.set_index(
                FONT_START as u16 + GLYPH_SIZE * (self.registers[x as usize] as u16),
            ),
            Instruction::StoreBcd { x } => {
                return self.store_bcd(x);
            },
            Instruction::StoreRegisters { x } => {
                return self.store_registers(x);
            },
            Instruction::LoadRegisters { x } => {
                return self.load_registers(x);
            },
        }
        Ok(())
    }

    /// Whether the next tick executes the random instruction.
    fn next_is_random(&self) -> (random: bool)
        requires
            self.well_formed(),
        ensures
            random == self@.next_is_random(),
    {
        if self.awaiting_key.is_some() || !self.can_fetch() {
            return false;
        }
        let word = self.fetch_word();
        match decode(word) {
            Ok(Instruction::Random { x, kk }) => true,
            _ => false,
        }
    }

    /// Whether two bytes can be fetched at the program counter.
    fn can_fetch(&self) -> (possible: bool)
        ensures
            possible == self@.can_fetch(),
    {
        self.program_counter as usize + 1 < MEMORY_SIZE
    }

    /// The big-endian word at the program counter.
    fn fetch_word(&self) -> (word: u16)
        requires
            self@.can_fetch(),
        ensures
            word == self@.next_word(),
    {
        let high = self.memory[self.program_counter as usize];
        let low = self.memory[self.program_counter as usize + 1];
        assert(((high as u16) << 8) | (low as u16) == high * 256 + low) by (bit_vector);
        ((high as u16) << 8) | (low as u16)
    }

    /// One fetch, decode and execute cycle with `random` as the byte that a
    /// random instruction would draw. A machine blocked on input does
    /// nothing and succeeds. The error and the state afterwards are those of
    /// [`Machine::step_error`] and [`Machine::stepped`].
    pub fn step(&mut self, random: u8) -> (r: Result<(), Chip8Error>)
        requires
            old(self).well_formed(),
        ensures
            final(self).well_formed(),
            r == outcome(old(self)@.step_error()),
            final(self)@ == old(self)@.stepped(random),
    {
        if self.awaiting_key.is_some() {
            return Ok(());
        }
        let address = self.program_counter;
        if !self.can_fetch() {
            return Err(Chip8Error::MemoryOutOfBounds { address, length: 2 });
        }
        let word = self.fetch_word();
        self.skip();
        match decode(word) {
            Ok(instruction) => self.execute(instruction, random),
            Err(unknown) => Err(Chip8Error::UnknownInstruction { address, word: unknown.word }),
        }
    }

    /// Runs the fetch, decode and execute cycle for a single instruction. A
    /// random instruction draws its byte from the thread-local generator, so
    /// the state afterwards is that of [`Machine::stepped`] for some byte;
    /// for every other instruction the byte plays no part.
    pub fn tick(&mut self) -> (r: Result<(), Chip8Error>)
        requires
            old(self).well_formed(),
        ensures
            final(self).well_formed(),
            r == outcome(old(self)@.step_error()),
            exists|random: u8| final(self)@ == #[trigger] old(self)@.stepped(random),
            !old(self)@.next_is_random() ==> final(self)@ == old(self)@.stepped(0),
    {
        let random = if self.next_is_random() {
            let mut generator = thread_generator();
            random_byte(&mut generator)
        } else {
            0
        };
        self.step(random)
    }

    /// One firing of the 60 Hz clock: lowers each timer by one, never below
    /// zero.
    pub fn decrement_timers(&mut self)
        ensures
            final(self)@ == old(self)@.timers_ticked(),
            old(self).well_formed() ==> final(self).well_formed(),
    {
        if self.delay_timer > 0 {
            self.delay_timer -= 1;
        }
        if self.sound_timer > 0 {
            self.sound_timer -= 1;
        }
    }
}

} // verus!
