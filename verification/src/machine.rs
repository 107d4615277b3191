//! The mathematical model of the machine and the meaning of each instruction.

use crate::display::{collides, drawn, lemma_draw_twice_restores};
use crate::error::Chip8Error;
use crate::opcode::{decoded, Instruction};
use crate::quirks::Quirks;
use vstd::prelude::*;

verus! {

/// Number of addressable bytes.
pub const MEMORY_SIZE: usize = 4096;

/// Address at which programs are loaded and execution starts.
pub const PROGRAM_START: usize = 0x200;

/// Address of the first font glyph.
pub const FONT_START: usize = 0x50;

/// Bytes per font glyph.
pub const GLYPH_SIZE: u16 = 5;

/// Greatest number of return addresses on the call stack.
pub const STACK_LIMIT: usize = 16;

/// Index of the flag register `VF`.
pub const FLAG_REGISTER: usize = 0xF;

/// The sixteen font glyphs, five rows each, for the digits `0` to `F`.
pub const FONT_SET: [u8; 80] = [
    0xF0, 0x90, 0x90, 0x90, 0xF0,
    0x20, 0x60, 0x20, 0x20, 0x70,
    0xF0, 0x10, 0xF0, 0x80, 0xF0,
    0xF0, 0x10, 0xF0, 0x10, 0xF0,
    0x90, 0x90, 0xF0, 0x10, 0x10,
    0xF0, 0x80, 0xF0, 0x10, 0xF0,
    0xF0, 0x80, 0xF0, 0x90, 0xF0,
    0xF0, 0x10, 0x20, 0x40, 0x40,
    0xF0, 0x90, 0xF0, 0x90, 0xF0,
    0xF0, 0x90, 0xF0, 0x10, 0xF0,
    0xF0, 0x90, 0xF0, 0x90, 0x90,
    0xE0, 0x90, 0xE0, 0x90, 0xE0,
    0xF0, 0x80, 0x80, 0x80, 0xF0,
    0xE0, 0x90, 0x90, 0x90, 0xE0,
    0xF0, 0x80, 0xF0, 0x80, 0xF0,
    0xF0, 0x80, 0xF0, 0x80, 0x80,
];

/// The whole state of a machine as plain mathematical values.
pub struct Machine {
    /// The behaviour chosen for the ambiguous instructions.
    pub quirks: Quirks,
    /// The 4096 bytes of memory.
    pub memory: Seq<u8>,
    /// The registers `V0` to `VF`.
    pub registers: Seq<u8>,
    /// The index register `I`.
    pub index_register: u16,
    /// The address of the next instruction.
    pub program_counter: u16,
    /// The return addresses, the most recent call last.
    pub stack: Seq<u16>,
    /// The 2048 pixels, row by row.
    pub display: Seq<u8>,
    /// The delay timer.
    pub delay_timer: u8,
    /// The sound timer.
    pub sound_timer: u8,
    /// The keys that are down, bit `k` for key `k`.
    pub keypad: u16,
    /// The keys that were down before the latest keypad update.
    pub previous_keypad: u16,
    /// The register that receives the next key press while the machine is
    /// blocked on input; `None` while it is running.
    pub awaiting_key: Option<u8>,
}

/// Whether bit `key` of a keypad mask is set. Keys beyond `0xF` do not exist.
pub open spec fn key_down(keypad: u16, key: u8) -> bool {
    key < 16 && keypad & (1u16 << key) != 0
}

/// The keys that are down in `current` and were not in `previous`.
pub open spec fn newly_pressed(previous: u16, current: u16) -> u16 {
    current & !previous
}

/// The lowest key at or above `from` that is down in `keypad`.
pub open spec fn lowest_key_from(keypad: u16, from: u8) -> Option<u8>
    decreases 16 - from,
{
    if from >= 16 {
        None
    } else if key_down(keypad, from) {
        Some(from)
    } else {
        lowest_key_from(keypad, (from + 1) as u8)
    }
}

/// What [`lowest_key_from`] finds from key 0 on: a key that is down with no
/// key down below it, or nothing exactly when no key is down.
pub proof fn lemma_lowest_key(keypad: u16)
    ensures
        match lowest_key_from(keypad, 0) {
            Some(key) => key_down(keypad, key) && forall|lower: u8|
                lower < key ==> !key_down(keypad, lower),
            None => forall|key: u8| !key_down(keypad, key),
        },
{
    lemma_lowest_key_from(keypad, 0);
}

/// The same for a search that starts at key `from`.
proof fn lemma_lowest_key_from(keypad: u16, from: u8)
    ensures
        match lowest_key_from(keypad, from) {
            Some(key) => from <= key && key_down(keypad, key) && forall|lower: u8|
                from <= lower < key ==> !key_down(keypad, lower),
            None => forall|key: u8| from <= key ==> !key_down(keypad, key),
        },
    decreases 16 - from,
{
    if from < 16 && !key_down(keypad, from) {
        lemma_lowest_key_from(keypad, (from + 1) as u8);
    }
}

/// The big-endian word stored at `address` and `address + 1`.
pub open spec fn word_at(memory: Seq<u8>, address: int) -> u16 {
    (memory[address] * 256 + memory[address + 1]) as u16
}

/// The value of a `u8` sum or difference after wrapping.
pub open spec fn wrap8(value: int) -> u8 {
    (value % 256) as u8
}

/// The value of a `u16` sum after wrapping.
pub open spec fn wrap16(value: int) -> u16 {
    (value % 0x10000) as u16
}

/// `base` with `block` written over it from position `start` on.
pub open spec fn overlaid(base: Seq<u8>, start: int, block: Seq<u8>) -> Seq<u8> {
    Seq::new(
        base.len(),
        |position: int|
            if start <= position < start + block.len() {
                block[position - start]
            } else {
                base[position]
            },
    )
}

/// What an operation reports: the error if there is one, success otherwise.
pub open spec fn outcome(error: Option<Chip8Error>) -> Result<(), Chip8Error> {
    match error {
        Some(error) => Err(error),
        None => Ok(()),
    }
}

/// 1 if the condition holds, else 0.
pub open spec fn flag(condition: bool) -> u8 {
    if condition {
        1
    } else {
        0
    }
}

impl Machine {
    /// The shape every machine state has: the sizes of memory, register file
    /// and display, binary pixels, a bounded call stack, and a valid target
    /// register while blocked on input.
    pub open spec fn well_formed(self) -> bool {
        &&& self.memory.len() == 4096
        &&& self.registers.len() == 16
        &&& self.display.len() == 2048
        &&& crate::display::binary(self.display)
        &&& self.stack.len() <= 16
        &&& self.awaiting_key matches Some(x) ==> x < 16
    }

    /// The state of a newly built machine: memory zeroed except for the font
    /// table, everything else zero, execution about to start at `0x200`.
    pub open spec fn initial(quirks: Quirks) -> Machine {
        Machine {
            quirks,
            memory: Seq::new(
                4096,
                |address: int|
                    if 0x50 <= address < 0xA0 {
                        FONT_SET@[address - 0x50]
                    } else {
                        0u8
                    },
            ),
            registers: Seq::new(16, |register: int| 0u8),
            index_register: 0,
            program_counter: 0x200,
            stack: Seq::empty(),
            display: Seq::new(2048, |index: int| 0u8),
            delay_timer: 0,
            sound_timer: 0,
            keypad: 0,
            previous_keypad: 0,
            awaiting_key: None,
        }
    }

    /// Whether the machine is blocked until a key goes down.
    pub open spec fn is_awaiting_key(self) -> bool {
        self.awaiting_key is Some
    }

    /// The state with a program copied to memory from `0x200` on and nothing
    /// else touched.
    pub open spec fn loaded(self, program: Seq<u8>) -> Machine {
        Machine { memory: overlaid(self.memory, 0x200, program), ..self }
    }

    /// The state after one firing of the 60 Hz clock: each timer one lower,
    /// never below zero.
    pub open spec fn timers_ticked(self) -> Machine {
        Machine {
            delay_timer: if self.delay_timer > 0 {
                (self.delay_timer - 1) as u8
            } else {
                0
            },
            sound_timer: if self.sound_timer > 0 {
                (self.sound_timer - 1) as u8
            } else {
                0
            },
            ..self
        }
    }

    /// The state after the input source reports the keys that are now down.
    /// A machine blocked on input takes the lowest key that went down with
    /// this update, stores it in the awaited register and runs again; keys
    /// that were already held do not count.
    pub open spec fn keypad_updated(self, keypad: u16) -> Machine {
        let updated = Machine { keypad, previous_keypad: self.keypad, ..self };
        match (self.awaiting_key, lowest_key_from(newly_pressed(self.keypad, keypad), 0)) {
            (Some(x), Some(key)) => Machine {
                registers: self.registers.update(x as int, key),
                awaiting_key: None,
                ..updated
            },
            _ => updated,
        }
    }

    /// Whether a key skip sees `key` as pressed: held, or under the
    /// edge-triggered quirk, gone down with the latest keypad update.
    pub open spec fn key_active(self, key: u8) -> bool {
        if self.quirks.key_skip_is_edge_triggered {
            key_down(newly_pressed(self.previous_keypad, self.keypad), key)
        } else {
            key_down(self.keypad, key)
        }
    }

    /// Whether two bytes can be fetched at the program counter.
    pub open spec fn can_fetch(self) -> bool {
        self.program_counter + 1 < 4096
    }

    /// The instruction word at the program counter.
    pub open spec fn next_word(self) -> u16 {
        word_at(self.memory, self.program_counter as int)
    }

    /// The state with the program counter moved past one instruction. The
    /// counter is a 16-bit register and wraps as one.
    pub open spec fn advanced(self) -> Machine {
        Machine { program_counter: wrap16(self.program_counter + 2), ..self }
    }

    /// The state with `Vx` replaced.
    pub open spec fn with_register(self, x: u8, value: u8) -> Machine {
        Machine { registers: self.registers.update(x as int, value), ..self }
    }

    /// The state with `Vx` replaced and then the flag written to `VF`, so
    /// that the flag wins where `x` is `0xF`.
    pub open spec fn with_result_and_flag(self, x: u8, value: u8, flag: u8) -> Machine {
        Machine { registers: self.registers.update(x as int, value).update(15, flag), ..self }
    }

    /// The state with the index register set as a block transfer of
    /// `count` bytes leaves it.
    pub open spec fn after_transfer(self, count: int) -> Machine {
        if self.quirks.store_load_advances_index {
            Machine { index_register: wrap16(self.index_register + count), ..self }
        } else {
            self
        }
    }

    /// Why `instruction` cannot be carried out in this state, if it cannot.
    pub open spec fn execution_error(self, instruction: Instruction) -> Option<Chip8Error> {
        let pc = self.program_counter;
        let i = self.index_register;
        match instruction {
            Instruction::Return => if self.stack.len() == 0 {
                Some(Chip8Error::StackUnderflow { program_counter: pc, depth: 0 })
            } else {
                None
            },
            Instruction::Call { addr } => if self.stack.len() >= 16 {
                Some(
                    Chip8Error::StackOverflow {
                        program_counter: pc,
                        depth: self.stack.len() as usize,
                    },
                )
            } else {
                None
            },
            Instruction::Draw { x, y, n } => if i + n > 4096 {
                Some(Chip8Error::MemoryOutOfBounds { address: i, length: n as u16 })
            } else {
                None
            },
            Instruction::StoreBcd { x } => if i + 3 > 4096 {
                Some(Chip8Error::MemoryOutOfBounds { address: i, length: 3 })
            } else {
                None
            },
            Instruction::StoreRegisters { x } | Instruction::LoadRegisters { x } => if i + x + 1
                > 4096 {
                Some(Chip8Error::MemoryOutOfBounds { address: i, length: (x + 1) as u16 })
            } else {
                None
            },
            _ => None,
        }
    }

    /// The state after carrying out `instruction`, where that is possible.
    /// `self` is the state after the fetch, with the program counter already
    /// past the instruction; `random` is the byte drawn for it.
    pub open spec fn executed(self, instruction: Instruction, random: u8) -> Machine {
        let v = self.registers;
        let i = self.index_register as int;
        match instruction {
            Instruction::ClearDisplay => Machine {
                display: Seq::new(2048, |index: int| 0u8),
                ..self
            },
            Instruction::Return => Machine {
                program_counter: self.stack.last(),
                stack: self.stack.drop_last(),
                ..self
            },
            Instruction::Jump { addr } => Machine { program_counter: addr, ..self },
            Instruction::Call { addr } => Machine {
                program_counter: addr,
                stack: self.stack.push(self.program_counter),
                ..self
            },
            Instruction::SkipIfEqual { x, kk } => if v[x as int] == kk {
                self.advanced()
            } else {
                self
            },
            Instruction::SkipIfNotEqual { x, kk } => if v[x as int] != kk {
                self.advanced()
            } else {
                self
            },
            Instruction::SkipIfRegistersEqual { x, y } => if v[x as int] == v[y as int] {
                self.advanced()
            } else {
                self
            },
            Instruction::SkipIfRegistersNotEqual { x, y } => if v[x as int] != v[y as int] {
                self.advanced()
            } else {
                self
            },
            Instruction::LoadImmediate { x, kk } => self.with_register(x, kk),
            Instruction::AddImmediate { x, kk } => self.with_register(x, wrap8(v[x as int] + kk)),
            Instruction::Copy { x, y } => self.with_register(x, v[y as int]),
            Instruction::Or { x, y } => self.with_register(x, v[x as int] | v[y as int]),
            Instruction::And { x, y } => self.with_register(x, v[x as int] & v[y as int]),
            Instruction::Xor { x, y } => self.with_register(x, v[x as int] ^ v[y as int]),
            Instruction::AddRegisters { x, y } => self.with_result_and_flag(
                x,
                wrap8(v[x as int] + v[y as int]),
                flag(v[x as int] + v[y as int] > 255),
            ),
            Instruction::Subtract { x, y } => self.with_result_and_flag(
                x,
                wrap8(v[x as int] - v[y as int]),
                flag(v[x as int] >= v[y as int]),
            ),
            Instruction::SubtractReversed { x, y } => self.with_result_and_flag(
                x,
                wrap8(v[y as int] - v[x as int]),
                flag(v[y as int] >= v[x as int]),
            ),
            Instruction::ShiftRight { x, y } => {
                let source = if self.quirks.shift_uses_vy {
                    v[y as int]
                } else {
                    v[x as int]
                };
                self.with_result_and_flag(x, source / 2, source % 2)
            },
            Instruction::ShiftLeft { x, y } => {
                let source = if self.quirks.shift_uses_vy {
                    v[y as int]
                } else {
                    v[x as int]
                };
                self.with_result_and_flag(x, wrap8(source * 2), source / 128)
            },
            Instruction::LoadIndex { addr } => Machine { index_register: addr, ..self },
            Instruction::JumpWithOffset { x, addr } => {
                let offset = if self.quirks.jump_offset_uses_vx_high_nibble {
                    v[x as int]
                } else {
                    v[0]
                };
                Machine { program_counter: (addr + offset) as u16, ..self }
            },
            Instruction::Random { x, kk } => self.with_register(x, random & kk),
            Instruction::Draw { x, y, n } => {
                let ox = v[x as int] as int % 64;
                let oy = v[y as int] as int % 32;
                let wrap = self.quirks.sprites_wrap_at_edges;
                let sprite = self.memory.subrange(i, i + n);
                Machine {
                    display: drawn(self.display, sprite, ox, oy, wrap),
                    registers: v.update(15, flag(collides(self.display, sprite, ox, oy, wrap))),
                    ..self
                }
            },
            Instruction::SkipIfKeyPressed { x } => if self.key_active(v[x as int]) {
                self.advanced()
            } else {
                self
            },
            Instruction::SkipIfKeyNotPressed { x } => if !self.key_active(v[x as int]) {
                self.advanced()
            } else {
                self
            },
            Instruction::LoadDelayTimer { x } => self.with_register(x, self.delay_timer),
            Instruction::AwaitKey { x } => Machine { awaiting_key: Some(x), ..self },
            Instruction::SetDelayTimer { x } => Machine { delay_timer: v[x as int], ..self },
            Instruction::SetSoundTimer { x } => Machine { sound_timer: v[x as int], ..self },
            Instruction::AddToIndex { x } => Machine {
                index_register: if self.quirks.index_overflow_wraps_to_4096 {
                    wrap16(i + v[x as int])
                } else {
                    ((i + v[x as int]) % 0x1000) as u16
                },
                ..self
            },
            Instruction::LoadFontAddress { x } => Machine {
                index_register: (0x50 + 5 * v[x as int]) as u16,
                ..self
            },
            Instruction::StoreBcd { x } => Machine {
                memory: self.memory.update(i, v[x as int] / 100).update(
                    i + 1,
                    (v[x as int] / 10) % 10,
                ).update(i + 2, v[x as int] % 10),
                ..self
            },
            Instruction::StoreRegisters { x } => Machine {
                memory: overlaid(self.memory, i, v.subrange(0, x + 1)),
                ..self
            }.after_transfer(x + 1),
            Instruction::LoadRegisters { x } => Machine {
                registers: overlaid(v, 0, self.memory.subrange(i, i + x + 1)),
                ..self
            }.after_transfer(x + 1),
        }
    }

    /// Why the next tick fails, if it does: the fetch reaches past the end of
    /// memory, the word is no instruction, or the instruction cannot be
    /// carried out. A machine blocked on input never fails.
    pub open spec fn step_error(self) -> Option<Chip8Error> {
        if self.is_awaiting_key() {
            None
        } else if !self.can_fetch() {
            Some(Chip8Error::MemoryOutOfBounds { address: self.program_counter, length: 2 })
        } else {
            match decoded(self.next_word()) {
                None => Some(
                    Chip8Error::UnknownInstruction {
                        address: self.program_counter,
                        word: self.next_word(),
                    },
                ),
                Some(instruction) => self.advanced().execution_error(instruction),
            }
        }
    }

    /// The state after one tick. A machine blocked on input stays as it is,
    /// and so does one whose fetch fails. Otherwise the program counter moves
    /// past the fetched word, and the instruction takes effect unless the
    /// word is unknown or the instruction fails.
    pub open spec fn stepped(self, random: u8) -> Machine {
        if self.is_awaiting_key() || !self.can_fetch() {
            self
        } else {
            match decoded(self.next_word()) {
                None => self.advanced(),
                Some(instruction) => if self.advanced().execution_error(instruction) is Some {
                    self.advanced()
                } else {
                    self.advanced().executed(instruction, random)
                },
            }
        }
    }

    /// Whether the next tick draws a random byte.
    pub open spec fn next_is_random(self) -> bool {
        &&& !self.is_awaiting_key()
        &&& self.can_fetch()
        &&& decoded(self.next_word()) matches Some(Instruction::Random { x, kk })
    }
}

/// After the display is cleared every pixel reads 0, at every coordinate.
pub proof fn lemma_clear_display_blanks(machine: Machine, random: u8)
    ensures
        machine.executed(Instruction::ClearDisplay, random).display.len() == 2048,
        forall|x: int, y: int|
            0 <= x < 64 && 0 <= y < 32 ==> #[trigger] machine.executed(
                Instruction::ClearDisplay,
                random,
            ).display[y * 64 + x] == 0,
{
}

/// A jump sets the program counter to its address exactly, so the next word
/// fetched is the one stored at that address.
pub proof fn lemma_jump_lands_on_address(machine: Machine, addr: u16, random: u8)
    requires
        !machine.is_awaiting_key(),
        machine.can_fetch(),
        decoded(machine.next_word()) == Some(Instruction::Jump { addr }),
    ensures
        machine.step_error() is None,
        machine.stepped(random).program_counter == addr,
        machine.stepped(random).next_word() == word_at(machine.memory, addr as int),
        machine.stepped(random) == (Machine { program_counter: addr, ..machine }),
{
}

/// A call followed at once by a return undoes itself: the call pushes the
/// program counter it finds, the return takes it back, and the machine is
/// in the state it had before the call.
pub proof fn lemma_call_then_return(machine: Machine, addr: u16, random: u8)
    requires
        machine.stack.len() < 16,
    ensures
        machine.execution_error(Instruction::Call { addr }) is None,
        machine.executed(Instruction::Call { addr }, random).program_counter == addr,
        machine.executed(Instruction::Call { addr }, random).stack.last()
            == machine.program_counter,
        machine.executed(Instruction::Call { addr }, random).execution_error(Instruction::Return)
            is None,
        machine.executed(Instruction::Call { addr }, random).executed(Instruction::Return, random)
            == machine,
{
    let called = machine.executed(Instruction::Call { addr }, random);
    let returned = called.executed(Instruction::Return, random);
    assert(returned.stack =~= machine.stack);
}

/// Drawing the same sprite twice with the same origin restores the display.
/// After the second draw `VF` is 1 exactly when the first draw turned some
/// pixel on. Nothing but the display and `VF` is touched by either draw.
pub proof fn lemma_draw_twice(machine: Machine, x: u8, y: u8, n: u8, random: u8)
    requires
        machine.well_formed(),
        x < 16,
        y < 16,
        n < 16,
        machine.index_register + n <= 4096,
        machine.executed(Instruction::Draw { x, y, n }, random).registers[x as int] % 64
            == machine.registers[x as int] % 64,
        machine.executed(Instruction::Draw { x, y, n }, random).registers[y as int] % 32
            == machine.registers[y as int] % 32,
    ensures
        ({
            let once = machine.executed(Instruction::Draw { x, y, n }, random);
            let twice = once.executed(Instruction::Draw { x, y, n }, random);
            &&& machine.execution_error(Instruction::Draw { x, y, n }) is None
            &&& once.execution_error(Instruction::Draw { x, y, n }) is None
            &&& once.well_formed()
            &&& twice.display == machine.display
            &&& twice.registers[15] == flag(
                exists|index: int|
                    0 <= index < 2048 && #[trigger] machine.display[index] == 0
                        && once.display[index] == 1,
            )
            &&& twice == (Machine { registers: twice.registers, ..machine })
            &&& forall|register: int|
                0 <= register < 15 ==> twice.registers[register] == machine.registers[register]
        }),
{
    let once = machine.executed(Instruction::Draw { x, y, n }, random);
    let i = machine.index_register as int;
    let sprite = machine.memory.subrange(i, i + n);
    let ox = (machine.registers[x as int] % 64) as int;
    let oy = (machine.registers[y as int] % 32) as int;
    lemma_draw_twice_restores(
        machine.display,
        sprite,
        ox,
        oy,
        machine.quirks.sprites_wrap_at_edges,
    );
}

/// Wrapping a sum or difference of two bytes adds or takes away 256 at most
/// once.
pub proof fn lemma_wrap8(value: int)
    requires
        -256 < value < 512,
    ensures
        wrap8(value) == if value < 0 {
            value + 256
        } else if value > 255 {
            value - 256
        } else {
            value
        },
{
}

/// Adding registers loses nothing: the result and the carry in `VF` together
/// give the sum.
pub proof fn lemma_add_registers_carry(machine: Machine, x: u8, y: u8, random: u8)
    requires
        machine.well_formed(),
        x < 15,
        y < 16,
    ensures
        ({
            let after = machine.executed(Instruction::AddRegisters { x, y }, random);
            &&& after.registers[15] <= 1
            &&& after.registers[x as int] + 256 * after.registers[15] == machine.registers[x as int]
                + machine.registers[y as int]
        }),
{
}

/// Subtracting registers loses nothing: `VF` is 1 exactly when nothing was
/// borrowed, and the result with the borrow taken back gives the difference.
pub proof fn lemma_subtract_borrow(machine: Machine, x: u8, y: u8, random: u8)
    requires
        machine.well_formed(),
        x < 15,
        y < 16,
    ensures
        ({
            let after = machine.executed(Instruction::Subtract { x, y }, random);
            let reversed = machine.executed(Instruction::SubtractReversed { x, y }, random);
            let vx = machine.registers[x as int];
            let vy = machine.registers[y as int];
            &&& after.registers[15] == flag(vx >= vy)
            &&& after.registers[x as int] - 256 * (1 - after.registers[15]) == vx - vy
            &&& reversed.registers[15] == flag(vy >= vx)
            &&& reversed.registers[x as int] - 256 * (1 - reversed.registers[15]) == vy - vx
        }),
{
    let vx = machine.registers[x as int];
    let vy = machine.registers[y as int];
    lemma_wrap8(vx - vy);
    lemma_wrap8(vy - vx);
}

/// Loading, adding an immediate, copying and the bitwise operations have no
/// flag effect: they write `Vx` and nothing else, so `VF` changes only where
/// it is itself the target.
pub proof fn lemma_flag_untouched(machine: Machine, x: u8, y: u8, kk: u8, random: u8)
    requires
        machine.well_formed(),
        x < 15,
        y < 16,
    ensures
        machine.executed(Instruction::LoadImmediate { x, kk }, random).registers[15]
            == machine.registers[15],
        machine.executed(Instruction::AddImmediate { x, kk }, random).registers[15]
            == machine.registers[15],
        machine.executed(Instruction::Copy { x, y }, random).registers[15] == machine.registers[15],
        machine.executed(Instruction::Or { x, y }, random).registers[15] == machine.registers[15],
        machine.executed(Instruction::And { x, y }, random).registers[15] == machine.registers[15],
        machine.executed(Instruction::Xor { x, y }, random).registers[15] == machine.registers[15],
{
}

/// A key press ends a wait once: after the update that delivers the key the
/// machine runs, and a further update writes no register.
pub proof fn lemma_key_taken_once(machine: Machine, first: u16, second: u16)
    requires
        machine.well_formed(),
        machine.is_awaiting_key(),
        newly_pressed(machine.keypad, first) != 0,
    ensures
        !machine.keypad_updated(first).is_awaiting_key(),
        machine.keypad_updated(first).keypad_updated(second).registers == machine.keypad_updated(
            first,
        ).registers,
        lowest_key_from(newly_pressed(machine.keypad, first), 0) matches Some(key)
            && machine.keypad_updated(first).registers == machine.registers.update(
            machine.awaiting_key->0 as int,
            key,
        ),
{
    let pressed = newly_pressed(machine.keypad, first);
    lemma_lowest_key(pressed);
    if lowest_key_from(pressed, 0) is None {
        lemma_no_key_is_zero(pressed);
    }
}

/// A keypad mask with no key down is zero.
proof fn lemma_no_key_is_zero(keypad: u16)
    requires
        forall|key: u8| !key_down(keypad, key),
    ensures
        keypad == 0,
{
    assert(!key_down(keypad, 0) && !key_down(keypad, 1) && !key_down(keypad, 2) && !key_down(
        keypad,
        3,
    ) && !key_down(keypad, 4) && !key_down(keypad, 5) && !key_down(keypad, 6) && !key_down(
        keypad,
        7,
    ) && !key_down(keypad, 8) && !key_down(keypad, 9) && !key_down(keypad, 10) && !key_down(
        keypad,
        11,
    ) && !key_down(keypad, 12) && !key_down(keypad, 13) && !key_down(keypad, 14) && !key_down(
        keypad,
        15,
    ));
    assert(keypad == 0) by (bit_vector)
        requires
            keypad & (1u16 << 0u8) == 0,
            keypad & (1u16 << 1u8) == 0,
            keypad & (1u16 << 2u8) == 0,
            keypad & (1u16 << 3u8) == 0,
            keypad & (1u16 << 4u8) == 0,
            keypad & (1u16 << 5u8) == 0,
            keypad & (1u16 << 6u8) == 0,
            keypad & (1u16 << 7u8) == 0,
            keypad & (1u16 << 8u8) == 0,
            keypad & (1u16 << 9u8) == 0,
            keypad & (1u16 << 10u8) == 0,
            keypad & (1u16 << 11u8) == 0,
            keypad & (1u16 << 12u8) == 0,
            keypad & (1u16 << 13u8) == 0,
            keypad & (1u16 << 14u8) == 0,
            keypad & (1u16 << 15u8) == 0,
    ;
}

/// The three bytes written by the decimal store are the digits of `Vx`.
pub proof fn lemma_bcd_digits(machine: Machine, x: u8, random: u8)
    requires
        machine.well_formed(),
        x < 16,
        machine.index_register + 3 <= 4096,
    ensures
        ({
            let after = machine.executed(Instruction::StoreBcd { x }, random);
            let i = machine.index_register as int;
            &&& after.memory[i] < 10
            &&& after.memory[i + 1] < 10
            &&& after.memory[i + 2] < 10
            &&& after.memory[i] * 100 + after.memory[i + 1] * 10 + after.memory[i + 2]
                == machine.registers[x as int]
        }),
{
}

/// A tick keeps a well-formed machine well formed: pixels stay binary, the
/// call stack stays within its bound, and the sizes never change.
pub proof fn lemma_step_preserves_well_formed(machine: Machine, random: u8)
    requires
        machine.well_formed(),
    ensures
        machine.stepped(random).well_formed(),
{
    if !machine.is_awaiting_key() && machine.can_fetch() {
        let word = machine.next_word();
        crate::opcode::lemma_decoded_well_formed(word);
        match decoded(word) {
            Some(instruction) => {
                let fetched = machine.advanced();
                if fetched.execution_error(instruction) is None {
                    lemma_executed_well_formed(fetched, instruction, random);
                }
            },
            None => {},
        }
    }
}

/// Carrying out an instruction keeps a well-formed machine well formed.
pub proof fn lemma_executed_well_formed(machine: Machine, instruction: Instruction, random: u8)
    requires
        machine.well_formed(),
        instruction.well_formed(),
        machine.execution_error(instruction) is None,
    ensures
        machine.executed(instruction, random).well_formed(),
{
    match instruction {
        Instruction::Draw { x, y, n } => {
            let i = machine.index_register as int;
            let sprite = machine.memory.subrange(i, i + n);
            let ox = (machine.registers[x as int] % 64) as int;
            let oy = (machine.registers[y as int] % 32) as int;
            lemma_draw_twice_restores(
        machine.display,
        sprite,
        ox,
        oy,
        machine.quirks.sprites_wrap_at_edges,
    );
        },
        _ => {},
    }
}

/// Only the random instruction looks at the random byte.
pub proof fn lemma_random_byte_unused(machine: Machine, first: u8, second: u8)
    requires
        !machine.next_is_random(),
    ensures
        machine.stepped(first) == machine.stepped(second),
{
}

} // verus!
