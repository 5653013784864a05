use vstd::prelude::*;

use crate::keyboard::{Chip8Key, Keyboard};
use crate::instruction::{decode, spec_decode, Instruction};
use crate::screen::{draw_collision, draw_result, Screen};

verus! {

pub const MEMORY_CAPACITY: usize = 4096;
pub const TOTAL_STACK_DEPTH: u8 = 16;
pub const CHIP8_DEFAULT_SPRITE_HEIGHT: u16 = 5;
pub const LOAD_ADDRESS: u16 = 0x200;
pub const OUT_OF_BOUNDS: &'static str = "memory out of bounds!";
pub const PROGRAM_TOO_LARGE: &'static str = "program too large for memory";

/// The glyphs of the hexadecimal digits 0 to F, five rows of one byte each,
/// kept at the start of memory.
pub open spec fn font_set() -> Seq<u8> {
    seq![
        0xF0u8, 0x90, 0x90, 0x90, 0xF0, 0x20, 0x60, 0x20, 0x20, 0x70, 0xF0, 0x10, 0xF0, 0x80, 0xF0,
        0xF0, 0x10, 0xF0, 0x10, 0xF0, 0x90, 0x90, 0xF0, 0x10, 0x10, 0xF0, 0x80, 0xF0, 0x10, 0xF0,
        0xF0, 0x80, 0xF0, 0x90, 0xF0, 0xF0, 0x10, 0x20, 0x40, 0x40, 0xF0, 0x90, 0xF0, 0x90, 0xF0,
        0xF0, 0x90, 0xF0, 0x10, 0xF0, 0xF0, 0x90, 0xF0, 0x90, 0x90, 0xE0, 0x90, 0xE0, 0x90, 0xE0,
        0xF0, 0x80, 0x80, 0x80, 0xF0, 0xE0, 0x90, 0x90, 0x90, 0xE0, 0xF0, 0x80, 0xF0, 0x80, 0xF0,
        0xF0, 0x80, 0xF0, 0x80, 0x80,
    ]
}

/// The whole machine as mathematical values.
pub struct MachineState {
    pub memory: Seq<u8>,
    pub v: Seq<u8>,
    pub i: u16,
    pub delay_timer: u8,
    pub sound_timer: u8,
    pub program_counter: u16,
    pub stack_pointer: u8,
    pub stack: Seq<u16>,
    pub keys: Seq<bool>,
    pub last_key: Option<Chip8Key>,
    pub pixels: Seq<bool>,
}

/// Reading the byte at `addr`.
pub open spec fn spec_read8(memory: Seq<u8>, addr: int) -> Result<u8, &'static str> {
    if 0 <= addr < memory.len() {
        Ok(memory[addr])
    } else {
        Err(OUT_OF_BOUNDS)
    }
}

/// Writing `value` at `addr`.
pub open spec fn spec_write8(memory: Seq<u8>, addr: int, value: u8) -> Result<Seq<u8>, &'static str> {
    if 0 <= addr < memory.len() {
        Ok(memory.update(addr, value))
    } else {
        Err(OUT_OF_BOUNDS)
    }
}

/// A byte written within memory reads back as written.
pub proof fn lemma_write_then_read(memory: Seq<u8>, addr: int, value: u8)
    requires
        memory.len() == MEMORY_CAPACITY,
        0 <= addr < MEMORY_CAPACITY,
    ensures
        spec_write8(memory, addr, value) is Ok,
        spec_read8(spec_write8(memory, addr, value)->Ok_0, addr) == Ok::<u8, &'static str>(value),
{
}

/// Pushing a return address: fails when all sixteen levels are in use.
pub open spec fn spec_stack_push(m: MachineState, value: u16) -> Result<MachineState, &'static str> {
    if m.stack_pointer < TOTAL_STACK_DEPTH {
        Ok(
            MachineState {
                stack: m.stack.update(m.stack_pointer as int, value),
                stack_pointer: (m.stack_pointer + 1) as u8,
                ..m
            },
        )
    } else {
        Err(OUT_OF_BOUNDS)
    }
}

/// Popping a return address: fails on an empty stack. The result is the
/// state after the pop and the address popped.
pub open spec fn spec_stack_pop(m: MachineState) -> Result<(MachineState, u16), &'static str> {
    if m.stack_pointer > 0 {
        Ok(
            (
                MachineState { stack_pointer: (m.stack_pointer - 1) as u8, ..m },
                m.stack[m.stack_pointer - 1],
            ),
        )
    } else {
        Err(OUT_OF_BOUNDS)
    }
}

/// Pushing each of `values` in turn, stopping at the first failure.
pub open spec fn push_all(m: MachineState, values: Seq<u16>) -> Result<MachineState, &'static str>
    decreases values.len(),
{
    if values.len() == 0 {
        Ok(m)
    } else {
        match push_all(m, values.drop_last()) {
            Ok(m1) => spec_stack_push(m1, values.last()),
            Err(e) => Err(e),
        }
    }
}

/// From an empty stack, up to sixteen pushes in a row succeed, each adding one
/// level; once sixteen are on the stack a further push fails; and popping the
/// empty stack fails.
pub proof fn lemma_stack_depth(m: MachineState, values: Seq<u16>)
    requires
        m.stack_pointer == 0,
        values.len() <= TOTAL_STACK_DEPTH,
    ensures
        push_all(m, values) is Ok,
        push_all(m, values)->Ok_0.stack_pointer == values.len(),
        values.len() == TOTAL_STACK_DEPTH ==> forall|v: u16|
            spec_stack_push(push_all(m, values)->Ok_0, v) == Err::<MachineState, &'static str>(
                OUT_OF_BOUNDS,
            ),
        spec_stack_pop(m) == Err::<(MachineState, u16), &'static str>(OUT_OF_BOUNDS),
    decreases values.len(),
{
    if values.len() > 0 {
        lemma_stack_depth(m, values.drop_last());
    }
}

/// Loading a program: its bytes go to memory from the load address on, and
/// the program counter to the load address.
pub open spec fn spec_load(m: MachineState, program: Seq<u8>) -> Result<MachineState, &'static str> {
    if LOAD_ADDRESS + program.len() > MEMORY_CAPACITY {
        Err(PROGRAM_TOO_LARGE)
    } else {
        Ok(
            MachineState {
                memory: Seq::new(
                    m.memory.len(),
                    |a: int|
                        if LOAD_ADDRESS <= a < LOAD_ADDRESS + program.len() {
                            program[a - LOAD_ADDRESS]
                        } else {
                            m.memory[a]
                        },
                ),
                program_counter: LOAD_ADDRESS,
                ..m
            },
        )
    }
}

/// One timer tick: each timer above zero goes down by one.
pub open spec fn spec_tick(m: MachineState) -> MachineState {
    MachineState {
        delay_timer: if m.delay_timer > 0 {
            (m.delay_timer - 1) as u8
        } else {
            0
        },
        sound_timer: if m.sound_timer > 0 {
            (m.sound_timer - 1) as u8
        } else {
            0
        },
        ..m
    }
}

/// Relates the outcome of an operation to the state and result that a call
/// leaves: on success the new state, on failure the error and the state
/// before the operation.
pub open spec fn outcome(
    before: MachineState,
    res: Result<MachineState, &'static str>,
    after: MachineState,
    r: Result<(), &'static str>,
) -> bool {
    match res {
        Ok(m) => r == Ok::<(), &'static str>(()) && after == m,
        Err(e) => r == Err::<(), &'static str>(e) && after == before,
    }
}

/// The state with register `x` set to `val`.
pub open spec fn set_reg(m: MachineState, x: int, val: u8) -> MachineState {
    MachineState { v: m.v.update(x, val), ..m }
}

/// The state with the next instruction skipped when `cond` holds.
pub open spec fn skip_if(m: MachineState, cond: bool) -> MachineState {
    if cond {
        MachineState { program_counter: ((m.program_counter + 2) % 65536) as u16, ..m }
    } else {
        m
    }
}

/// The value that a flag register takes for a condition.
pub open spec fn flag(b: bool) -> u8 {
    if b {
        1
    } else {
        0
    }
}

/// Whether the key whose digit is `value` is held down.
pub open spec fn key_is_down(m: MachineState, value: u8) -> bool {
    value < 16 && m.keys[value as int]
}

/// What a register-to-register ALU instruction does. The flag VF is written
/// first; the result is then computed from the registers as they stand.
pub open spec fn spec_alu(m: MachineState, ins: Instruction) -> MachineState {
    match ins {
        Instruction::Move(x, y) => set_reg(m, x as int, m.v[y as int]),
        Instruction::Or(x, y) => set_reg(m, x as int, m.v[x as int] | m.v[y as int]),
        Instruction::And(x, y) => set_reg(m, x as int, m.v[x as int] & m.v[y as int]),
        Instruction::Xor(x, y) => set_reg(m, x as int, m.v[x as int] ^ m.v[y as int]),
        Instruction::AddReg(x, y) => {
            let sum = m.v[x as int] + m.v[y as int];
            set_reg(set_reg(m, 15, flag(sum > 255)), x as int, (sum % 256) as u8)
        },
        Instruction::SubReg(x, y) => {
            let m1 = set_reg(m, 15, flag(m.v[x as int] > m.v[y as int]));
            set_reg(m1, x as int, ((m1.v[x as int] - m1.v[y as int]) % 256) as u8)
        },
        Instruction::ShiftRight(x, _) => {
            let m1 = set_reg(m, 15, m.v[x as int] % 2);
            set_reg(m1, x as int, m1.v[x as int] / 2)
        },
        Instruction::SubReverse(x, y) => {
            let m1 = set_reg(m, 15, flag(m.v[y as int] > m.v[x as int]));
            set_reg(m1, x as int, ((m1.v[y as int] - m1.v[x as int]) % 256) as u8)
        },
        Instruction::ShiftLeft(x, _) => {
            let m1 = set_reg(m, 15, flag(m.v[x as int] >= 0x80));
            set_reg(m1, x as int, ((m1.v[x as int] * 2) % 256) as u8)
        },
        _ => m,
    }
}

/// What the timer, key, index and memory-transfer instructions of the Fx
/// family do.
pub open spec fn spec_misc(m: MachineState, ins: Instruction) -> Result<MachineState, &'static str> {
    let start = m.i as int;
    match ins {
        Instruction::LoadDelay(x) => Ok(set_reg(m, x as int, m.delay_timer)),
        Instruction::WaitKey(x) => match m.last_key {
            Some(k) => Ok(set_reg(m, x as int, k.spec_value())),
            None => Ok(m),
        },
        Instruction::SetDelay(x) => Ok(MachineState { delay_timer: m.v[x as int], ..m }),
        Instruction::SetSound(x) => Ok(MachineState { sound_timer: m.v[x as int], ..m }),
        Instruction::AddIndex(x) => Ok(MachineState { i: ((m.i + m.v[x as int]) % 65536) as u16, ..m }),
        Instruction::LoadFont(x) => Ok(MachineState { i: (m.v[x as int] * 5) as u16, ..m }),
        Instruction::Bcd(x) => if start + 2 >= MEMORY_CAPACITY {
            Err(OUT_OF_BOUNDS)
        } else {
            let val = m.v[x as int];
            Ok(
                MachineState {
                    memory: m.memory.update(start, val / 100).update(start + 1, (val / 10) % 10).update(
                        start + 2,
                        val % 10,
                    ),
                    ..m
                },
            )
        },
        Instruction::StoreRegs(x) => if start + x >= MEMORY_CAPACITY {
            Err(OUT_OF_BOUNDS)
        } else {
            Ok(
                MachineState {
                    memory: Seq::new(
                        m.memory.len(),
                        |a: int|
                            if start <= a <= start + x {
                                m.v[a - start]
                            } else {
                                m.memory[a]
                            },
                    ),
                    ..m
                },
            )
        },
        Instruction::LoadRegs(x) => if start + x >= MEMORY_CAPACITY {
            Err(OUT_OF_BOUNDS)
        } else {
            Ok(
                MachineState {
                    v: Seq::new(
                        m.v.len(),
                        |k: int|
                            if k <= x {
                                m.memory[start + k]
                            } else {
                                m.v[k]
                            },
                    ),
                    ..m
                },
            )
        },
        _ => Ok(m),
    }
}

/// What the jump, call and return instructions, and clearing the screen, do.
pub open spec fn spec_flow(m: MachineState, ins: Instruction) -> Result<MachineState, &'static str> {
    match ins {
        Instruction::Cls => Ok(MachineState { pixels: Seq::new(m.pixels.len(), |k: int| false), ..m }),
        Instruction::Ret => match spec_stack_pop(m) {
            Ok((m1, a)) => Ok(MachineState { program_counter: a, ..m1 }),
            Err(e) => Err(e),
        },
        Instruction::Jump(addr) => Ok(MachineState { program_counter: addr, ..m }),
        Instruction::Call(addr) => match spec_stack_push(m, m.program_counter) {
            Ok(m1) => Ok(MachineState { program_counter: addr, ..m1 }),
            Err(e) => Err(e),
        },
        Instruction::JumpV0(addr) => Ok(
            MachineState { program_counter: ((addr + m.v[0]) % 65536) as u16, ..m },
        ),
        _ => Ok(m),
    }
}

/// Whether a conditional-skip instruction skips the next instruction.
pub open spec fn skip_condition(m: MachineState, ins: Instruction) -> bool {
    match ins {
        Instruction::SkipEqImm(x, kk) => m.v[x as int] == kk,
        Instruction::SkipNeImm(x, kk) => m.v[x as int] != kk,
        Instruction::SkipEqReg(x, y) => m.v[x as int] == m.v[y as int],
        Instruction::SkipNeReg(x, y) => m.v[x as int] != m.v[y as int],
        Instruction::SkipKey(x) => key_is_down(m, m.v[x as int]),
        Instruction::SkipNotKey(x) => !key_is_down(m, m.v[x as int]),
        _ => false,
    }
}

/// What the instructions that load a register from an immediate value do;
/// `random` is the byte that the random-number instruction draws.
pub open spec fn spec_load_reg(m: MachineState, ins: Instruction, random: u8) -> MachineState {
    match ins {
        Instruction::LoadImm(x, kk) => set_reg(m, x as int, kk),
        Instruction::AddImm(x, kk) => set_reg(m, x as int, ((m.v[x as int] + kk) % 256) as u8),
        Instruction::LoadIndex(addr) => MachineState { i: addr, ..m },
        Instruction::Random(x, kk) => set_reg(m, x as int, random & kk),
        _ => m,
    }
}

/// What drawing the `n`-row sprite stored at I at (Vx, Vy) does: fails when
/// the sprite does not lie within memory, else VF becomes the collision flag.
pub open spec fn spec_draw(m: MachineState, x: usize, y: usize, n: u8) -> Result<MachineState, &'static str> {
    let start = m.i as int;
    if start + n > MEMORY_CAPACITY {
        Err(OUT_OF_BOUNDS)
    } else {
        let sprite = m.memory.subrange(start, start + n);
        let vx = m.v[x as int] as int;
        let vy = m.v[y as int] as int;
        Ok(
            MachineState {
                pixels: draw_result(m.pixels, vx, vy, sprite, n as int),
                v: m.v.update(15, flag(draw_collision(m.pixels, vx, vy, sprite, n as int))),
                ..m
            },
        )
    }
}

/// What executing `ins` does to the machine, where `random` is the byte that
/// the random-number instruction draws.
pub open spec fn spec_execute(m: MachineState, ins: Instruction, random: u8) -> Result<
    MachineState,
    &'static str,
> {
    match ins {
        Instruction::Cls | Instruction::Ret | Instruction::Jump(_) | Instruction::Call(_)
        | Instruction::JumpV0(_) => spec_flow(m, ins),
        Instruction::SkipEqImm(..) | Instruction::SkipNeImm(..) | Instruction::SkipEqReg(..)
        | Instruction::SkipNeReg(..) | Instruction::SkipKey(_) | Instruction::SkipNotKey(_) => Ok(
            skip_if(m, skip_condition(m, ins)),
        ),
        Instruction::LoadImm(..) | Instruction::AddImm(..) | Instruction::LoadIndex(_)
        | Instruction::Random(..) => Ok(spec_load_reg(m, ins, random)),
        Instruction::Move(..) | Instruction::Or(..) | Instruction::And(..) | Instruction::Xor(..)
        | Instruction::AddReg(..) | Instruction::SubReg(..) | Instruction::ShiftRight(..)
        | Instruction::SubReverse(..) | Instruction::ShiftLeft(..) => Ok(spec_alu(m, ins)),
        Instruction::Draw(x, y, n) => spec_draw(m, x, y, n),
        Instruction::Nop => Ok(m),
        _ => spec_misc(m, ins),
    }
}

/// Relies on rand::random (rand 0.8): a value drawn from the thread-local
/// generator. Nothing is known of which value comes out.
pub assume_specification<T>[ rand::random::<T> ]() -> T
    where
        rand::distributions::Standard: rand::distributions::Distribution<T>,
;

/// The opcode word stored big-endian at the program counter.
pub open spec fn spec_fetch(m: MachineState) -> u16 {
    (m.memory[m.program_counter as int] * 256 + m.memory[m.program_counter + 1]) as u16
}

/// Whether the program counter leaves room for a whole opcode word.
pub open spec fn can_fetch(m: MachineState) -> bool {
    m.program_counter + 1 < MEMORY_CAPACITY
}

/// The state with the program counter moved past the fetched opcode.
pub open spec fn advanced(m: MachineState) -> MachineState {
    MachineState { program_counter: (m.program_counter + 2) as u16, ..m }
}

pub struct Chip8 {
    pub memory: [u8; 4096],
    /// The general registers V0 to VF.
    pub v: [u8; 16],
    /// The index register I; only its low twelve bits address memory.
    pub i: u16,
    pub delay_timer: u8,
    pub sound_timer: u8,
    pub program_counter: u16,
    pub stack_pointer: u8,
    pub stack: [u16; 16],
    pub keyboard: Keyboard,
    pub screen: Screen,
}

impl View for Chip8 {
    type V = MachineState;

    open spec fn view(&self) -> MachineState {
        MachineState {
            memory: self.memory@,
            v: self.v@,
            i: self.i,
            delay_timer: self.delay_timer,
            sound_timer: self.sound_timer,
            program_counter: self.program_counter,
            stack_pointer: self.stack_pointer,
            stack: self.stack@,
            keys: self.keyboard.keys@,
            last_key: self.keyboard.last_key,
            pixels: self.screen.pixels@,
        }
    }
}

impl Chip8 {
    /// The stack pointer stays within the stack.
    pub open spec fn wf(&self) -> bool {
        self.stack_pointer <= TOTAL_STACK_DEPTH
    }

    /// A machine with everything zeroed, all keys up, a blank screen, and the
    /// font at the start of memory.
    pub fn new() -> (r: Chip8)
        ensures
            r.wf(),
            r@.memory == font_set() + Seq::new(4016, |a: int| 0u8),
            r@.v == Seq::new(16, |k: int| 0u8),
            r@.i == 0,
            r@.delay_timer == 0,
            r@.sound_timer == 0,
            r@.program_counter == 0,
            r@.stack_pointer == 0,
            r@.stack == Seq::new(16, |k: int| 0u16),
            r@.keys == Seq::new(16, |k: int| false),
            r@.last_key.is_none(),
            r@.pixels == Seq::new(2048, |k: int| false),
    {
        let font: [u8; 80] = [
            0xF0, 0x90, 0x90, 0x90, 0xF0, 0x20, 0x60, 0x20, 0x20, 0x70, 0xF0, 0x10, 0xF0, 0x80, 0xF0,
            0xF0, 0x10, 0xF0, 0x10, 0xF0, 0x90, 0x90, 0xF0, 0x10, 0x10, 0xF0, 0x80, 0xF0, 0x10, 0xF0,
            0xF0, 0x80, 0xF0, 0x90, 0xF0, 0xF0, 0x10, 0x20, 0x40, 0x40, 0xF0, 0x90, 0xF0, 0x90, 0xF0,
            0xF0, 0x90, 0xF0, 0x10, 0xF0, 0xF0, 0x90, 0xF0, 0x90, 0x90, 0xE0, 0x90, 0xE0, 0x90, 0xE0,
            0xF0, 0x80, 0x80, 0x80, 0xF0, 0xE0, 0x90, 0x90, 0x90, 0xE0, 0xF0, 0x80, 0xF0, 0x80, 0xF0,
            0xF0, 0x80, 0xF0, 0x80, 0x80,
        ];
        assert(font@ =~= font_set());
        let mut chip8 = Chip8 {
            memory: [0; 4096],
            v: [0; 16],
            i: 0,
            delay_timer: 0,
            sound_timer: 0,
            program_counter: 0,
            stack_pointer: 0,
            stack: [0; 16],
            keyboard: Keyboard::new(),
            screen: Screen::new(),
        };
        let mut k: usize = 0;
        while k < 80
            invariant
                k <= 80,
                font@ == font_set(),
                forall|a: int| 0 <= a < k ==> chip8.memory@[a] == font_set()[a],
                forall|a: int| k <= a < 4096 ==> chip8.memory@[a] == 0,
                chip8.v@ == Seq::new(16, |j: int| 0u8),
                chip8.i == 0,
                chip8.delay_timer == 0,
                chip8.sound_timer == 0,
                chip8.program_counter == 0,
                chip8.stack_pointer == 0,
                chip8.stack@ == Seq::new(16, |j: int| 0u16),
                chip8.keyboard.keys@ == Seq::new(16, |j: int| false),
                chip8.keyboard.last_key.is_none(),
                chip8.screen.pixels@ == Seq::new(2048, |j: int| false),
            decreases 80 - k,
        {
            chip8.memory[k] = font[k];
            k = k + 1;
        }
        assert(chip8.memory@ =~= font_set() + Seq::new(4016, |a: int| 0u8));
        chip8
    }
    /// Writes `value` at `index`; fails, changing nothing, outside memory.
    pub fn set_memory_addr(&mut self, index: usize, value: u8) -> (r: Result<(), &'static str>)
        ensures
            match spec_write8(old(self)@.memory, index as int, value) {
                Ok(mem) => r == Ok::<(), &'static str>(()) && final(self)@ == (MachineState {
                    memory: mem,
                    ..old(self)@
                }),
                Err(e) => r == Err::<(), &'static str>(e) && final(self)@ == old(self)@,
            },
            final(self).wf() == old(self).wf(),
    {
        if index < MEMORY_CAPACITY {
            self.memory[index] = value;
            Ok(())
        } else {
            Err(OUT_OF_BOUNDS)
        }
    }

    /// Reads the byte at `index`; fails outside memory.
    pub fn get_memory_addr(&self, index: usize) -> (r: Result<u8, &'static str>)
        ensures
            r == spec_read8(self@.memory, index as int),
    {
        if index < MEMORY_CAPACITY {
            Ok(self.memory[index])
        } else {
            Err(OUT_OF_BOUNDS)
        }
    }

    /// Pushes `value` on the stack, like `stack_push`; the first argument is not used.
    pub fn push_to_stack(&mut self, _index: usize, value: u16) -> (r: Result<(), &'static str>)
        requires
            old(self).wf(),
        ensures
            outcome(old(self)@, spec_stack_push(old(self)@, value), final(self)@, r),
            final(self).wf(),
    {
        self.stack_push(value)
    }

    /// Pushes a return address; fails, changing nothing, when the stack is full.
    pub fn stack_push(&mut self, value: u16) -> (r: Result<(), &'static str>)
        requires
            old(self).wf(),
        ensures
            outcome(old(self)@, spec_stack_push(old(self)@, value), final(self)@, r),
            final(self).wf(),
    {
        if self.stack_pointer < TOTAL_STACK_DEPTH {
            self.stack[self.stack_pointer as usize] = value;
            self.stack_pointer = self.stack_pointer + 1;
            Ok(())
        } else {
            Err(OUT_OF_BOUNDS)
        }
    }

    /// Pops the most recent return address; fails, changing nothing, when the
    /// stack is empty.
    pub fn pop_from_stack(&mut self) -> (r: Result<u16, &'static str>)
        requires
            old(self).wf(),
        ensures
            match spec_stack_pop(old(self)@) {
                Ok((m, a)) => r == Ok::<u16, &'static str>(a) && final(self)@ == m,
                Err(e) => r == Err::<u16, &'static str>(e) && final(self)@ == old(self)@,
            },
            final(self).wf(),
    {
        if self.stack_pointer > 0 {
            self.stack_pointer = self.stack_pointer - 1;
            let val: u16 = self.stack[self.stack_pointer as usize];
            Ok(val)
        } else {
            Err(OUT_OF_BOUNDS)
        }
    }

    /// Copies `buf` into memory from the load address on and sets the program
    /// counter there; fails, changing nothing, when it does not fit.
    pub fn load(&mut self, buf: &[u8]) -> (r: Result<(), &'static str>)
        ensures
            outcome(old(self)@, spec_load(old(self)@, buf@), final(self)@, r),
            r is Ok <==> buf@.len() <= MEMORY_CAPACITY - LOAD_ADDRESS,
            r is Ok ==> final(self).program_counter == LOAD_ADDRESS,
            r is Err ==> r == Err::<(), &'static str>(PROGRAM_TOO_LARGE),
            final(self).wf() == old(self).wf(),
    {
        let load_address = LOAD_ADDRESS as usize;
        if buf.len() > MEMORY_CAPACITY - load_address {
            return Err(PROGRAM_TOO_LARGE);
        }
        let ghost before = self.memory@;
        let mut k: usize = 0;
        while k < buf.len()
            invariant
                load_address == LOAD_ADDRESS,
                load_address + buf@.len() <= MEMORY_CAPACITY,
                k <= buf@.len(),
                self.memory@.len() == before.len(),
                forall|a: int|
                    0 <= a < MEMORY_CAPACITY ==> self.memory@[a] == if LOAD_ADDRESS <= a
                        < LOAD_ADDRESS + k {
                        buf@[a - LOAD_ADDRESS]
                    } else {
                        before[a]
                    },
                self.v == old(self).v,
                self.i == old(self).i,
                self.delay_timer == old(self).delay_timer,
                self.sound_timer == old(self).sound_timer,
                self.program_counter == old(self).program_counter,
                self.stack_pointer == old(self).stack_pointer,
                self.stack == old(self).stack,
                self.keyboard == old(self).keyboard,
                self.screen == old(self).screen,
            decreases buf@.len() - k,
        {
            self.memory[load_address + k] = buf[k];
            k = k + 1;
        }
        self.program_counter = LOAD_ADDRESS;
        assert(self@.memory =~= spec_load(old(self)@, buf@)->Ok_0.memory);
        Ok(())
    }

    /// The big-endian word at `index` and `index + 1`.
    pub fn memory_get_short(&self, index: usize) -> (r: u16)
        requires
            index + 1 < MEMORY_CAPACITY,
        ensures
            r == self@.memory[index as int] * 256 + self@.memory[index + 1],
    {
        let byte1 = self.memory[index] as u16;
        let byte2 = self.memory[index + 1] as u16;
        byte1 * 256 + byte2
    }

    /// The big-endian word at `index` and `index + 1`; fails when that word
    /// does not lie within memory.
    pub fn read16(&self, index: usize) -> (r: Result<u16, &'static str>)
        ensures
            index + 1 < MEMORY_CAPACITY ==> r == Ok::<u16, &'static str>(
                (self@.memory[index as int] * 256 + self@.memory[index + 1]) as u16,
            ),
            index + 1 >= MEMORY_CAPACITY ==> r == Err::<u16, &'static str>(OUT_OF_BOUNDS),
    {
        if index >= MEMORY_CAPACITY - 1 {
            Err(OUT_OF_BOUNDS)
        } else {
            Ok(self.memory_get_short(index))
        }
    }

    /// Advances both timers by one tick.
    pub fn tick_timers(&mut self)
        ensures
            final(self)@ == spec_tick(old(self)@),
            final(self).wf() == old(self).wf(),
    {
        if self.delay_timer > 0 {
            self.delay_timer = self.delay_timer - 1;
        }
        if self.sound_timer > 0 {
            self.sound_timer = self.sound_timer - 1;
        }
    }
    /// Runs a register-to-register ALU instruction.
    fn exec_extended_eight(&mut self, ins: Instruction)
        requires
            ins.wf(),
        ensures
            final(self)@ == spec_alu(old(self)@, ins),
            final(self).stack_pointer == old(self).stack_pointer,
    {
        match ins {
            Instruction::Move(x, y) => {
                self.v[x] = self.v[y];
            },
            Instruction::Or(x, y) => {
                self.v[x] = self.v[x] | self.v[y];
            },
            Instruction::And(x, y) => {
                self.v[x] = self.v[x] & self.v[y];
            },
            Instruction::Xor(x, y) => {
                self.v[x] = self.v[x] ^ self.v[y];
            },
            Instruction::AddReg(x, y) => {
                let sum: u16 = self.v[x] as u16 + self.v[y] as u16;
                self.v[0x0F] = if sum > 0xFF {
                    1
                } else {
                    0
                };
                self.v[x] = (sum % 256) as u8;
            },
            Instruction::SubReg(x, y) => {
                self.v[0x0F] = if self.v[x] > self.v[y] {
                    1
                } else {
                    0
                };
                self.v[x] = self.v[x].wrapping_sub(self.v[y]);
            },
            Instruction::ShiftRight(x, _) => {
                self.v[0x0F] = self.v[x] % 2;
                self.v[x] = self.v[x] / 2;
            },
            Instruction::SubReverse(x, y) => {
                self.v[0x0F] = if self.v[y] > self.v[x] {
                    1
                } else {
                    0
                };
                self.v[x] = self.v[y].wrapping_sub(self.v[x]);
            },
            Instruction::ShiftLeft(x, _) => {
                self.v[0x0F] = if self.v[x] >= 0x80 {
                    1
                } else {
                    0
                };
                self.v[x] = ((self.v[x] as u16 * 2) % 256) as u8;
            },
            _ => {},
        }
    }

    /// Runs an instruction of the Fx family.
    fn chip8_exec_extended_f(&mut self, ins: Instruction) -> (r: Result<(), &'static str>)
        requires
            ins.wf(),
        ensures
            outcome(old(self)@, spec_misc(old(self)@, ins), final(self)@, r),
            final(self).stack_pointer == old(self).stack_pointer,
    {
        let start = self.i as usize;
        match ins {
            Instruction::LoadDelay(x) => {
                self.v[x] = self.delay_timer;
            },
            Instruction::WaitKey(x) => {
                if let Some(pressed_key) = self.keyboard.last_key {
                    self.v[x] = pressed_key.value();
                }
            },
            Instruction::SetDelay(x) => {
                self.delay_timer = self.v[x];
            },
            Instruction::SetSound(x) => {
                self.sound_timer = self.v[x];
            },
            Instruction::AddIndex(x) => {
                self.i = ((self.i as u32 + self.v[x] as u32) % 65536) as u16;
            },
            Instruction::LoadFont(x) => {
                self.i = (self.v[x] as u16) * CHIP8_DEFAULT_SPRITE_HEIGHT;
            },
            Instruction::Bcd(x) => {
                if start + 2 >= MEMORY_CAPACITY {
                    return Err(OUT_OF_BOUNDS);
                }
                let val = self.v[x];
                self.memory[start] = val / 100;
                self.memory[start + 1] = (val / 10) % 10;
                self.memory[start + 2] = val % 10;
            },
            Instruction::StoreRegs(x) => {
                if start + x >= MEMORY_CAPACITY {
                    return Err(OUT_OF_BOUNDS);
                }
                let ghost before = self@;
                let mut k: usize = 0;
                while k <= x
                    invariant
                        x < 16,
                        start == before.i,
                        start + x < MEMORY_CAPACITY,
                        k <= x + 1,
                        self@ == (MachineState { memory: self@.memory, ..before }),
                        forall|a: int|
                            0 <= a < MEMORY_CAPACITY ==> self.memory@[a] == if start <= a < start
                                + k {
                                before.v[a - start]
                            } else {
                                before.memory[a]
                            },
                    decreases x + 1 - k,
                {
                    self.memory[start + k] = self.v[k];
                    k = k + 1;
                }
                assert(self@.memory =~= spec_misc(before, ins)->Ok_0.memory);
            },
            Instruction::LoadRegs(x) => {
                if start + x >= MEMORY_CAPACITY {
                    return Err(OUT_OF_BOUNDS);
                }
                let ghost before = self@;
                let mut k: usize = 0;
                while k <= x
                    invariant
                        x < 16,
                        start == before.i,
                        start + x < MEMORY_CAPACITY,
                        k <= x + 1,
                        self@ == (MachineState { v: self@.v, ..before }),
                        forall|j: int|
                            0 <= j < 16 ==> self.v@[j] == if j < k {
                                before.memory[start + j]
                            } else {
                                before.v[j]
                            },
                    decreases x + 1 - k,
                {
                    self.v[k] = self.memory[start + k];
                    k = k + 1;
                }
                assert(self@.v =~= spec_misc(before, ins)->Ok_0.v);
            },
            _ => {},
        }
        Ok(())
    }

    /// Executes one decoded instruction; `random` is the byte that the
    /// random-number instruction uses. On failure nothing changes.
    pub fn execute(&mut self, ins: Instruction, random: u8) -> (r: Result<(), &'static str>)
        requires
            old(self).wf(),
            ins.wf(),
        ensures
            outcome(old(self)@, spec_execute(old(self)@, ins, random), final(self)@, r),
            final(self).wf(),
    {
        match ins {
            Instruction::Cls | Instruction::Ret | Instruction::Jump(_) | Instruction::Call(_)
            | Instruction::JumpV0(_) => self.exec_flow(ins),
            Instruction::SkipEqImm(..) | Instruction::SkipNeImm(..) | Instruction::SkipEqReg(..)
            | Instruction::SkipNeReg(..) | Instruction::SkipKey(_) | Instruction::SkipNotKey(_) => {
                self.exec_skip(ins);
                Ok(())
            },
            Instruction::LoadImm(..) | Instruction::AddImm(..) | Instruction::LoadIndex(_)
            | Instruction::Random(..) => {
                self.exec_load_reg(ins, random);
                Ok(())
            },
            Instruction::Move(..) | Instruction::Or(..) | Instruction::And(..) | Instruction::Xor(..)
            | Instruction::AddReg(..) | Instruction::SubReg(..) | Instruction::ShiftRight(..)
            | Instruction::SubReverse(..) | Instruction::ShiftLeft(..) => {
                self.exec_extended_eight(ins);
                Ok(())
            },
            Instruction::Draw(x, y, n) => self.exec_draw(x, y, n),
            Instruction::Nop => Ok(()),
            _ => self.chip8_exec_extended_f(ins),
        }
    }

    /// Runs a jump, call or return, or clears the screen.
    fn exec_flow(&mut self, ins: Instruction) -> (r: Result<(), &'static str>)
        requires
            old(self).wf(),
        ensures
            outcome(old(self)@, spec_flow(old(self)@, ins), final(self)@, r),
            final(self).wf(),
    {
        match ins {
            Instruction::Cls => {
                self.screen.clear();
                assert(self.screen.pixels@ =~= Seq::new(2048, |k: int| false));
            },
            Instruction::Ret => {
                match self.pop_from_stack() {
                    Ok(addr) => {
                        self.program_counter = addr;
                    },
                    Err(e) => {
                        return Err(e);
                    },
                }
            },
            Instruction::Jump(addr) => {
                self.program_counter = addr;
            },
            Instruction::Call(addr) => {
                let pc = self.program_counter;
                match self.stack_push(pc) {
                    Ok(()) => {
                        self.program_counter = addr;
                    },
                    Err(e) => {
                        return Err(e);
                    },
                }
            },
            Instruction::JumpV0(addr) => {
                self.program_counter = ((addr as u32 + self.v[0] as u32) % 65536) as u16;
            },
            _ => {},
        }
        Ok(())
    }

    /// Runs a conditional skip.
    fn exec_skip(&mut self, ins: Instruction)
        requires
            ins.wf(),
        ensures
            final(self)@ == skip_if(old(self)@, skip_condition(old(self)@, ins)),
            final(self).stack_pointer == old(self).stack_pointer,
    {
        let skip = match ins {
            Instruction::SkipEqImm(x, kk) => self.v[x] == kk,
            Instruction::SkipNeImm(x, kk) => self.v[x] != kk,
            Instruction::SkipEqReg(x, y) => self.v[x] == self.v[y],
            Instruction::SkipNeReg(x, y) => self.v[x] != self.v[y],
            Instruction::SkipKey(x) => self.keyboard.is_value_down(self.v[x]),
            Instruction::SkipNotKey(x) => !self.keyboard.is_value_down(self.v[x]),
            _ => false,
        };
        if skip {
            self.program_counter = ((self.program_counter as u32 + 2) % 65536) as u16;
        }
    }

    /// Loads a register from an immediate value, the index register from an
    /// address, or a register from `random` masked by an immediate value.
    fn exec_load_reg(&mut self, ins: Instruction, random: u8)
        requires
            ins.wf(),
        ensures
            final(self)@ == spec_load_reg(old(self)@, ins, random),
            final(self).stack_pointer == old(self).stack_pointer,
    {
        match ins {
            Instruction::LoadImm(x, kk) => {
                self.v[x] = kk;
            },
            Instruction::AddImm(x, kk) => {
                self.v[x] = self.v[x].wrapping_add(kk);
            },
            Instruction::LoadIndex(addr) => {
                self.i = addr;
            },
            Instruction::Random(x, kk) => {
                self.v[x] = random & kk;
            },
            _ => {},
        }
    }

    /// Draws the `n`-row sprite stored at I at (Vx, Vy) and sets VF to the
    /// collision flag.
    fn exec_draw(&mut self, x: usize, y: usize, n: u8) -> (r: Result<(), &'static str>)
        requires
            x < 16,
            y < 16,
        ensures
            outcome(old(self)@, spec_draw(old(self)@, x, y, n), final(self)@, r),
            final(self).stack_pointer == old(self).stack_pointer,
    {
        let start = self.i as usize;
        let rows = n as usize;
        if start + rows > MEMORY_CAPACITY {
            return Err(OUT_OF_BOUNDS);
        }
        let mut sprite: Vec<u8> = Vec::new();
        let mut k: usize = 0;
        while k < rows
            invariant
                start + rows <= MEMORY_CAPACITY,
                k <= rows,
                self == old(self),
                start == old(self).i,
                sprite@ == self.memory@.subrange(start as int, start + k),
            decreases rows - k,
        {
            sprite.push(self.memory[start + k]);
            k = k + 1;
        }
        let collision = self.screen.chip8_screen_draw_sprite(
            self.v[x] as usize,
            self.v[y] as usize,
            sprite.as_slice(),
            rows,
        );
        self.v[0x0F] = if collision {
            1
        } else {
            0
        };
        Ok(())
    }

    /// Decodes and executes one opcode word. A random-number instruction draws
    /// its byte from the thread-local generator; every other instruction does
    /// exactly what `spec_execute` says.
    pub fn exec(&mut self, opcode: u16) -> (r: Result<(), &'static str>)
        requires
            old(self).wf(),
        ensures
            final(self).wf(),
            exists|b: u8|
                outcome(old(self)@, spec_execute(old(self)@, spec_decode(opcode), b), final(self)@, r),
            !(spec_decode(opcode) is Random) ==> outcome(
                old(self)@,
                spec_execute(old(self)@, spec_decode(opcode), 0),
                final(self)@,
                r,
            ),
    {
        let ins = decode(opcode);
        let random: u8 = match ins {
            Instruction::Random(..) => rand::random::<u8>(),
            _ => 0,
        };
        self.execute(ins, random)
    }

    /// Executes an opcode of any family but 0x0, as `exec` does; opcodes of
    /// the 0x0 family are left alone.
    pub fn chip8_exec_extended(&mut self, opcode: u16) -> (r: Result<(), &'static str>)
        requires
            old(self).wf(),
        ensures
            final(self).wf(),
            opcode < 0x1000 ==> r == Ok::<(), &'static str>(()) && final(self)@ == old(self)@,
            opcode >= 0x1000 ==> exists|b: u8|
                outcome(old(self)@, spec_execute(old(self)@, spec_decode(opcode), b), final(self)@, r),
            opcode >= 0x1000 && !(spec_decode(opcode) is Random) ==> outcome(
                old(self)@,
                spec_execute(old(self)@, spec_decode(opcode), 0),
                final(self)@,
                r,
            ),
    {
        if opcode < 0x1000 {
            Ok(())
        } else {
            self.exec(opcode)
        }
    }

    /// Fetches the opcode at the program counter, moves the program counter
    /// past it, and executes it. Fails, changing nothing, when the opcode
    /// word does not lie within memory; when the instruction fails, the
    /// program counter stays advanced.
    pub fn step(&mut self) -> (r: Result<(), &'static str>)
        requires
            old(self).wf(),
        ensures
            final(self).wf(),
            !can_fetch(old(self)@) ==> r == Err::<(), &'static str>(OUT_OF_BOUNDS) && final(self)@
                == old(self)@,
            can_fetch(old(self)@) ==> exists|b: u8|
                outcome(
                    advanced(old(self)@),
                    spec_execute(advanced(old(self)@), spec_decode(spec_fetch(old(self)@)), b),
                    final(self)@,
                    r,
                ),
            can_fetch(old(self)@) && !(spec_decode(spec_fetch(old(self)@)) is Random) ==> outcome(
                advanced(old(self)@),
                spec_execute(advanced(old(self)@), spec_decode(spec_fetch(old(self)@)), 0),
                final(self)@,
                r,
            ),
    {
        match self.read16(self.program_counter as usize) {
            Ok(opcode) => {
                self.program_counter = self.program_counter + 2;
                self.exec(opcode)
            },
            Err(e) => Err(e),
        }
    }
}

} // verus!
