//! The interpreter: machine state, program loading, single-step execution,
//! key input and frame output.

use vstd::prelude::*;
use crate::instruction::{Instruction, decode, decoded, operands_in_range, word, word_of};
pub use crate::display::{SCREEN_HEIGHT, SCREEN_SIZE, SCREEN_WIDTH};
use crate::display::{draw_sprite, drawn, collides, screen_is_binary};

verus! {

/// Bytes of addressable memory.
pub const MEM_SIZE: usize = 4096;
/// Address of the built-in hexadecimal font.
pub const FONT_START: usize = 0x50;
/// Address at which a program is loaded and execution starts.
pub const ROM_START: usize = 0x200;
/// Bound on a program's length: a program must be strictly shorter.
pub const MAX_ROM_SIZE: usize = MEM_SIZE - ROM_START;
/// Number of keys on the keypad.
pub const KEY_COUNT: usize = 16;
/// Depth of the call stack.
pub const STACK_SIZE: usize = 16;
/// Bytes in one glyph of the font.
pub const GLYPH_BYTES: usize = 5;

/// The sixteen glyphs `0`..`F`, five rows each.
pub const FONT_DATA: [u8; 80] = [
    0xF0, 0x90, 0x90, 0x90, 0xF0, 0x20, 0x60, 0x20, 0x20, 0x70,
    0xF0, 0x10, 0xF0, 0x80, 0xF0, 0xF0, 0x10, 0xF0, 0x10, 0xF0,
    0x90, 0x90, 0xF0, 0x10, 0x10, 0xF0, 0x80, 0xF0, 0x10, 0xF0,
    0xF0, 0x80, 0xF0, 0x90, 0xF0, 0xF0, 0x10, 0x20, 0x40, 0x40,
    0xF0, 0x90, 0xF0, 0x90, 0xF0, 0xF0, 0x90, 0xF0, 0x10, 0xF0,
    0xF0, 0x90, 0xF0, 0x90, 0x90, 0xE0, 0x90, 0xE0, 0x90, 0xE0,
    0xF0, 0x80, 0x80, 0x80, 0xF0, 0xE0, 0x90, 0x90, 0x90, 0xE0,
    0xF0, 0x80, 0xF0, 0x80, 0xF0, 0xF0, 0x80, 0xF0, 0x80, 0x80,
];

/// A fatal condition met while executing; the run cannot go on.
#[derive(Clone, Copy, Debug, PartialEq, Eq, Structural)]
pub enum Fault {
    /// The program counter leaves no room for a two-byte instruction.
    PcOutOfRange,
    /// A call with all sixteen stack slots in use.
    StackOverflow,
    /// A return with an empty stack.
    StackUnderflow,
    /// An access through the index register past the end of memory.
    MemoryOutOfRange,
    /// A word that encodes no instruction.
    UnknownOpcode { op: u16 },
    /// A key index of 16 or more.
    KeyOutOfRange,
}

/// Why a program image was not loaded.
#[derive(Clone, Copy, Debug, PartialEq, Eq, Structural)]
pub enum LoadError {
    /// The image is not strictly shorter than the program area.
    RomTooLarge,
}

/// The whole machine state, as mathematical values.
pub struct CpuState {
    pub memory: Seq<u8>,
    pub v: Seq<u8>,
    pub i: u16,
    pub pc: u16,
    pub screen: Seq<u8>,
    pub delay_timer: u8,
    pub sound_timer: u8,
    pub stack: Seq<u16>,
    pub sp: u16,
    pub keys: Seq<bool>,
    pub should_draw: bool,
}

/// The state invariant: the sizes of every table, a stack pointer within the
/// stack, an index register within memory, return addresses that leave room
/// for a fetch, and display cells that are 0 or 1.
pub open spec fn valid(s: CpuState) -> bool {
    &&& s.memory.len() == MEM_SIZE
    &&& s.v.len() == 16
    &&& s.screen.len() == SCREEN_SIZE
    &&& s.stack.len() == STACK_SIZE
    &&& s.keys.len() == KEY_COUNT
    &&& s.sp <= STACK_SIZE
    &&& s.i < MEM_SIZE
    &&& forall|k: int| 0 <= k < STACK_SIZE ==> #[trigger] s.stack[k] + 1 < MEM_SIZE
    &&& screen_is_binary(s.screen)
}

/// The memory of a fresh machine: the font at its address, zero elsewhere.
pub open spec fn initial_memory() -> Seq<u8> {
    Seq::new(
        MEM_SIZE as nat,
        |a: int|
            if FONT_START <= a < FONT_START + 80 {
                FONT_DATA@[a - FONT_START]
            } else {
                0u8
            },
    )
}

/// The state of a fresh machine.
pub open spec fn initial_state() -> CpuState {
    CpuState {
        memory: initial_memory(),
        v: Seq::new(16, |k: int| 0u8),
        i: 0,
        pc: ROM_START as u16,
        screen: Seq::new(SCREEN_SIZE as nat, |k: int| 0u8),
        delay_timer: 0,
        sound_timer: 0,
        stack: Seq::new(STACK_SIZE as nat, |k: int| 0u16),
        sp: 0,
        keys: Seq::new(KEY_COUNT as nat, |k: int| false),
        should_draw: false,
    }
}

/// Memory after copying a program image to the program area.
pub open spec fn loaded_memory(memory: Seq<u8>, rom: Seq<u8>) -> Seq<u8> {
    Seq::new(
        memory.len(),
        |a: int|
            if ROM_START <= a < ROM_START + rom.len() {
                rom[a - ROM_START]
            } else {
                memory[a]
            },
    )
}

/// The lowest-indexed key that is down, if any.
pub open spec fn first_pressed(keys: Seq<bool>) -> Option<int> {
    if exists|k: int| 0 <= k < keys.len() && keys[k] {
        Some(choose|k: int| 0 <= k < keys.len() && keys[k] && forall|j: int| 0 <= j < k ==> !keys[j])
    } else {
        None
    }
}

/// The fatal condition that an instruction meets in a state, if any.
pub open spec fn fault_of(s: CpuState, ins: Instruction) -> Option<Fault> {
    match ins {
        Instruction::Return => if s.sp == 0 { Some(Fault::StackUnderflow) } else { None },
        Instruction::Call { .. } => if s.sp >= STACK_SIZE { Some(Fault::StackOverflow) } else { None },
        Instruction::Draw { n, .. } => if s.i + n > MEM_SIZE { Some(Fault::MemoryOutOfRange) } else { None },
        Instruction::StoreBcd { .. } => if s.i + 3 > MEM_SIZE { Some(Fault::MemoryOutOfRange) } else { None },
        Instruction::StoreRegs { x } | Instruction::LoadRegs { x } =>
            if s.i + x + 1 > MEM_SIZE { Some(Fault::MemoryOutOfRange) } else { None },
        _ => None,
    }
}

/// The program counter after a conditional skip: one instruction further when
/// the condition holds. `s.pc` is the already advanced counter.
pub open spec fn skip_if(s: CpuState, cond: bool) -> u16 {
    if cond { (s.pc + 2) as u16 } else { s.pc }
}

/// Register `x` set to `val`.
pub open spec fn set_reg(s: CpuState, x: int, val: u8) -> CpuState {
    CpuState { v: s.v.update(x, val), ..s }
}

/// Register `x` set to `val` after the flag register is set to `flag`: when
/// `x` is the flag register, `val` is what remains.
pub open spec fn set_reg_flag(s: CpuState, x: int, val: u8, flag: u8) -> CpuState {
    CpuState { v: s.v.update(15, flag).update(x, val), ..s }
}

/// What an instruction does to a state whose program counter has already been
/// advanced past it, given the byte that a random draw yields. Meaningful when
/// `fault_of` finds no fault.
pub open spec fn apply(s: CpuState, ins: Instruction, random: u8) -> CpuState {
    match ins {
        Instruction::ClearScreen =>
            CpuState { screen: Seq::new(SCREEN_SIZE as nat, |k: int| 0u8), should_draw: true, ..s },
        Instruction::Return =>
            CpuState { sp: (s.sp - 1) as u16, pc: (s.stack[s.sp - 1] + 2) as u16, ..s },
        Instruction::Jump { addr } => CpuState { pc: addr, ..s },
        Instruction::Call { addr } =>
            CpuState {
                stack: s.stack.update(s.sp as int, (s.pc - 2) as u16),
                sp: (s.sp + 1) as u16,
                pc: addr,
                ..s
            },
        Instruction::SkipEqImm { x, nn } => CpuState { pc: skip_if(s, s.v[x as int] == nn), ..s },
        Instruction::SkipNeImm { x, nn } => CpuState { pc: skip_if(s, s.v[x as int] != nn), ..s },
        Instruction::SkipEqReg { x, y } =>
            CpuState { pc: skip_if(s, s.v[x as int] == s.v[y as int]), ..s },
        Instruction::LoadImm { x, nn } => set_reg(s, x as int, nn),
        Instruction::AddImm { x, nn } => set_reg(s, x as int, ((s.v[x as int] + nn) % 256) as u8),
        Instruction::Copy { x, y } => set_reg(s, x as int, s.v[y as int]),
        Instruction::Or { x, y } => set_reg(s, x as int, s.v[x as int] | s.v[y as int]),
        Instruction::And { x, y } => set_reg(s, x as int, s.v[x as int] & s.v[y as int]),
        Instruction::Xor { x, y } => set_reg(s, x as int, s.v[x as int] ^ s.v[y as int]),
        Instruction::AddReg { x, y } => {
            let sum = s.v[x as int] + s.v[y as int];
            set_reg_flag(s, x as int, (sum % 256) as u8, if sum > 255 { 1 } else { 0 })
        },
        Instruction::SubReg { x, y } => {
            let (a, b) = (s.v[x as int], s.v[y as int]);
            set_reg_flag(s, x as int, ((a - b + 256) % 256) as u8, if a >= b { 1 } else { 0 })
        },
        Instruction::ShiftRight { x } => {
            let a = s.v[x as int];
            set_reg_flag(s, x as int, a >> 1u8, a & 1u8)
        },
        Instruction::SubRev { x, y } => {
            let (a, b) = (s.v[x as int], s.v[y as int]);
            set_reg_flag(s, x as int, ((b - a + 256) % 256) as u8, if b >= a { 1 } else { 0 })
        },
        Instruction::ShiftLeft { x } => {
            let a = s.v[x as int];
            set_reg_flag(s, x as int, ((a * 2) % 256) as u8, a & 0x80u8)
        },
        Instruction::SkipNeReg { x, y } =>
            CpuState { pc: skip_if(s, s.v[x as int] != s.v[y as int]), ..s },
        Instruction::SetIndex { addr } => CpuState { i: addr, ..s },
        Instruction::JumpOffset { addr } => CpuState { pc: (addr + s.v[0]) as u16, ..s },
        Instruction::Random { x, nn } => set_reg(s, x as int, random & nn),
        Instruction::Draw { x, y, n } => {
            let rows = s.memory.subrange(s.i as int, s.i + n);
            let (px, py) = (s.v[x as int], s.v[y as int]);
            CpuState {
                v: s.v.update(15, if collides(s.screen, rows, px, py) { 1 } else { 0 }),
                screen: drawn(s.screen, rows, px, py),
                should_draw: true,
                ..s
            }
        },
        Instruction::SkipKey { x } =>
            CpuState { pc: skip_if(s, s.keys[(s.v[x as int] & 0xFu8) as int]), ..s },
        Instruction::SkipNoKey { x } =>
            CpuState { pc: skip_if(s, !s.keys[(s.v[x as int] & 0xFu8) as int]), ..s },
        Instruction::GetDelay { x } => set_reg(s, x as int, s.delay_timer),
        Instruction::WaitKey { x } => match first_pressed(s.keys) {
            Some(k) => set_reg(s, x as int, k as u8),
            None => CpuState { pc: (s.pc - 2) as u16, ..s },
        },
        Instruction::SetDelay { x } => CpuState { delay_timer: s.v[x as int], ..s },
        Instruction::SetSound { x } => CpuState { sound_timer: s.v[x as int], ..s },
        Instruction::AddIndex { x } => {
            let sum = s.i + s.v[x as int];
            CpuState {
                sound_timer: s.v[x as int],
                i: (sum % MEM_SIZE as int) as u16,
                v: s.v.update(15, if sum >= MEM_SIZE { 1 } else { 0 }),
                ..s
            }
        },
        Instruction::FontGlyph { x } =>
            CpuState { i: (FONT_START + (s.v[x as int] & 0xFu8) * GLYPH_BYTES) as u16, ..s },
        Instruction::StoreBcd { x } => {
            let a = s.v[x as int];
            CpuState {
                memory: s.memory.update(s.i as int, a / 100).update(s.i + 1, (a / 10) % 10).update(
                    s.i + 2,
                    a % 10,
                ),
                ..s
            }
        },
        Instruction::StoreRegs { x } =>
            CpuState {
                memory: Seq::new(
                    s.memory.len(),
                    |a: int| if s.i <= a <= s.i + x { s.v[a - s.i] } else { s.memory[a] },
                ),
                ..s
            },
        Instruction::LoadRegs { x } =>
            CpuState {
                v: Seq::new(16, |k: int| if k <= x { s.memory[s.i + k] } else { s.v[k] }),
                ..s
            },
    }
}

/// One tick of both timers: each counts down by one while above zero.
pub open spec fn tick(s: CpuState) -> CpuState {
    CpuState {
        delay_timer: if s.delay_timer > 0 { (s.delay_timer - 1) as u8 } else { 0 },
        sound_timer: if s.sound_timer > 0 { (s.sound_timer - 1) as u8 } else { 0 },
        ..s
    }
}

/// The instruction word at the program counter.
pub open spec fn current_word(s: CpuState) -> u16 {
    word_of(s.memory[s.pc as int], s.memory[s.pc + 1])
}

/// The outcome of one step from `s`, given the byte that a random draw
/// yields: fetch the word at the program counter, advance the counter, run
/// the instruction, tick the timers; or the fault that stops the machine.
pub open spec fn next(s: CpuState, random: u8) -> Result<CpuState, Fault> {
    if s.pc + 1 >= MEM_SIZE {
        Err(Fault::PcOutOfRange)
    } else {
        let op = current_word(s);
        match decoded(op) {
            None => Err(Fault::UnknownOpcode { op }),
            Some(ins) => match fault_of(s, ins) {
                Some(f) => Err(f),
                None => Ok(tick(apply(CpuState { pc: (s.pc + 2) as u16, ..s }, ins, random))),
            },
        }
    }
}

/// The outcome of a step as seen from outside: on success the machine is in
/// the next state; on a fault it is left as it was and the fault is reported.
pub open spec fn stepped(s: CpuState, random: u8, r: Result<(), Fault>, t: CpuState) -> bool {
    match next(s, random) {
        Ok(n) => r is Ok && t == n,
        Err(e) => r == Err::<(), Fault>(e) && t == s,
    }
}

/// The low nibble of a byte is below 16.
proof fn lemma_low_nibble(a: u8)
    ensures
        a & 0xFu8 < 16,
{
    assert(a & 0xFu8 < 16) by (bit_vector);
}

/// Relies on rand::random::<u8>: a byte drawn from the thread-local
/// generator. Nothing is known of its value.
#[verifier::external_body]
fn random_byte() -> (r: u8) {
    rand::random::<u8>()
}

/// Copies registers `0..=x` to memory from address `at` on.
fn store_registers(memory: &mut [u8; MEM_SIZE], v: &[u8; 16], at: usize, x: usize)
    requires
        x < 16,
        at + x + 1 <= MEM_SIZE,
    ensures
        final(memory)@ == Seq::new(
            MEM_SIZE as nat,
            |a: int| if at <= a <= at + x { v@[a - at] } else { old(memory)@[a] },
        ),
{
    let ghost m0 = memory@;
    let mut k: usize = 0;
    while k <= x
        invariant
            x < 16,
            at + x + 1 <= MEM_SIZE,
            k <= x + 1,
            memory@ =~= Seq::new(MEM_SIZE as nat, |a: int| if at <= a < at + k { v@[a - at] } else { m0[a] }),
        decreases x + 1 - k,
    {
        memory[at + k] = v[k];
        k = k + 1;
    }
    assert(memory@ =~= Seq::new(
        MEM_SIZE as nat,
        |a: int| if at <= a <= at + x { v@[a - at] } else { m0[a] },
    ));
}

/// Fills registers `0..=x` from memory at address `at` on.
fn load_registers(v: &mut [u8; 16], memory: &[u8; MEM_SIZE], at: usize, x: usize)
    requires
        x < 16,
        at + x + 1 <= MEM_SIZE,
    ensures
        final(v)@ == Seq::new(16, |k: int| if k <= x { memory@[at + k] } else { old(v)@[k] }),
{
    let ghost v0 = v@;
    let mut k: usize = 0;
    while k <= x
        invariant
            x < 16,
            at + x + 1 <= MEM_SIZE,
            k <= x + 1,
            v@ =~= Seq::new(16, |j: int| if j < k { memory@[at + j] } else { v0[j] }),
        decreases x + 1 - k,
    {
        v[k] = memory[at + k];
        k = k + 1;
    }
    assert(v@ =~= Seq::new(16, |j: int| if j <= x { memory@[at + j] } else { v0[j] }));
}

/// The interpreter: the whole state of one CHIP-8 machine. Its view is a
/// `CpuState`; `new` yields a state that `valid` accepts and every operation
/// keeps it so.
pub struct Cpu {
    memory: [u8; MEM_SIZE],
    v: [u8; 16],
    i: u16,
    pc: u16,
    screen: [u8; SCREEN_SIZE],
    delay_timer: u8,
    sound_timer: u8,
    stack: [u16; STACK_SIZE],
    sp: u16,
    key: [bool; KEY_COUNT],
    should_draw: bool,
}

impl View for Cpu {
    type V = CpuState;

    closed spec fn view(&self) -> CpuState {
        CpuState {
            memory: self.memory@,
            v: self.v@,
            i: self.i,
            pc: self.pc,
            screen: self.screen@,
            delay_timer: self.delay_timer,
            sound_timer: self.sound_timer,
            stack: self.stack@,
            sp: self.sp,
            keys: self.key@,
            should_draw: self.should_draw,
        }
    }
}

impl Cpu {
    /// A fresh machine: memory zeroed but for the font, the program counter
    /// at the program area, everything else zero, no key down, nothing to
    /// draw.
    pub fn new() -> (r: Cpu)
        ensures
            r@ == initial_state(),
            valid(r@),
    {
        let mut memory = [0u8; MEM_SIZE];
        let mut k: usize = 0;
        while k < 80
            invariant
                k <= 80,
                memory@ =~= Seq::new(
                    MEM_SIZE as nat,
                    |a: int|
                        if FONT_START <= a < FONT_START + k {
                            FONT_DATA@[a - FONT_START]
                        } else {
                            0u8
                        },
                ),
            decreases 80 - k,
        {
            memory[FONT_START + k] = FONT_DATA[k];
            k = k + 1;
        }
        let r = Cpu {
            memory,
            v: [0u8; 16],
            i: 0,
            pc: ROM_START as u16,
            screen: [0u8; SCREEN_SIZE],
            delay_timer: 0,
            sound_timer: 0,
            stack: [0u16; STACK_SIZE],
            sp: 0,
            key: [false; KEY_COUNT],
            should_draw: false,
        };
        assert(r@.v =~= initial_state().v);
        assert(r@.screen =~= initial_state().screen);
        assert(r@.stack =~= initial_state().stack);
        assert(r@.keys =~= initial_state().keys);
        assert(r@.memory =~= initial_memory());
        r
    }

    /// Copies a program image into memory at the program area. An image that
    /// is not strictly shorter than the program area is refused and nothing
    /// is written.
    pub fn load(&mut self, rom: &[u8]) -> (r: Result<(), LoadError>)
        requires
            valid(old(self)@),
        ensures
            valid(final(self)@),
            rom@.len() < MAX_ROM_SIZE ==> r is Ok && final(self)@ == (CpuState {
                memory: loaded_memory(old(self)@.memory, rom@),
                ..old(self)@
            }),
            rom@.len() >= MAX_ROM_SIZE ==> r == Err::<(), LoadError>(LoadError::RomTooLarge)
                && final(self)@ == old(self)@,
    {
        if rom.len() >= MAX_ROM_SIZE {
            return Err(LoadError::RomTooLarge);
        }
        let ghost m0 = self.memory@;
        let mut k: usize = 0;
        while k < rom.len()
            invariant
                k <= rom@.len(),
                rom@.len() < MAX_ROM_SIZE,
                self.memory@ =~= Seq::new(
                    MEM_SIZE as nat,
                    |a: int|
                        if ROM_START <= a < ROM_START + k {
                            rom@[a - ROM_START]
                        } else {
                            m0[a]
                        },
                ),
                self.v == old(self).v,
                self.i == old(self).i,
                self.pc == old(self).pc,
                self.screen == old(self).screen,
                self.delay_timer == old(self).delay_timer,
                self.sound_timer == old(self).sound_timer,
                self.stack == old(self).stack,
                self.sp == old(self).sp,
                self.key == old(self).key,
                self.should_draw == old(self).should_draw,
                m0 == old(self).memory@,
            decreases rom@.len() - k,
        {
            self.memory[ROM_START + k] = rom[k];
            k = k + 1;
        }
        assert(self.memory@ =~= loaded_memory(m0, rom@));
        Ok(())
    }

    /// Records whether key `index` is down. An index of 16 or more is a
    /// fault and changes nothing.
    pub fn set_key(&mut self, index: usize, on: bool) -> (r: Result<(), Fault>)
        requires
            valid(old(self)@),
        ensures
            valid(final(self)@),
            index < KEY_COUNT ==> r is Ok && final(self)@ == (CpuState {
                keys: old(self)@.keys.update(index as int, on),
                ..old(self)@
            }),
            index >= KEY_COUNT ==> r == Err::<(), Fault>(Fault::KeyOutOfRange) && final(self)@ == old(self)@,
    {
        if index >= KEY_COUNT {
            return Err(Fault::KeyOutOfRange);
        }
        self.key[index] = on;
        Ok(())
    }

    /// Hands out the display buffer when it changed since the last call, and
    /// marks it as consumed; `None` when nothing changed.
    pub fn new_frame(&mut self) -> (r: Option<&[u8; SCREEN_SIZE]>)
        requires
            valid(old(self)@),
        ensures
            valid(final(self)@),
            final(self)@ == (CpuState { should_draw: false, ..old(self)@ }),
            old(self)@.should_draw ==> (r matches Some(b) && b@ == old(self)@.screen),
            !old(self)@.should_draw ==> r is None,
    {
        if self.should_draw {
            self.should_draw = false;
            Some(&self.screen)
        } else {
            None
        }
    }

    /// The fault that `ins` meets in the current state, if any.
    fn fault(&self, ins: Instruction) -> (r: Option<Fault>)
        requires
            valid(self@),
            operands_in_range(ins),
        ensures
            r == fault_of(self@, ins),
    {
        match ins {
            Instruction::Return => if self.sp == 0 { Some(Fault::StackUnderflow) } else { None },
            Instruction::Call { .. } => if self.sp as usize >= STACK_SIZE {
                Some(Fault::StackOverflow)
            } else {
                None
            },
            Instruction::Draw { n, .. } => if self.i as usize + n as usize > MEM_SIZE {
                Some(Fault::MemoryOutOfRange)
            } else {
                None
            },
            Instruction::StoreBcd { .. } => if self.i as usize + 3 > MEM_SIZE {
                Some(Fault::MemoryOutOfRange)
            } else {
                None
            },
            Instruction::StoreRegs { x } | Instruction::LoadRegs { x } => if self.i as usize + x + 1
                > MEM_SIZE {
                Some(Fault::MemoryOutOfRange)
            } else {
                None
            },
            _ => None,
        }
    }

    /// Sets the program counter one instruction further when `cond` holds.
    fn skip_when(&mut self, cond: bool)
        requires
            valid(old(self)@),
            old(self).pc <= MEM_SIZE + 2,
        ensures
            final(self)@ == (CpuState { pc: skip_if(old(self)@, cond), ..old(self)@ }),
    {
        if cond {
            self.pc = self.pc + 2;
        }
    }

    /// Runs one instruction on a state whose program counter is already
    /// advanced past it.
    fn execute(&mut self, ins: Instruction, random: u8)
        requires
            valid(old(self)@),
            operands_in_range(ins),
            fault_of(old(self)@, ins).is_none(),
            2 <= old(self).pc <= MEM_SIZE,
        ensures
            final(self)@ == apply(old(self)@, ins, random),
            valid(final(self)@),
    {
        match ins {
            Instruction::ClearScreen => {
                self.screen = [0u8; SCREEN_SIZE];
                self.should_draw = true;
                assert(self.screen@ =~= Seq::new(SCREEN_SIZE as nat, |k: int| 0u8));
            },
            Instruction::Return => {
                self.sp = self.sp - 1;
                self.pc = self.stack[self.sp as usize] + 2;
            },
            Instruction::Jump { addr } => {
                self.pc = addr;
            },
            Instruction::Call { addr } => {
                self.stack[self.sp as usize] = self.pc - 2;
                self.sp = self.sp + 1;
                self.pc = addr;
            },
            Instruction::SkipEqImm { x, nn } => {
                let c = self.v[x] == nn;
                self.skip_when(c);
            },
            Instruction::SkipNeImm { x, nn } => {
                let c = self.v[x] != nn;
                self.skip_when(c);
            },
            Instruction::SkipEqReg { x, y } => {
                let c = self.v[x] == self.v[y];
                self.skip_when(c);
            },
            Instruction::LoadImm { x, nn } => {
                self.v[x] = nn;
            },
            Instruction::AddImm { x, nn } => {
                self.v[x] = ((self.v[x] as u16 + nn as u16) % 256) as u8;
            },
            Instruction::Copy { x, y } => {
                self.v[x] = self.v[y];
            },
            Instruction::Or { x, y } => {
                self.v[x] = self.v[x] | self.v[y];
            },
            Instruction::And { x, y } => {
                self.v[x] = self.v[x] & self.v[y];
            },
            Instruction::Xor { x, y } => {
                self.v[x] = self.v[x] ^ self.v[y];
            },
            Instruction::AddReg { x, y } => {
                let sum = self.v[x] as u16 + self.v[y] as u16;
                self.v[15] = if sum > 255 { 1 } else { 0 };
                self.v[x] = (sum % 256) as u8;
            },
            Instruction::SubReg { x, y } => {
                let (a, b) = (self.v[x], self.v[y]);
                self.v[15] = if a >= b { 1 } else { 0 };
                self.v[x] = ((a as u16 + 256 - b as u16) % 256) as u8;
            },
            Instruction::ShiftRight { x } => {
                let a = self.v[x];
                self.v[15] = a & 1u8;
                self.v[x] = a >> 1u8;
            },
            Instruction::SubRev { x, y } => {
                let (a, b) = (self.v[x], self.v[y]);
                self.v[15] = if b >= a { 1 } else { 0 };
                self.v[x] = ((b as u16 + 256 - a as u16) % 256) as u8;
            },
            Instruction::ShiftLeft { x } => {
                let a = self.v[x];
                self.v[15] = a & 0x80u8;
                self.v[x] = ((a as u16 * 2) % 256) as u8;
            },
            Instruction::SkipNeReg { x, y } => {
                let c = self.v[x] != self.v[y];
                self.skip_when(c);
            },
            Instruction::SetIndex { addr } => {
                self.i = addr;
            },
            Instruction::JumpOffset { addr } => {
                self.pc = addr + self.v[0] as u16;
            },
            Instruction::Random { x, nn } => {
                self.v[x] = random & nn;
            },
            Instruction::Draw { x, y, n } => {
                let (px, py) = (self.v[x], self.v[y]);
                let hit = draw_sprite(&mut self.screen, &self.memory, self.i as usize, n as usize, px, py);
                self.v[15] = if hit { 1 } else { 0 };
                self.should_draw = true;
            },
            Instruction::SkipKey { x } => {
                proof {
                    lemma_low_nibble(self.v@[x as int]);
                }
                let c = self.key[(self.v[x] & 0xFu8) as usize];
                self.skip_when(c);
            },
            Instruction::SkipNoKey { x } => {
                proof {
                    lemma_low_nibble(self.v@[x as int]);
                }
                let c = !self.key[(self.v[x] & 0xFu8) as usize];
                self.skip_when(c);
            },
            Instruction::GetDelay { x } => {
                self.v[x] = self.delay_timer;
            },
            Instruction::WaitKey { x } => {
                let mut k: usize = 0;
                while k < KEY_COUNT && !self.key[k]
                    invariant
                        k <= KEY_COUNT,
                        forall|j: int| 0 <= j < k ==> !self.key@[j],
                    decreases KEY_COUNT - k,
                {
                    k = k + 1;
                }
                if k < KEY_COUNT {
                    proof {
                        let c = choose|c: int|
                            0 <= c < self.key@.len() && self.key@[c] && forall|j: int|
                                0 <= j < c ==> !self.key@[j];
                        assert(self.key@[k as int]);
                        assert(c == k);
                    }
                    self.v[x] = k as u8;
                } else {
                    self.pc = self.pc - 2;
                }
            },
            Instruction::SetDelay { x } => {
                self.delay_timer = self.v[x];
            },
            Instruction::SetSound { x } => {
                self.sound_timer = self.v[x];
            },
            Instruction::AddIndex { x } => {
                self.sound_timer = self.v[x];
                let sum = self.i + self.v[x] as u16;
                if sum as usize >= MEM_SIZE {
                    self.i = sum % (MEM_SIZE as u16);
                    self.v[15] = 1;
                } else {
                    self.i = sum;
                    self.v[15] = 0;
                }
            },
            Instruction::FontGlyph { x } => {
                proof {
                    lemma_low_nibble(self.v@[x as int]);
                }
                let glyph: u16 = (self.v[x] & 0xFu8) as u16;
                self.i = FONT_START as u16 + glyph * 5;
            },
            Instruction::StoreBcd { x } => {
                let a = self.v[x];
                let at = self.i as usize;
                self.memory[at] = a / 100;
                self.memory[at + 1] = (a / 10) % 10;
                self.memory[at + 2] = a % 10;
            },
            Instruction::StoreRegs { x } => {
                store_registers(&mut self.memory, &self.v, self.i as usize, x);
            },
            Instruction::LoadRegs { x } => {
                load_registers(&mut self.v, &self.memory, self.i as usize, x);
            },
        }
    }

    /// Counts both timers down by one where they are above zero.
    fn tick_timers(&mut self)
        requires
            valid(old(self)@),
        ensures
            final(self)@ == tick(old(self)@),
            valid(final(self)@),
    {
        if self.delay_timer > 0 {
            self.delay_timer = self.delay_timer - 1;
        }
        if self.sound_timer > 0 {
            self.sound_timer = self.sound_timer - 1;
        }
    }

    /// Executes one instruction and ticks the timers once, with `random` as
    /// the byte that a random-number instruction draws. On a fault nothing
    /// changes and the fault is returned.
    pub fn step_with(&mut self, random: u8) -> (r: Result<(), Fault>)
        requires
            valid(old(self)@),
        ensures
            valid(final(self)@),
            stepped(old(self)@, random, r, final(self)@),
    {
        if self.pc as usize + 1 >= MEM_SIZE {
            return Err(Fault::PcOutOfRange);
        }
        let op = word(self.memory[self.pc as usize], self.memory[self.pc as usize + 1]);
        let ins = match decode(op) {
            Some(ins) => ins,
            None => {
                return Err(Fault::UnknownOpcode { op });
            },
        };
        if let Some(f) = self.fault(ins) {
            return Err(f);
        }
        self.pc = self.pc + 2;
        self.execute(ins, random);
        self.tick_timers();
        Ok(())
    }

    /// Executes one instruction and ticks the timers once, drawing the byte
    /// for a random-number instruction from the process-wide generator. On a
    /// fault nothing changes and the fault is returned.
    pub fn step(&mut self) -> (r: Result<(), Fault>)
        requires
            valid(old(self)@),
        ensures
            valid(final(self)@),
            exists|random: u8| stepped(old(self)@, random, r, final(self)@),
    {
        let random = random_byte();
        let r = self.step_with(random);
        assert(stepped(old(self)@, random, r, self@));
        r
    }


    /// The program counter.
    pub fn pc(&self) -> (r: u16)
        ensures
            r == self@.pc,
    {
        self.pc
    }

    /// General register `x`.
    pub fn register(&self, x: usize) -> (r: u8)
        requires
            x < 16,
        ensures
            r == self@.v[x as int],
    {
        self.v[x]
    }

    /// The index register.
    pub fn index_register(&self) -> (r: u16)
        ensures
            r == self@.i,
    {
        self.i
    }

    /// The delay timer.
    pub fn delay_timer(&self) -> (r: u8)
        ensures
            r == self@.delay_timer,
    {
        self.delay_timer
    }

    /// The sound timer.
    pub fn sound_timer(&self) -> (r: u8)
        ensures
            r == self@.sound_timer,
    {
        self.sound_timer
    }

    /// The number of pending calls.
    pub fn stack_depth(&self) -> (r: u16)
        ensures
            r == self@.sp,
    {
        self.sp
    }

    /// The byte at memory address `addr`.
    pub fn memory_at(&self, addr: usize) -> (r: u8)
        requires
            addr < MEM_SIZE,
        ensures
            r == self@.memory[addr as int],
    {
        self.memory[addr]
    }

}

} // verus!
